//! The search for a display that answers a brightness query.
//!
//! [`Search`] names the display to query next and takes the reply, until one
//! display has answered or none is left. Whoever drives it holds the displays
//! and talks to them.
use vstd::prelude::*;
use vstd::string::*;

use crate::monitor::Connection;
use crate::monitor::ConnectionView;
use crate::text::is_blank;

verus! {

use crate::text::blank;

/// Attempts made when a DDC read fails before giving up on the display.
pub const READ_ATTEMPTS: usize = 3;

/// Pause between retries in milliseconds, giving the monitor time to settle.
pub const RETRY_DELAY_MS: u64 = 120;

/// What identifies an attached display.
#[derive(Debug)]
pub struct DisplayInfo {
    pub model_name: Option<String>,
    pub id: String,
}

/// The name to show for a display: its model name unless that is missing or
/// blank, and else its identifier.
pub open spec fn shown_name(info: DisplayInfo) -> Seq<char> {
    match info.model_name {
        Some(model) if !blank(model@) => model@,
        _ => info.id@,
    }
}

/// The name to show for a display.
pub fn display_name(info: &DisplayInfo) -> (r: String)
    ensures
        r@ == shown_name(*info),
{
    match &info.model_name {
        Some(model) => if is_blank(model.as_str()) {
            info.id.clone()
        } else {
            model.clone()
        },
        None => info.id.clone(),
    }
}

/// The bytes of a monitor's reply to a feature query.
#[derive(Debug, Clone, Copy, PartialEq, Eq)]
pub struct VcpReply {
    /// The type of the value, continuous or not.
    pub ty: u8,
    /// The high byte of the maximum.
    pub mh: u8,
    /// The low byte of the maximum.
    pub ml: u8,
    /// The high byte of the value.
    pub sh: u8,
    /// The low byte of the value.
    pub sl: u8,
}

impl VcpReply {
    /// The value that the reply carries.
    pub open spec fn value(self) -> int {
        256 * self.sh + self.sl
    }

    /// The maximum that the reply carries.
    pub open spec fn maximum(self) -> int {
        256 * self.mh + self.ml
    }
}

/// Calls `ddc_hi::VcpValue::value`, which puts the high byte of the value before
/// its low byte.
#[verifier::external_body]
fn vcp_value(reply: VcpReply) -> (r: u16)
    ensures
        r == reply.value(),
{
    let VcpReply { ty, mh, ml, sh, sl } = reply;
    ddc_hi::VcpValue { ty, mh, ml, sh, sl }.value()
}

/// Calls `ddc_hi::VcpValue::maximum`, which puts the high byte of the maximum
/// before its low byte.
#[verifier::external_body]
fn vcp_maximum(reply: VcpReply) -> (r: u16)
    ensures
        r == reply.maximum(),
{
    let VcpReply { ty, mh, ml, sh, sl } = reply;
    ddc_hi::VcpValue { ty, mh, ml, sh, sl }.maximum()
}

/// What one reply means for the display that was queried.
#[derive(Debug, PartialEq, Eq)]
pub enum Reading {
    /// The display answered.
    Answered { value: u16, max: u16 },
    /// The query failed and is worth another attempt.
    Retry,
    /// The display is of no use.
    Failed(String),
}

/// What a [`Reading`] says.
pub enum ReadingView {
    Answered { value: int, max: int },
    Retry,
    Failed(Seq<char>),
}

impl View for Reading {
    type V = ReadingView;

    open spec fn view(&self) -> ReadingView {
        match self {
            Reading::Answered { value, max } => ReadingView::Answered {
                value: *value as int,
                max: *max as int,
            },
            Reading::Retry => ReadingView::Retry,
            Reading::Failed(error) => ReadingView::Failed(error@),
        }
    }
}

/// A reply to a query: the bytes, or the error that came instead.
pub type ReplyView = Result<VcpReply, Seq<char>>;

/// What a reply says.
pub open spec fn reply_view(reply: Result<VcpReply, String>) -> ReplyView {
    match reply {
        Ok(bytes) => Ok(bytes),
        Err(error) => Err(error@),
    }
}

/// What the reply to attempt `attempt` (from 0) means. A maximum of zero means
/// that the monitor answered but the feature is unusable, which no retry fixes.
pub open spec fn reading_of(attempt: int, reply: ReplyView) -> ReadingView {
    match reply {
        Ok(bytes) => if bytes.maximum() > 0 {
            ReadingView::Answered { value: bytes.value(), max: bytes.maximum() }
        } else {
            ReadingView::Failed("monitor reports a maximum brightness of 0"@)
        },
        Err(error) => if attempt + 1 < READ_ATTEMPTS {
            ReadingView::Retry
        } else {
            ReadingView::Failed(error)
        },
    }
}

/// Decides what the reply to attempt `attempt` (from 0) means.
pub fn read_brightness(attempt: usize, reply: Result<VcpReply, String>) -> (r: Reading)
    requires
        attempt < READ_ATTEMPTS,
    ensures
        r@ == reading_of(attempt as int, reply_view(reply)),
{
    match reply {
        Ok(bytes) => {
            let max: u16 = vcp_maximum(bytes);
            if max > 0 {
                Reading::Answered { value: vcp_value(bytes), max }
            } else {
                Reading::Failed("monitor reports a maximum brightness of 0".to_owned())
            }
        },
        Err(error) => if attempt + 1 < READ_ATTEMPTS {
            Reading::Retry
        } else {
            Reading::Failed(error)
        },
    }
}

/// What the search comes to next.
#[derive(Debug, PartialEq, Eq)]
pub enum SearchStep {
    /// Query this display for its brightness, after a pause or at once.
    Query { display: usize, pause: bool },
    /// This display answered.
    Found { display: usize, connection: Connection },
    /// No display is usable.
    NotFound { reason: String },
}

/// What a [`SearchStep`] says.
pub enum SearchStepView {
    Query { display: int, pause: bool },
    Found { display: int, connection: ConnectionView },
    NotFound { reason: Seq<char> },
}

impl View for SearchStep {
    type V = SearchStepView;

    open spec fn view(&self) -> SearchStepView {
        match self {
            SearchStep::Query { display, pause } => SearchStepView::Query {
                display: *display as int,
                pause: *pause,
            },
            SearchStep::Found { display, connection } => SearchStepView::Found {
                display: *display as int,
                connection: connection@,
            },
            SearchStep::NotFound { reason } => SearchStepView::NotFound { reason: reason@ },
        }
    }
}

/// The state of a search: the names of all displays, the one that is queried
/// and the attempt at it.
pub struct SearchView {
    pub names: Seq<Seq<char>>,
    pub display: int,
    pub attempt: int,
}

impl SearchView {
    /// A query is under way.
    pub open spec fn querying(self) -> bool {
        0 <= self.display < self.names.len() && 0 <= self.attempt < READ_ATTEMPTS
    }
}

/// The names of the displays.
pub open spec fn shown_names(displays: Seq<DisplayInfo>) -> Seq<Seq<char>> {
    displays.map_values(|info: DisplayInfo| shown_name(info))
}

/// A search that begins with the first display.
pub open spec fn search_begun(names: Seq<Seq<char>>) -> (SearchView, SearchStepView) {
    (
        SearchView { names, display: 0, attempt: 0 },
        if names.len() == 0 {
            SearchStepView::NotFound { reason: "No monitor found"@ }
        } else {
            SearchStepView::Query { display: 0, pause: false }
        },
    )
}

/// What a search does with the reply of the display that it queried.
pub open spec fn searched(search: SearchView, reply: ReplyView) -> (SearchView, SearchStepView) {
    match reading_of(search.attempt, reply) {
        ReadingView::Answered { value, max } => (
            search,
            SearchStepView::Found {
                display: search.display,
                connection: ConnectionView { name: search.names[search.display], value, max },
            },
        ),
        ReadingView::Retry => (
            SearchView { attempt: search.attempt + 1, ..search },
            SearchStepView::Query { display: search.display, pause: true },
        ),
        ReadingView::Failed(error) => (
            SearchView { display: search.display + 1, attempt: 0, ..search },
            if search.display + 1 < search.names.len() {
                SearchStepView::Query { display: search.display + 1, pause: false }
            } else {
                SearchStepView::NotFound {
                    reason: "No monitor supports DDC/CI brightness: "@ + error,
                }
            },
        ),
    }
}

/// A search for a display that answers.
#[derive(Debug)]
pub struct Search {
    names: Vec<String>,
    display: usize,
    attempt: usize,
}

impl View for Search {
    type V = SearchView;

    closed spec fn view(&self) -> SearchView {
        SearchView {
            names: self.names@.map_values(|name: String| name@),
            display: self.display as int,
            attempt: self.attempt as int,
        }
    }
}

impl Search {
    /// Starts a search among the displays, in their order.
    pub fn begin(displays: &Vec<DisplayInfo>) -> (r: (Search, SearchStep))
        ensures
            (r.0@, r.1@) == search_begun(shown_names(displays@)),
            r.1@ is Query ==> r.0@.querying(),
    {
        let mut names: Vec<String> = Vec::new();
        let len: usize = displays.len();
        let mut i: usize = 0;
        while i < len
            invariant
                len == displays.len(),
                i <= len,
                names.len() == i,
                forall|j: int|
                    0 <= j < i ==> (#[trigger] names@[j])@ == shown_name(displays@[j]),
            decreases len - i,
        {
            names.push(display_name(&displays[i]));
            i += 1;
        }
        let search = Search { names, display: 0, attempt: 0 };
        assert(search@.names =~= shown_names(displays@));
        if len == 0 {
            (search, SearchStep::NotFound { reason: "No monitor found".to_owned() })
        } else {
            (search, SearchStep::Query { display: 0, pause: false })
        }
    }
}

/// Takes the reply of the display that was queried and says how the search goes
/// on.
pub fn connect(search: &mut Search, reply: Result<VcpReply, String>) -> (step: SearchStep)
    requires
        old(search)@.querying(),
    ensures
        (final(search)@, step@) == searched(old(search)@, reply_view(reply)),
        step@ is Query ==> final(search)@.querying(),
{
    assert(search.display < search.names.len());
    let reading = read_brightness(search.attempt, reply);
    match reading {
        Reading::Answered { value, max } => {
            let name = search.names[search.display].clone();
            SearchStep::Found {
                display: search.display,
                connection: Connection { name, value, max },
            }
        },
        Reading::Retry => {
            search.attempt = search.attempt + 1;
            SearchStep::Query { display: search.display, pause: true }
        },
        Reading::Failed(error) => {
            search.display = search.display + 1;
            search.attempt = 0;
            if search.display < search.names.len() {
                SearchStep::Query { display: search.display, pause: false }
            } else {
                let reason = "No monitor supports DDC/CI brightness: ".to_owned().concat(
                    error.as_str(),
                );
                SearchStep::NotFound { reason }
            }
        },
    }
}

/// What a display comes to when it replies `replies(n)` to attempt `n`, from
/// attempt `attempt` on: its value and maximum, or why it is of no use.
pub open spec fn display_outcome(replies: spec_fn(int) -> ReplyView, attempt: int) -> Result<
    (int, int),
    Seq<char>,
>
    decreases READ_ATTEMPTS - attempt,
{
    match reading_of(attempt, replies(attempt)) {
        ReadingView::Answered { value, max } => Ok((value, max)),
        ReadingView::Failed(error) => Err(error),
        ReadingView::Retry => display_outcome(replies, attempt + 1),
    }
}

/// What a search under way comes to in the end when display `d` replies
/// `replies(d)(n)` to attempt `n`.
pub open spec fn search_outcome(
    search: SearchView,
    replies: spec_fn(int) -> (spec_fn(int) -> ReplyView),
) -> SearchStepView
    decreases search.names.len() - search.display, READ_ATTEMPTS - search.attempt,
{
    let (next, step) = searched(search, replies(search.display)(search.attempt));
    if step is Query {
        search_outcome(next, replies)
    } else {
        step
    }
}

/// What a search among displays of these names comes to in the end.
pub open spec fn whole_search(
    names: Seq<Seq<char>>,
    replies: spec_fn(int) -> (spec_fn(int) -> ReplyView),
) -> SearchStepView {
    let (search, step) = search_begun(names);
    if step is Query {
        search_outcome(search, replies)
    } else {
        step
    }
}

/// The search connects to the first display that answers a brightness query
/// within three attempts, and where none does it says why the last one failed.
pub proof fn law_first_display_that_answers(
    names: Seq<Seq<char>>,
    replies: spec_fn(int) -> (spec_fn(int) -> ReplyView),
)
    ensures
        match whole_search(names, replies) {
            SearchStepView::Found { display, connection } => {
                &&& 0 <= display < names.len()
                &&& forall|d: int|
                    0 <= d < display ==> (#[trigger] display_outcome(replies(d), 0)) is Err
                &&& display_outcome(replies(display), 0) == Ok::<(int, int), Seq<char>>(
                    (connection.value, connection.max),
                )
                &&& connection.name == names[display]
                &&& connection.wf()
                &&& connection.max > 0
            },
            SearchStepView::NotFound { reason } => {
                &&& forall|d: int|
                    0 <= d < names.len() ==> (#[trigger] display_outcome(replies(d), 0)) is Err
                &&& reason == if names.len() == 0 {
                    "No monitor found"@
                } else {
                    "No monitor supports DDC/CI brightness: "@ + display_outcome(
                        replies(names.len() - 1),
                        0,
                    )->Err_0
                }
            },
            SearchStepView::Query { .. } => false,
        },
{
    if names.len() > 0 {
        lemma_search(search_begun(names).0, replies);
    }
}

proof fn lemma_search(
    search: SearchView,
    replies: spec_fn(int) -> (spec_fn(int) -> ReplyView),
)
    requires
        search.querying(),
        display_outcome(replies(search.display), 0) == display_outcome(
            replies(search.display),
            search.attempt,
        ),
        forall|d: int|
            0 <= d < search.display ==> (#[trigger] display_outcome(replies(d), 0)) is Err,
    ensures
        match search_outcome(search, replies) {
            SearchStepView::Found { display, connection } => {
                &&& 0 <= display < search.names.len()
                &&& forall|d: int|
                    0 <= d < display ==> (#[trigger] display_outcome(replies(d), 0)) is Err
                &&& display_outcome(replies(display), 0) == Ok::<(int, int), Seq<char>>(
                    (connection.value, connection.max),
                )
                &&& connection.name == search.names[display]
                &&& connection.wf()
                &&& connection.max > 0
            },
            SearchStepView::NotFound { reason } => {
                &&& forall|d: int|
                    0 <= d < search.names.len() ==> (#[trigger] display_outcome(
                        replies(d),
                        0,
                    )) is Err
                &&& reason == "No monitor supports DDC/CI brightness: "@ + display_outcome(
                    replies(search.names.len() - 1),
                    0,
                )->Err_0
            },
            SearchStepView::Query { .. } => false,
        },
    decreases search.names.len() - search.display, READ_ATTEMPTS - search.attempt,
{
    let reply = replies(search.display)(search.attempt);
    let (next, step) = searched(search, reply);
    if step is Query {
        lemma_search(next, replies);
    }
}

} // verus!

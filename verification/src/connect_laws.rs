//! What the search makes of the bytes that displays reply.
use vstd::prelude::*;

use crate::connect::DisplayInfo;
use crate::connect::Reading;
use crate::connect::ReadingView;
use crate::connect::ReplyView;
use crate::connect::SearchStep;
use crate::connect::SearchStepView;
use crate::connect::SearchView;
use crate::connect::VcpReply;
use crate::monitor::Connection;
use crate::monitor::ConnectionView;

verus! {

use crate::connect::{
    display_outcome,
    law_first_display_that_answers,
    reading_of,
    reply_view,
    search_begun,
    searched,
    shown_name,
    shown_names,
    whole_search,
};
use crate::text::is_white_space;

/// Whether `bytes` are the first reply of a display that is no error, to one of
/// three attempts.
pub open spec fn first_reply(
    replies: spec_fn(int) -> ReplyView,
    attempt: int,
    bytes: VcpReply,
) -> bool {
    &&& 0 <= attempt < 3
    &&& replies(attempt) == Ok::<VcpReply, Seq<char>>(bytes)
    &&& forall|n: int| 0 <= n < attempt ==> (#[trigger] replies(n)) is Err
}

/// Whether all three attempts at a display end in an error.
pub open spec fn silent(replies: spec_fn(int) -> ReplyView) -> bool {
    replies(0) is Err && replies(1) is Err && replies(2) is Err
}

/// Whether a display replies within three attempts, but without a scale.
pub open spec fn without_scale(replies: spec_fn(int) -> ReplyView) -> bool {
    exists|attempt: int, bytes: VcpReply| #[trigger]
        first_reply(replies, attempt, bytes) && bytes.mh == 0 && bytes.ml == 0
}

proof fn lemma_display(replies: spec_fn(int) -> ReplyView)
    ensures
        match display_outcome(replies, 0) {
            Ok((value, max)) => exists|attempt: int, bytes: VcpReply| #[trigger]
                first_reply(replies, attempt, bytes) && value == 256 * bytes.sh + bytes.sl && max
                    == 256 * bytes.mh + bytes.ml && max > 0,
            Err(error) => {
                ||| silent(replies) && error == replies(2)->Err_0
                ||| without_scale(replies) && error == "monitor reports a maximum brightness of 0"@
            },
        },
{
    reveal_with_fuel(display_outcome, 4);
    if let Ok(bytes) = replies(0) {
        assert(first_reply(replies, 0, bytes));
    } else if let Ok(bytes) = replies(1) {
        assert(first_reply(replies, 1, bytes));
    } else if let Ok(bytes) = replies(2) {
        assert(first_reply(replies, 2, bytes));
    }
}

/// A display that is found has the value and the maximum that the bytes of its
/// first good reply carry, to one of three attempts, and its own name. Every
/// display before it has failed three times or has no scale. Where no display is
/// found that holds of all of them, and the last one gives the reason.
pub proof fn law_found_display_replied(
    names: Seq<Seq<char>>,
    replies: spec_fn(int) -> (spec_fn(int) -> ReplyView),
)
    ensures
        match whole_search(names, replies) {
            SearchStepView::Found { display, connection } => {
                &&& 0 <= display < names.len()
                &&& connection.name == names[display]
                &&& connection.max > 0
                &&& exists|attempt: int, bytes: VcpReply| #[trigger]
                    first_reply(replies(display), attempt, bytes) && connection.value == 256
                        * bytes.sh + bytes.sl && connection.max == 256 * bytes.mh + bytes.ml
                &&& forall|d: int|
                    0 <= d < display ==> silent(#[trigger] replies(d)) || without_scale(replies(d))
            },
            SearchStepView::NotFound { reason } => {
                &&& forall|d: int|
                    0 <= d < names.len() ==> silent(#[trigger] replies(d)) || without_scale(
                        replies(d),
                    )
                &&& names.len() == 0 ==> reason == "No monitor found"@
                &&& names.len() > 0 && silent(replies(names.len() - 1)) ==> reason
                    == "No monitor supports DDC/CI brightness: "@ + replies(names.len() - 1)(
                    2,
                )->Err_0
                &&& names.len() > 0 && !silent(replies(names.len() - 1)) ==> reason
                    == "No monitor supports DDC/CI brightness: "@
                    + "monitor reports a maximum brightness of 0"@
            },
            SearchStepView::Query { .. } => false,
        },
{
    law_first_display_that_answers(names, replies);
    match whole_search(names, replies) {
        SearchStepView::Found { display, connection } => {
            lemma_display(replies(display));
            assert forall|d: int| 0 <= d < display implies silent(#[trigger] replies(d))
                || without_scale(replies(d)) by {
                assert(display_outcome(replies(d), 0) is Err);
                lemma_display(replies(d));
            }
        },
        SearchStepView::NotFound { reason } => {
            assert forall|d: int| 0 <= d < names.len() implies silent(#[trigger] replies(d))
                || without_scale(replies(d)) by {
                assert(display_outcome(replies(d), 0) is Err);
                lemma_display(replies(d));
            }
            if names.len() > 0 {
                let last = replies(names.len() - 1);
                assert(display_outcome(last, 0) is Err);
                lemma_display(last);
                if silent(last) && without_scale(last) {
                    let (attempt, bytes) = choose|attempt: int, bytes: VcpReply| #[trigger]
                        first_reply(last, attempt, bytes) && bytes.mh == 0 && bytes.ml == 0;
                    assert(attempt == 0 || attempt == 1 || attempt == 2);
                }
            }
        },
        SearchStepView::Query { .. } => {},
    }
}

/// A reply carries its value and maximum as two bytes each, the high one first. An
/// error is worth another attempt until the third, and a maximum of zero is not.
pub proof fn law_reading(attempt: int, bytes: VcpReply, error: Seq<char>)
    ensures
        bytes.mh != 0 || bytes.ml != 0 ==> reading_of(attempt, Ok(bytes)) == (
        ReadingView::Answered {
            value: 256 * bytes.sh + bytes.sl,
            max: 256 * bytes.mh + bytes.ml,
        }),
        bytes.mh == 0 && bytes.ml == 0 ==> reading_of(attempt, Ok(bytes)) == ReadingView::Failed(
            "monitor reports a maximum brightness of 0"@,
        ),
        attempt < 2 ==> reading_of(attempt, Err(error)) == ReadingView::Retry,
        attempt >= 2 ==> reading_of(attempt, Err(error)) == ReadingView::Failed(error),
{
}

/// A search goes through the displays in their order. It ends at a reply with a
/// scale, pauses and tries again after the first and the second error, and goes on
/// to the next display at once after the third or a reply without a scale.
pub proof fn law_search_step(search: SearchView, reply: ReplyView)
    requires
        search.querying(),
    ensures
        ({
            let (next, step) = searched(search, reply);
            let usable = reply matches Ok(bytes) && (bytes.mh != 0 || bytes.ml != 0);
            let again = reply is Err && search.attempt < 2;
            &&& next.names == search.names
            &&& usable ==> next == search && step == (SearchStepView::Found {
                display: search.display,
                connection: ConnectionView {
                    name: search.names[search.display],
                    value: 256 * reply->Ok_0.sh + reply->Ok_0.sl,
                    max: 256 * reply->Ok_0.mh + reply->Ok_0.ml,
                },
            })
            &&& again ==> {
                &&& next.display == search.display
                &&& next.attempt == search.attempt + 1
                &&& step == (SearchStepView::Query { display: search.display, pause: true })
            }
            &&& !usable && !again ==> {
                &&& next.display == search.display + 1
                &&& next.attempt == 0
                &&& search.display + 1 < search.names.len() ==> step == (SearchStepView::Query {
                    display: search.display + 1,
                    pause: false,
                })
                &&& search.display + 1 == search.names.len() ==> step == (
                SearchStepView::NotFound {
                    reason: "No monitor supports DDC/CI brightness: "@ + match reply {
                        Ok(_) => "monitor reports a maximum brightness of 0"@,
                        Err(error) => error,
                    },
                })
            }
        }),
{
}

/// A search begins with the first attempt at the first display, without a pause.
pub proof fn law_search_begins(names: Seq<Seq<char>>)
    ensures
        search_begun(names).0.names == names,
        search_begun(names).0.display == 0,
        search_begun(names).0.attempt == 0,
        names.len() == 0 ==> search_begun(names).1 == (SearchStepView::NotFound {
            reason: "No monitor found"@,
        }),
        names.len() > 0 ==> search_begun(names).1 == (SearchStepView::Query {
            display: 0,
            pause: false,
        }),
{
}

/// A search waits for a reply exactly if it is at one of three attempts at one of
/// its displays.
pub proof fn law_querying(search: SearchView)
    ensures
        search.querying() <==> 0 <= search.display < search.names.len() && 0 <= search.attempt < 3,
{
}

/// A display goes by its model name where that has anything but white space in it,
/// and else by its identifier; every display keeps its place.
pub proof fn law_display_names(displays: Seq<DisplayInfo>, d: int)
    requires
        0 <= d < displays.len(),
    ensures
        shown_names(displays).len() == displays.len(),
        shown_names(displays)[d] == shown_name(displays[d]),
        match displays[d].model_name {
            Some(model) => {
                &&& (exists|i: int| 0 <= i < model@.len() && !is_white_space(#[trigger] model@[i]))
                    ==> shown_name(displays[d]) == model@
                &&& (forall|i: int| 0 <= i < model@.len() ==> is_white_space(#[trigger] model@[i]))
                    ==> shown_name(displays[d]) == displays[d].id@
            },
            None => shown_name(displays[d]) == displays[d].id@,
        },
{
}

/// What is said of replies, readings and steps is said of the values in them.
pub proof fn law_replies_are_seen_as_they_are(
    bytes: VcpReply,
    text: String,
    value: u16,
    max: u16,
    display: usize,
    pause: bool,
    connection: Connection,
)
    ensures
        reply_view(Ok(bytes)) == Ok::<VcpReply, Seq<char>>(bytes),
        reply_view(Err(text)) == Err::<VcpReply, Seq<char>>(text@),
        (Reading::Answered { value, max })@ == (ReadingView::Answered {
            value: value as int,
            max: max as int,
        }),
        Reading::Retry@ == ReadingView::Retry,
        Reading::Failed(text)@ == ReadingView::Failed(text@),
        (SearchStep::Query { display, pause })@ == (SearchStepView::Query {
            display: display as int,
            pause,
        }),
        (SearchStep::Found { display, connection })@ == (SearchStepView::Found {
            display: display as int,
            connection: connection@,
        }),
        (SearchStep::NotFound { reason: text })@ == (SearchStepView::NotFound { reason: text@ }),
{
}

} // verus!

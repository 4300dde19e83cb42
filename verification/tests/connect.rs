use monitor_tray_control::connect::{
    connect, display_name, read_brightness, DisplayInfo, Reading, Search, SearchStep, VcpReply,
    READ_ATTEMPTS, RETRY_DELAY_MS,
};
use monitor_tray_control::monitor::Connection;

fn info(model_name: Option<&str>, id: &str) -> DisplayInfo {
    DisplayInfo { model_name: model_name.map(|s| s.to_string()), id: id.to_string() }
}

fn reply(value: u16, max: u16) -> Result<VcpReply, String> {
    Ok(VcpReply {
        ty: 0,
        mh: (max >> 8) as u8,
        ml: max as u8,
        sh: (value >> 8) as u8,
        sl: value as u8,
    })
}

fn failure(error: &str) -> Result<VcpReply, String> {
    Err(error.to_string())
}

fn query(display: usize, pause: bool) -> SearchStep {
    SearchStep::Query { display, pause }
}

#[test]
fn retries_are_bounded() {
    assert_eq!(READ_ATTEMPTS, 3);
    assert_eq!(RETRY_DELAY_MS, 120);
}

#[test]
fn name_is_the_model_unless_it_is_blank() {
    assert_eq!(display_name(&info(Some("Panel"), "id-1")), "Panel");
    assert_eq!(display_name(&info(Some(" Panel "), "id-1")), " Panel ");
    assert_eq!(display_name(&info(Some(""), "id-1")), "id-1");
    assert_eq!(display_name(&info(Some(" \t\u{3000}\n"), "id-1")), "id-1");
    assert_eq!(display_name(&info(None, "id-1")), "id-1");
}

#[test]
fn blank_means_what_trimming_means() {
    for code in 0..=0x10FFFFu32 {
        if let Some(c) = char::from_u32(code) {
            let model = c.to_string();
            let expected = if model.trim().is_empty() { "id".to_string() } else { model.clone() };
            assert_eq!(display_name(&info(Some(&model), "id")), expected);
        }
    }
}

#[test]
fn reply_bytes_are_high_byte_first() {
    let bytes = VcpReply { ty: 9, mh: 0x12, ml: 0x34, sh: 0x0A, sl: 0xFF };
    let answered = Reading::Answered { value: 0x0AFF, max: 0x1234 };
    assert_eq!(read_brightness(0, Ok(bytes)), answered);
}

#[test]
fn failed_reads_are_retried_twice() {
    assert_eq!(read_brightness(0, failure("a")), Reading::Retry);
    assert_eq!(read_brightness(1, failure("b")), Reading::Retry);
    assert_eq!(read_brightness(2, failure("c")), Reading::Failed("c".to_string()));
    assert_eq!(read_brightness(2, reply(1, 2)), Reading::Answered { value: 1, max: 2 });
}

#[test]
fn zero_maximum_is_not_retried() {
    let reason = "monitor reports a maximum brightness of 0".to_string();
    assert_eq!(read_brightness(0, reply(5, 0)), Reading::Failed(reason));
}

#[test]
fn search_without_displays_fails_at_once() {
    let (_, step) = Search::begin(&vec![]);
    assert_eq!(step, SearchStep::NotFound { reason: "No monitor found".to_string() });
}

#[test]
fn search_takes_the_first_display_that_answers() {
    let displays = vec![info(None, "one"), info(Some("Two"), "2"), info(Some("Three"), "3")];
    let (mut search, step) = Search::begin(&displays);
    assert_eq!(step, query(0, false));
    assert_eq!(connect(&mut search, failure("x")), query(0, true));
    assert_eq!(connect(&mut search, failure("y")), query(0, true));
    assert_eq!(connect(&mut search, failure("z")), query(1, false));
    assert_eq!(connect(&mut search, failure("x")), query(1, true));
    let connection = Connection { name: "Two".to_string(), value: 300, max: 1000 };
    let found = SearchStep::Found { display: 1, connection };
    assert_eq!(connect(&mut search, reply(300, 1000)), found);
}

#[test]
fn search_passes_over_an_unusable_display() {
    let displays = vec![info(None, "one"), info(None, "two")];
    let (mut search, _) = Search::begin(&displays);
    assert_eq!(connect(&mut search, reply(0, 0)), query(1, false));
    let connection = Connection { name: "two".to_string(), value: 0, max: 1 };
    assert_eq!(connect(&mut search, reply(0, 1)), SearchStep::Found { display: 1, connection });
}

#[test]
fn search_reports_the_last_error() {
    let displays = vec![info(None, "one"), info(None, "two")];
    let (mut search, _) = Search::begin(&displays);
    connect(&mut search, reply(0, 0));
    connect(&mut search, failure("x"));
    connect(&mut search, failure("y"));
    let reason = "No monitor supports DDC/CI brightness: z".to_string();
    assert_eq!(connect(&mut search, failure("z")), SearchStep::NotFound { reason });
}

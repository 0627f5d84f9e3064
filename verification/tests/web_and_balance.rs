use x_panel::http_status::{is_success, status_display, status_line};
use x_panel::modules::deepseek_balance::{
    balance_url, BalanceInfo, BalanceResponse, FetchOutcome, Headline, NextStep,
};
use x_panel::modules::web_api::{preview, preview_is_defined, shorten_url, DetailLine, StatusClass};
use x_panel::modules::{DeepSeekBalanceModule, WebApiModule};
use x_panel::PanelModule;

#[test]
fn status_texts_use_the_reason_table() {
    assert_eq!(status_line(200), "200 OK");
    assert_eq!(status_line(404), "404 Not Found");
    assert_eq!(status_line(599), "599 ");
    assert_eq!(status_display(429), "429 Too Many Requests");
    assert_eq!(status_display(599), "599 <unknown status code>");
    assert_eq!(status_display(500), reqwest::StatusCode::from_u16(500).unwrap().to_string());
}

#[test]
fn success_codes() {
    assert!(is_success(200));
    assert!(is_success(299));
    assert!(!is_success(199));
    assert!(!is_success(300));
}

#[test]
fn shorten_url_strips_scheme_and_slashes() {
    assert_eq!(shorten_url("https://example.com/"), "example.com");
    assert_eq!(shorten_url("http://example.com/api//"), "example.com/api");
    assert_eq!(shorten_url("example.com"), "example.com");
    assert_eq!(shorten_url("https://https://x"), "x");
}

#[test]
fn preview_of_short_text_is_trimmed() {
    assert_eq!(preview("  {\"ok\":true}\n"), "{\"ok\":true}");
    assert_eq!(preview(""), "");
}

#[test]
fn preview_of_long_text_is_cut_at_200_bytes() {
    let long = "a".repeat(250);
    assert_eq!(preview(&long), format!("{}...", "a".repeat(200)));
    let exact = "b".repeat(200);
    assert_eq!(preview(&exact), exact);
}

#[test]
fn preview_cut_respects_multibyte_characters() {
    // 66 three-byte characters and two ASCII bytes make 200 bytes exactly.
    let text = format!("{}xy{}", "中".repeat(66), "z".repeat(10));
    assert!(preview_is_defined(&text));
    assert_eq!(preview(&text), format!("{}xy...", "中".repeat(66)));
    assert!(preview(&text).len() <= 203);
}

#[test]
fn preview_is_undefined_off_a_boundary() {
    // 67 three-byte characters: byte 200 falls inside the 67th.
    let text = format!("{}{}", "中".repeat(67), "z");
    assert!(!preview_is_defined(&text));
    assert!(preview_is_defined("short"));
}

#[test]
fn web_module_records_answers_and_failures() {
    let mut m = WebApiModule::new("api".into(), "https://example.com/".into(), 30);
    assert_eq!(m.height(), 7);
    assert_eq!(m.status(), "");
    assert_eq!(m.status_shown(), "等待中");
    assert_eq!(m.response_time_shown(), "--");
    m.apply_response(200, "12ms".into(), Ok("  hello  ".into()));
    assert_eq!(m.status(), "200 OK");
    assert_eq!(m.status_shown(), "200 OK");
    assert_eq!(m.response_time(), "12ms");
    assert_eq!(m.response_time_shown(), "12ms");
    assert_eq!(m.last_response(), "hello");
    assert_eq!(m.height(), 8);
    assert_eq!(m.status_class(), StatusClass::Success);
    let r = m.update_result();
    assert_eq!(r.id, "api");
    assert!(r.success && r.error.is_none());

    m.apply_response(301, "5ms".into(), Err("body gone".into()));
    assert_eq!(m.last_response(), "[读取失败] body gone");
    assert_eq!(m.status_class(), StatusClass::Redirect);

    m.apply_failure("timeout".into());
    assert_eq!(m.status(), "ERR");
    assert_eq!(m.response_time(), "");
    assert_eq!(m.last_response(), "");
    assert_eq!(m.get_error(), Some("timeout"));
    assert_eq!(m.height(), 8);
    assert_eq!(m.status_class(), StatusClass::Failed);
    let r = m.update_result();
    assert!(!r.success);
    assert_eq!(r.error.as_deref(), Some("timeout"));

    m.apply_response(404, "1ms".into(), Ok("   ".into()));
    assert_eq!(m.status_class(), StatusClass::Other);
    assert_eq!(m.height(), 7);
}

#[test]
fn web_module_interval_zero_keeps_pause() {
    let mut m = WebApiModule::new("api".into(), "u".into(), 30);
    m.toggle_pause();
    m.set_refresh_interval(0);
    assert!(m.is_paused());
    m.set_refresh_interval(15);
    assert_eq!(m.refresh_interval(), 15);
    m.set_refresh_interval(0);
    assert!(m.is_paused());
}

fn info(total: &str, cur: &str) -> BalanceInfo {
    BalanceInfo {
        currency: cur.into(),
        total_balance: total.into(),
        granted_balance: "1.00".into(),
        topped_up_balance: "2.00".into(),
    }
}

#[test]
fn balance_answer_shows_first_entry() {
    let mut m = DeepSeekBalanceModule::new("sk-test".into(), 60);
    assert!(!m.shows_data());
    assert_eq!(m.authorization(), "Bearer sk-test");
    assert_eq!(balance_url(), "https://api.deepseek.com/user/balance");
    let step = m.record_attempt(0, FetchOutcome::Parsed(BalanceResponse {
        is_available: true,
        balance_infos: vec![info("3.00", "USD"), info("9.00", "CNY")],
    }));
    assert_eq!(step, NextStep::Done);
    assert!(m.shows_data());
    assert_eq!(m.total_text(), "3.00 USD");
    assert_eq!(m.granted_text(), "1.00 USD");
    assert_eq!(m.topped_up_text(), "2.00 USD");
    assert!(m.update_result().success);
}

#[test]
fn empty_balance_answer_keeps_figures() {
    let mut m = DeepSeekBalanceModule::new("k".into(), 60);
    m.record_attempt(0, FetchOutcome::Parsed(BalanceResponse { is_available: false, balance_infos: vec![] }));
    assert!(!m.shows_data());
    assert_eq!(m.total_text(), " CNY");
    assert!(m.get_error().is_none());
}

#[test]
fn balance_errors_and_retries() {
    let mut m = DeepSeekBalanceModule::new("k".into(), 60);
    assert_eq!(m.record_attempt(0, FetchOutcome::Refused(429)), NextStep::RetryAfter(2));
    assert_eq!(m.get_error(), Some("API 错误：429 Too Many Requests"));
    assert_eq!(m.record_attempt(1, FetchOutcome::Refused(429)), NextStep::Done);
    assert_eq!(m.record_attempt(0, FetchOutcome::Refused(401)), NextStep::Done);
    assert_eq!(m.get_error(), Some("API 错误：401 Unauthorized"));
    assert_eq!(m.record_attempt(0, FetchOutcome::Failed("timed out".into())), NextStep::RetryAfter(1));
    assert_eq!(m.get_error(), Some("网络错误：timed out"));
    assert_eq!(m.record_attempt(1, FetchOutcome::Failed("timed out".into())), NextStep::Done);
    assert_eq!(m.record_attempt(0, FetchOutcome::Unreadable("bad json".into())), NextStep::Done);
    assert_eq!(m.get_error(), Some("解析失败：bad json"));
    let r = m.update_result();
    assert_eq!(r.id, "deepseek_balance");
    assert!(!r.success);
    assert_eq!(r.error.as_deref(), Some("解析失败：bad json"));
}

#[test]
fn balance_headline_and_warning() {
    let mut m = DeepSeekBalanceModule::new("k".into(), 60);
    assert_eq!(m.headline(), Headline::Loading);
    assert_eq!(m.warning(), None);
    m.record_attempt(1, FetchOutcome::Failed("down".into()));
    assert_eq!(m.headline(), Headline::Failed("网络错误：down".into()));
    assert_eq!(m.warning(), None);
    m.record_attempt(0, FetchOutcome::Parsed(BalanceResponse { is_available: true, balance_infos: vec![info("5.00", "CNY")] }));
    assert_eq!(m.headline(), Headline::Balance("5.00 CNY".into()));
    assert_eq!(m.warning(), None);
    m.record_attempt(1, FetchOutcome::Refused(500));
    assert_eq!(m.headline(), Headline::Balance("5.00 CNY".into()));
    assert_eq!(m.warning(), Some("API 错误：500 Internal Server Error".into()));
}

#[test]
fn at_most_two_requests_on_concrete_outcomes() {
    let mut m = DeepSeekBalanceModule::new("k".into(), 60);
    for outcome in [FetchOutcome::Refused(429), FetchOutcome::Failed("x".into()), FetchOutcome::Refused(503)] {
        assert_eq!(m.record_attempt(1, outcome), NextStep::Done);
    }
}

#[test]
fn balance_module_basics() {
    let mut m = DeepSeekBalanceModule::new("k".into(), 60);
    assert_eq!(m.id(), "deepseek_balance");
    assert_eq!(m.name(), "💰 DeepSeek 余额");
    assert_eq!(m.height(), 7);
    m.toggle_pause();
    assert_eq!(m.refresh_interval(), 0);
    assert_eq!(m.pause_line(), "⏸️ 已暂停");
    m.set_refresh_interval(90);
    assert_eq!(m.refresh_interval(), 90);
}

#[test]
fn web_detail_line_choice() {
    let mut m = WebApiModule::new("api".into(), "u".into(), 30);
    assert_eq!(m.detail_line(), DetailLine::Nothing);
    m.apply_response(200, "1ms".into(), Ok(" ok ".into()));
    assert_eq!(m.detail_line(), DetailLine::Response("ok".into()));
    m.apply_failure("refused".into());
    assert_eq!(m.detail_line(), DetailLine::Error("refused".into()));
    assert_eq!(m.id(), "api");
    assert_eq!(PanelModule::name(&m), "api");
}

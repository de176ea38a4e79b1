use milestone_scheduler::duration::draw_duration;
use milestone_scheduler::models::{
    Account, AccountLevelProgress, AccountPurchaseEventProgress, Level, PurchaseEvent,
};
use milestone_scheduler::schedule::{compute_daily_requests, RequestKind, ScheduleError};

fn account(start_date: &str, template: &str) -> Account {
    Account {
        id: 11,
        game_id: 7,
        name: "alice".to_string(),
        start_date: start_date.to_string(),
        start_time: "10:00".to_string(),
        request_template: template.to_string(),
        created_at: None,
    }
}

fn level(id: i64, token: &str, name: &str, days_offset: i32, time_spent: i32) -> Level {
    Level {
        id,
        game_id: 7,
        event_token: token.to_string(),
        level_name: name.to_string(),
        days_offset,
        time_spent,
        is_bonus: false,
    }
}

fn purchase_event(id: i64, token: &str) -> PurchaseEvent {
    PurchaseEvent {
        id,
        game_id: 7,
        event_token: token.to_string(),
        is_restricted: false,
        max_days_offset: None,
        days_offset: None,
        created_at: None,
    }
}

fn purchase_progress(
    purchase_event_id: i64,
    days_offset: i32,
    time_spent: i32,
    is_completed: bool,
) -> AccountPurchaseEventProgress {
    AccountPurchaseEventProgress {
        account_id: 11,
        purchase_event_id,
        is_completed,
        days_offset,
        time_spent,
        completed_at: None,
    }
}

const TEMPLATE: &str = "POST /session HTTP/1.1\n\n{event_token}:{time_spent}:{level_name}:{days_offset}:{account_name}:{game_id}";

#[test]
fn same_day_level_yields_session_and_event_records() {
    let acct = account("2025-01-01", TEMPLATE);
    let levels = vec![level(1, "lvl1_day0", "L1", 0, 30)];
    let r = compute_daily_requests(&acct, &levels, &vec![], &vec![], &vec![], "2025-01-01", 2025)
        .unwrap();
    assert_eq!(r.days_passed, 0);
    assert_eq!(r.account_id, 11);
    assert_eq!(r.account_name, "alice");
    assert_eq!(r.target_date, "2025-01-01");
    assert_eq!(r.requests.len(), 2);
    assert_eq!(r.requests[0].request_type, RequestKind::Session);
    assert_eq!(r.requests[1].request_type, RequestKind::Event);
    for req in &r.requests {
        assert_eq!(req.event_token, b"lvl1".to_vec());
        assert_eq!(req.level_id, Some(1));
        assert_eq!(req.timestamp, "2025-01-01");
        assert!(29000 <= req.time_spent && req.time_spent <= 31999);
        let content = String::from_utf8(req.content.clone()).unwrap();
        assert!(content.contains(&format!("lvl1:{}:L1:0:alice:7", req.time_spent)));
        assert!(content.contains("Content-Length: "));
    }
    let session = String::from_utf8(r.requests[0].content.clone()).unwrap();
    let event = String::from_utf8(r.requests[1].content.clone()).unwrap();
    assert!(session.starts_with("POST /session "));
    assert!(event.starts_with("POST /event "));
}

#[test]
fn completed_level_produces_no_records() {
    let acct = account("2025-01-01", TEMPLATE);
    let levels = vec![level(1, "lvl1", "L1", 0, 30)];
    let progress = vec![AccountLevelProgress {
        account_id: 11,
        level_id: 1,
        is_completed: true,
        completed_at: Some("2025-01-01T00:00:00Z".to_string()),
    }];
    let r = compute_daily_requests(&acct, &levels, &progress, &vec![], &vec![], "2025-01-01", 2025)
        .unwrap();
    assert_eq!(r.days_passed, 0);
    assert!(r.requests.is_empty());
}

#[test]
fn uncompleted_progress_row_does_not_hide_a_level() {
    let acct = account("2025-01-01", TEMPLATE);
    let levels = vec![level(1, "lvl1", "L1", 0, 30)];
    let progress = vec![AccountLevelProgress {
        account_id: 11,
        level_id: 1,
        is_completed: false,
        completed_at: None,
    }];
    let r = compute_daily_requests(&acct, &levels, &progress, &vec![], &vec![], "2025-01-01", 2025)
        .unwrap();
    assert_eq!(r.requests.len(), 2);
}

#[test]
fn level_due_only_on_its_own_offset() {
    let acct = account("2025-01-01", TEMPLATE);
    let levels = vec![level(1, "lvl1", "L1", 3, 30)];
    let r = compute_daily_requests(&acct, &levels, &vec![], &vec![], &vec![], "2025-01-02", 2025)
        .unwrap();
    assert_eq!(r.days_passed, 1);
    assert!(r.requests.is_empty());
    let r = compute_daily_requests(&acct, &levels, &vec![], &vec![], &vec![], "2025-01-04", 2025)
        .unwrap();
    assert_eq!(r.days_passed, 3);
    assert_eq!(r.requests.len(), 2);
}

#[test]
fn sentinel_level_name_suppresses_the_event_record() {
    let acct = account("2025-01-01", TEMPLATE);
    let levels = vec![level(1, "lvl1", "-", 0, 30)];
    let r = compute_daily_requests(&acct, &levels, &vec![], &vec![], &vec![], "2025-01-01", 2025)
        .unwrap();
    assert_eq!(r.requests.len(), 1);
    assert_eq!(r.requests[0].request_type, RequestKind::Session);
}

#[test]
fn levels_render_in_catalog_order_before_purchase_events() {
    let acct = account("2025-01-01", TEMPLATE);
    let levels = vec![level(1, "a", "A", 0, 10), level(2, "b", "B", 0, 10)];
    let events = vec![purchase_event(5, "gold_pack")];
    let progress = vec![purchase_progress(5, 0, 777, false)];
    let r = compute_daily_requests(&acct, &levels, &vec![], &events, &progress, "2025-01-01", 2025)
        .unwrap();
    assert_eq!(r.requests.len(), 6);
    assert_eq!(r.requests[0].event_token, b"a".to_vec());
    assert_eq!(r.requests[1].event_token, b"a".to_vec());
    assert_eq!(r.requests[2].event_token, b"b".to_vec());
    assert_eq!(r.requests[3].event_token, b"b".to_vec());
    assert_eq!(r.requests[4].event_token, b"gold_pack".to_vec());
    assert_eq!(r.requests[5].event_token, b"gold_pack".to_vec());
}

#[test]
fn purchase_event_uses_stored_duration_and_always_two_records() {
    let acct = account("2025-01-01", TEMPLATE);
    let events = vec![purchase_event(5, "gold_pack")];
    let progress = vec![purchase_progress(5, 2, 777, false)];
    let r = compute_daily_requests(&acct, &vec![], &vec![], &events, &progress, "2025-01-03", 2025)
        .unwrap();
    assert_eq!(r.days_passed, 2);
    assert_eq!(r.requests.len(), 2);
    assert_eq!(r.requests[0].request_type, RequestKind::Session);
    assert_eq!(r.requests[1].request_type, RequestKind::Event);
    for req in &r.requests {
        assert_eq!(req.time_spent, 777);
        assert_eq!(req.level_id, None);
        assert_eq!(req.event_token, b"gold_pack".to_vec());
    }
    // The stored duration renders deterministically; the token stands in for
    // the level name.
    assert_eq!(
        String::from_utf8(r.requests[0].content.clone()).unwrap(),
        "POST /session HTTP/1.1\nContent-Length: 33\n\ngold_pack:777:gold_pack:2:alice:7"
    );
}

#[test]
fn purchase_row_without_catalog_entry_is_silently_skipped() {
    let acct = account("2025-01-01", TEMPLATE);
    let events = vec![purchase_event(9, "other")];
    let progress = vec![purchase_progress(5, 5, 777, false)];
    let r = compute_daily_requests(&acct, &vec![], &vec![], &events, &progress, "2025-01-06", 2025)
        .unwrap();
    assert_eq!(r.days_passed, 5);
    assert!(r.requests.is_empty());
}

#[test]
fn completed_purchase_row_is_not_due() {
    let acct = account("2025-01-01", TEMPLATE);
    let events = vec![purchase_event(5, "gold_pack")];
    let progress = vec![purchase_progress(5, 0, 777, true)];
    let r = compute_daily_requests(&acct, &vec![], &vec![], &events, &progress, "2025-01-01", 2025)
        .unwrap();
    assert!(r.requests.is_empty());
}

#[test]
fn target_before_start_fails_with_date_before_start() {
    let acct = account("2025-01-10", TEMPLATE);
    let r = compute_daily_requests(&acct, &vec![], &vec![], &vec![], &vec![], "2025-01-09", 2025);
    assert_eq!(r.unwrap_err(), ScheduleError::DateBeforeStart);
}

#[test]
fn malformed_dates_fail_with_invalid_date_format() {
    let acct = account("not-a-date-at-all", TEMPLATE);
    let r = compute_daily_requests(&acct, &vec![], &vec![], &vec![], &vec![], "2025-01-09", 2025);
    assert_eq!(r.unwrap_err(), ScheduleError::InvalidDateFormat);
    let acct = account("2025-01-01", TEMPLATE);
    let r = compute_daily_requests(&acct, &vec![], &vec![], &vec![], &vec![], "09-01-2025", 2025);
    assert_eq!(r.unwrap_err(), ScheduleError::InvalidDateFormat);
}

#[test]
fn short_start_date_uses_the_assumed_year() {
    let acct = account("14-Dec", TEMPLATE);
    let r = compute_daily_requests(&acct, &vec![], &vec![], &vec![], &vec![], "2025-12-20", 2025)
        .unwrap();
    assert_eq!(r.days_passed, 6);
}

#[test]
fn elapsed_days_span_month_and_year_boundaries() {
    let acct = account("2024-12-30", TEMPLATE);
    let r = compute_daily_requests(&acct, &vec![], &vec![], &vec![], &vec![], "2025-01-02", 2025)
        .unwrap();
    assert_eq!(r.days_passed, 3);
}

#[test]
fn negative_day_offsets_are_never_due() {
    // Negative or out-of-range scheduling values must not fault; the items
    // are simply not due.
    let acct = account("2025-01-01", TEMPLATE);
    let levels = vec![level(1, "lvl1", "L1", -4, -10)];
    let progress = vec![purchase_progress(5, -4, -10, false)];
    let events = vec![purchase_event(5, "tok")];
    let r = compute_daily_requests(&acct, &levels, &vec![], &events, &progress, "2025-02-01", 2025)
        .unwrap();
    assert!(r.requests.is_empty());
}

#[test]
fn drawn_durations_stay_within_the_documented_bounds() {
    for _ in 0..200 {
        let d = draw_duration(30);
        assert!(29000 <= d && d <= 31999);
    }
    for _ in 0..50 {
        let d = draw_duration(0);
        assert!(-1000 <= d && d <= 1999);
    }
}

use web_scheduler::schedule::compute_trigger;
use web_scheduler::schedule::status_text_of;
use web_scheduler::schedule::validate;
use web_scheduler::schedule::LocalStamp;
use web_scheduler::schedule::ScheduleError;
use web_scheduler::scheduler::OpenOutcome;
use web_scheduler::scheduler::Scheduler;

fn at(epoch: i64, hour: u8, minute: u8, second: u8) -> LocalStamp {
    LocalStamp { epoch, hour, minute, second }
}

#[test]
fn insert_example_half_hour_ahead() {
    let now = at(1_700_000_000, 14, 0, 0);
    let mut core = Scheduler::new();
    let pos = core.submit(now, "14:30", "google.com").unwrap();
    assert_eq!(pos, 0);
    assert_eq!(core.len(), 1);
    let entry = core.entry(0);
    assert_eq!(entry.trigger_at, 1_700_000_000 + 1800);
    assert_eq!(entry.target, "https://google.com");
    assert_eq!(core.status_line().as_str(), "Added schedule for 14:30 (1800 seconds)");
}

#[test]
fn insert_is_strictly_in_future_with_scheme() {
    let now = at(1_700_000_000, 10, 30, 15);
    let s = validate(now, "10:30", "a.com").unwrap();
    assert!(s.trigger_at > now.epoch);
    assert!(s.target.starts_with("https://"));
    let past = validate(now, "09:00", "http://b.com").unwrap();
    assert!(past.trigger_at > now.epoch);
    assert!(past.target.starts_with("http://"));
}

#[test]
fn past_time_rolls_over_to_next_day() {
    let now = at(500_000, 23, 59, 0);
    let t = compute_trigger(now, 0, 1);
    assert_eq!(t, now.epoch + 120);
}

#[test]
fn same_minute_rolls_over_to_next_day() {
    let now = at(1_000_000, 14, 0, 0);
    let t = compute_trigger(now, 14, 0);
    assert_eq!(t, now.epoch + 86_400);
}

#[test]
fn inserts_keep_trigger_order() {
    let now = at(1_700_000_000, 14, 0, 0);
    let mut core = Scheduler::new();
    core.submit(now, "10:00", "a.com").unwrap();
    let pos = core.submit(now, "09:00", "b.com").unwrap();
    assert_eq!(pos, 0);
    assert_eq!(core.len(), 2);
    assert_eq!(core.entry(0).target, "https://b.com");
    assert_eq!(core.entry(1).target, "https://a.com");
    assert!(core.entry(0).trigger_at < core.entry(1).trigger_at);
}

#[test]
fn equal_triggers_keep_insertion_order() {
    let now = at(1_700_000_000, 8, 0, 0);
    let mut core = Scheduler::new();
    core.submit(now, "09:00", "first.com").unwrap();
    let pos = core.submit(now, "09:00", "second.com").unwrap();
    assert_eq!(pos, 1);
    assert_eq!(core.entry(0).target, "https://first.com");
    assert_eq!(core.entry(1).target, "https://second.com");
}

#[test]
fn empty_url_is_rejected() {
    let now = at(1_700_000_000, 14, 0, 0);
    let mut core = Scheduler::new();
    let r = core.submit(now, "14:30", "   ");
    assert!(matches!(r, Err(ScheduleError::EmptyUrl)));
    assert_eq!(core.len(), 0);
    assert_eq!(core.status_line().as_str(), "Please enter a valid URL");
}

#[test]
fn bad_time_is_rejected_with_detail() {
    let now = at(1_700_000_000, 14, 0, 0);
    let mut core = Scheduler::new();
    let r = core.submit(now, "25:00", "google.com");
    assert!(matches!(r, Err(ScheduleError::InvalidTimeFormat(_))));
    assert_eq!(core.len(), 0);
    assert_eq!(core.status_line().as_str(), "Invalid time format (HH:MM): value out of range");
    let r2 = core.submit(now, "soon", "google.com");
    assert!(matches!(r2, Err(ScheduleError::InvalidTimeFormat(_))));
    assert_eq!(core.status_line().as_str(), "Invalid time format (HH:MM): expected HH:MM");
}

#[test]
fn browser_error_status_text() {
    let e = ScheduleError::BrowserLaunchFailed("https://x".to_string(), "no browser".to_string());
    assert_eq!(status_text_of(&e), "Failed to open URL https://x: no browser");
    assert_eq!(
        status_text_of(&ScheduleError::TimeCalculationError),
        "Time calculation error"
    );
}

#[test]
fn due_fires_once_and_removes() {
    let now = at(1_700_000_000, 14, 0, 0);
    let mut core = Scheduler::new();
    core.submit(now, "14:30", "a.com").unwrap();
    core.submit(now, "15:00", "b.com").unwrap();
    let fired = core.due(now.epoch + 1800);
    assert_eq!(fired.len(), 1);
    assert_eq!(fired[0].target, "https://a.com");
    assert_eq!(core.len(), 1);
    let again = core.due(now.epoch + 1800);
    assert!(again.is_empty());
    assert_eq!(core.len(), 1);
}

#[test]
fn due_keeps_original_order() {
    let now = at(1_700_000_000, 14, 0, 0);
    let mut core = Scheduler::new();
    core.submit(now, "15:00", "late.com").unwrap();
    core.submit(now, "14:10", "early.com").unwrap();
    core.submit(now, "14:40", "mid.com").unwrap();
    let fired = core.due(now.epoch + 3600);
    assert_eq!(fired.len(), 3);
    assert_eq!(fired[0].target, "https://early.com");
    assert_eq!(fired[1].target, "https://mid.com");
    assert_eq!(fired[2].target, "https://late.com");
    assert_eq!(core.len(), 0);
}

#[test]
fn cancel_in_range_removes_entry() {
    let now = at(1_700_000_000, 14, 0, 0);
    let mut core = Scheduler::new();
    core.submit(now, "14:30", "a.com").unwrap();
    core.submit(now, "15:00", "b.com").unwrap();
    assert!(core.cancel(0));
    assert_eq!(core.len(), 1);
    assert_eq!(core.entry(0).target, "https://b.com");
    assert_eq!(core.status_line().as_str(), "Schedule removed");
}

#[test]
fn cancel_out_of_range_is_a_reported_no_op() {
    let now = at(1_700_000_000, 14, 0, 0);
    let mut core = Scheduler::new();
    core.submit(now, "14:30", "a.com").unwrap();
    let status_before = core.status_line().clone();
    assert!(!core.cancel(1));
    assert!(!core.cancel(100));
    assert_eq!(core.len(), 1);
    assert_eq!(core.entry(0).target, "https://a.com");
    assert_eq!(core.status_line(), &status_before);
}

#[test]
fn tick_counts_down_to_next_entry() {
    let now = at(1_700_000_000, 14, 0, 0);
    let mut core = Scheduler::new();
    core.submit(now, "14:30", "a.com").unwrap();
    let fired = core.due(now.epoch + 60);
    assert!(fired.is_empty());
    core.finish_tick(now.epoch + 60, &Vec::new());
    assert_eq!(core.status_line().as_str(), "Next opening in 1740 seconds");
}

#[test]
fn tick_reports_opened_then_completed() {
    let now = at(1_700_000_000, 14, 0, 0);
    let mut core = Scheduler::new();
    core.submit(now, "14:30", "a.com").unwrap();
    let fired = core.due(now.epoch + 1800);
    assert_eq!(fired.len(), 1);
    let outcomes = vec![OpenOutcome { target: fired[0].target.clone(), error: None }];
    core.finish_tick(now.epoch + 1800, &outcomes);
    assert_eq!(core.status_line().as_str(), "All schedules completed!");
}

#[test]
fn tick_reports_launch_failure() {
    let now = at(1_700_000_000, 14, 0, 0);
    let mut core = Scheduler::new();
    core.submit(now, "14:30", "a.com").unwrap();
    core.due(now.epoch + 1800);
    let outcomes = vec![OpenOutcome {
        target: "https://a.com".to_string(),
        error: Some("no browser found".to_string()),
    }];
    core.finish_tick(now.epoch + 1800, &outcomes);
    assert_eq!(
        core.status_line().as_str(),
        "Failed to open URL https://a.com: no browser found"
    );
}

#[test]
fn tick_last_outcome_wins_before_countdown() {
    let now = at(1_700_000_000, 14, 0, 0);
    let mut core = Scheduler::new();
    core.submit(now, "14:10", "a.com").unwrap();
    core.submit(now, "14:20", "b.com").unwrap();
    core.submit(now, "15:00", "later.com").unwrap();
    let fired = core.due(now.epoch + 1500);
    assert_eq!(fired.len(), 2);
    let outcomes = vec![
        OpenOutcome { target: fired[0].target.clone(), error: None },
        OpenOutcome { target: fired[1].target.clone(), error: None },
    ];
    core.finish_tick(now.epoch + 1500, &outcomes);
    assert_eq!(core.status_line().as_str(), "Next opening in 2100 seconds");
}

#[test]
fn quick_add_formats_time_and_status() {
    let now = at(1_700_000_000, 23, 59, 30);
    let mut core = Scheduler::new();
    let text = core.quick_add(now, 5);
    assert_eq!(text, "00:04");
    assert_eq!(core.status_line().as_str(), "Set time to 5 minutes from now");
}

#[test]
fn entry_label_renders_time_and_target() {
    let now = at(1_700_000_000, 14, 0, 0);
    let mut core = Scheduler::new();
    core.submit(now, "9:5", "google.com").unwrap();
    assert_eq!(core.entry_label(0), "09:05 - https://google.com");
}

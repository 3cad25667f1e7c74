use duga::telegram::events::{check_event, decide_event, is_event_file, EventDecision, ScheduledEvent};

fn one_shot(at: &str) -> ScheduledEvent {
    ScheduledEvent::OneShot { channel_id: 7, text: "ping".into(), at: at.into() }
}

fn periodic(schedule: &str) -> ScheduledEvent {
    ScheduledEvent::Periodic { channel_id: -5, text: "tick".into(), schedule: schedule.into(), timezone: None }
}

#[test]
fn only_json_files_are_events() {
    assert!(is_event_file("/data/events/a.json"));
    assert!(is_event_file("b.c.json"));
    assert!(!is_event_file("/data/events/a.txt"));
    assert!(!is_event_file("/data/events/.json"));
    assert!(!is_event_file("/data/events/json"));
    assert!(!is_event_file("/data/events/a.JSON"));
}

#[test]
fn immediate_event_runs_and_is_removed() {
    let e = ScheduledEvent::Immediate { channel_id: 42, text: "now".into() };
    assert_eq!(
        check_event(e),
        EventDecision::Trigger { channel_id: 42, text: "now".into(), remove_file: true }
    );
}

#[test]
fn one_shot_event_runs_when_due() {
    assert_eq!(
        check_event(one_shot("2000-01-01T00:00:00Z")),
        EventDecision::Trigger { channel_id: 7, text: "ping".into(), remove_file: true }
    );
    assert_eq!(check_event(one_shot("2999-01-01T00:00:00+02:00")), EventDecision::NotDue);
    assert_eq!(check_event(one_shot("tomorrow")), EventDecision::Invalid);
}

#[test]
fn periodic_event_runs_near_its_schedule_and_is_kept() {
    assert_eq!(check_event(periodic("not a schedule")), EventDecision::Invalid);
    assert_eq!(
        check_event(periodic("* * * * * *")),
        EventDecision::Trigger { channel_id: -5, text: "tick".into(), remove_file: false }
    );
    assert_eq!(check_event(periodic("0 0 0 1 1 * 2099")), EventDecision::NotDue);
}

#[test]
fn decide_event_uses_the_times_given() {
    let now = (1_000, 500);
    assert_eq!(decide_event(one_shot("x"), now, Some((1_000, 500)), false, None),
        EventDecision::Trigger { channel_id: 7, text: "ping".into(), remove_file: true });
    assert_eq!(decide_event(one_shot("x"), now, Some((1_000, 501)), false, None), EventDecision::NotDue);
    assert_eq!(decide_event(one_shot("x"), now, None, false, None), EventDecision::Invalid);
    // Within 30 whole seconds either way.
    assert_eq!(decide_event(periodic("x"), now, None, true, Some((1_030, 999_999_999))),
        EventDecision::Trigger { channel_id: -5, text: "tick".into(), remove_file: false });
    assert_eq!(decide_event(periodic("x"), now, None, true, Some((1_031, 500))), EventDecision::NotDue);
    assert_eq!(decide_event(periodic("x"), now, None, true, Some((969, 501))),
        EventDecision::Trigger { channel_id: -5, text: "tick".into(), remove_file: false });
    assert_eq!(decide_event(periodic("x"), now, None, true, Some((969, 500))), EventDecision::NotDue);
    assert_eq!(decide_event(periodic("x"), now, None, true, None), EventDecision::NotDue);
    assert_eq!(decide_event(periodic("x"), now, None, false, Some(now)), EventDecision::Invalid);
}

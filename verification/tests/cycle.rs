use emwin_tg::cycle::{MAX_ATTEMPTS, RETRY_DELAY};
use emwin_tg::fetch::NOT_MODIFIED;
use emwin_tg::{
    Action, Disposition, Error, Event, FeedDescriptor, FetchCycle, FetchState, HttpFailure,
    Outcome, Phase, Reply,
};

fn feed(max_ticks: Option<u64>) -> FeedDescriptor {
    FeedDescriptor { url: "https://example.org/feed.zip", interval_secs: 47, max_ticks }
}

fn answered(status: u16, etag: Option<&str>, last_modified: Option<&str>, body: &[u8]) -> Reply {
    Reply::Answered {
        status,
        etag: etag.map(String::from),
        last_modified: last_modified.map(String::from),
        body: body.to_vec(),
    }
}

fn broken(detail: &str) -> Reply {
    Reply::Broken(String::from(detail))
}

fn validated_cycle() -> FetchCycle {
    let mut cycle = FetchCycle::new(&feed(None));
    assert!(matches!(cycle.step(Event::Tick), Action::Fetch(_)));
    let first = cycle.step(Event::Reply(answered(200, Some("\"v1\""), Some("Mon"), b"zip")));
    assert!(matches!(first, Action::Deliver(bytes) if bytes == b"zip".to_vec()));
    cycle
}

#[test]
fn constants_are_three_attempts_and_four_seconds() {
    assert_eq!(MAX_ATTEMPTS, 3);
    assert_eq!(RETRY_DELAY, 4);
    assert_eq!(NOT_MODIFIED, 304);
}

#[test]
fn first_request_carries_no_conditional_header() {
    let state = FetchState::new();
    let headers = state.request_headers();
    assert_eq!(headers.if_none_match, None);
    assert_eq!(headers.if_modified_since, None);
}

#[test]
fn later_requests_carry_the_validators_that_are_present() {
    let state = FetchState { etag: Some(String::from("\"abc\"")), last_modified: None };
    let headers = state.request_headers();
    assert_eq!(headers.if_none_match, Some(String::from("\"abc\"")));
    assert_eq!(headers.if_modified_since, None);

    let state = FetchState {
        etag: None,
        last_modified: Some(String::from("Wed, 21 Oct 2015 07:28:00 GMT")),
    };
    let headers = state.request_headers();
    assert_eq!(headers.if_none_match, None);
    assert_eq!(headers.if_modified_since, Some(String::from("Wed, 21 Oct 2015 07:28:00 GMT")));
}

#[test]
fn disposition_of_each_kind_of_status() {
    let bare = FetchState::new();
    let tagged = FetchState { etag: Some(String::from("x")), last_modified: None };
    let dated = FetchState { etag: None, last_modified: Some(String::from("y")) };

    assert_eq!(tagged.disposition(304), Disposition::NotModified);
    assert_eq!(dated.disposition(304), Disposition::NotModified);
    assert_eq!(bare.disposition(304), Disposition::Failure);

    assert_eq!(bare.disposition(200), Disposition::Success);
    assert_eq!(bare.disposition(299), Disposition::Success);
    assert_eq!(tagged.disposition(204), Disposition::Success);

    assert_eq!(bare.disposition(199), Disposition::Failure);
    assert_eq!(bare.disposition(300), Disposition::Failure);
    assert_eq!(tagged.disposition(301), Disposition::Failure);
    assert_eq!(bare.disposition(404), Disposition::Failure);
    assert_eq!(tagged.disposition(500), Disposition::Failure);
    assert_eq!(bare.disposition(0), Disposition::Failure);
    assert_eq!(bare.disposition(u16::MAX), Disposition::Failure);
}

#[test]
fn fresh_content_replaces_both_validators() {
    let mut state = FetchState { etag: Some(String::from("old")), last_modified: Some(String::from("then")) };
    let outcome = state.settle(answered(200, Some("new"), None, b"body"));
    assert!(matches!(outcome, Outcome::Fresh(bytes) if bytes == b"body".to_vec()));
    assert_eq!(state.etag, Some(String::from("new")));
    assert_eq!(state.last_modified, None);
}

#[test]
fn not_modified_leaves_the_validators_untouched() {
    let mut state = FetchState { etag: Some(String::from("old")), last_modified: Some(String::from("then")) };
    let outcome = state.settle(answered(304, Some("ignored"), Some("ignored"), b""));
    assert!(matches!(outcome, Outcome::Unchanged));
    assert_eq!(state.etag, Some(String::from("old")));
    assert_eq!(state.last_modified, Some(String::from("then")));
}

#[test]
fn failing_status_is_an_http_error_with_that_status() {
    let mut state = FetchState { etag: Some(String::from("old")), last_modified: None };
    let outcome = state.settle(answered(503, Some("ignored"), None, b""));
    assert!(matches!(outcome, Outcome::Failed(Error::Http(HttpFailure::Status(503)))));
    assert_eq!(state.etag, Some(String::from("old")));
}

#[test]
fn broken_exchange_is_an_http_error_with_its_text() {
    let mut state = FetchState::new();
    let outcome = state.settle(broken("connection reset"));
    match outcome {
        Outcome::Failed(Error::Http(HttpFailure::Transport(detail))) => {
            assert_eq!(detail, "connection reset")
        }
        other => panic!("unexpected outcome: {:?}", other),
    }
    assert_eq!(state.etag, None);
    assert_eq!(state.last_modified, None);
}

#[test]
fn new_cycle_waits_for_its_first_tick() {
    let cycle = FetchCycle::new(&feed(None));
    assert_eq!(cycle.phase, Phase::Waiting);
    assert_eq!(cycle.ticks_left, None);
    assert_eq!(cycle.validators.etag, None);
    assert_eq!(cycle.validators.last_modified, None);
    assert!(!cycle.is_finished());
}

#[test]
fn cycle_without_ticks_is_finished_at_once() {
    let mut cycle = FetchCycle::new(&feed(Some(0)));
    assert!(cycle.is_finished());
    assert!(matches!(cycle.step(Event::Tick), Action::Halt));
    assert!(matches!(cycle.step(Event::DelayElapsed), Action::Halt));
    assert!(cycle.is_finished());
}

#[test]
fn unchanged_ticks_emit_nothing() {
    let mut cycle = validated_cycle();
    for _ in 0..25 {
        match cycle.step(Event::Tick) {
            Action::Fetch(headers) => {
                assert_eq!(headers.if_none_match, Some(String::from("\"v1\"")));
                assert_eq!(headers.if_modified_since, Some(String::from("Mon")));
            }
            other => panic!("unexpected action: {:?}", other),
        }
        let action = cycle.step(Event::Reply(answered(304, None, None, b"")));
        assert!(matches!(action, Action::Idle));
        assert_eq!(cycle.phase, Phase::Waiting);
        assert_eq!(cycle.validators.etag, Some(String::from("\"v1\"")));
        assert_eq!(cycle.validators.last_modified, Some(String::from("Mon")));
    }
}

#[test]
fn two_failures_then_success_surface_no_error() {
    let mut cycle = validated_cycle();
    assert!(matches!(cycle.step(Event::Tick), Action::Fetch(_)));
    assert_eq!(cycle.phase, Phase::Fetching(1));

    assert!(matches!(cycle.step(Event::Reply(broken("timeout"))), Action::Pause(4)));
    assert_eq!(cycle.phase, Phase::Pausing(1));
    assert!(matches!(cycle.step(Event::DelayElapsed), Action::Fetch(_)));
    assert_eq!(cycle.phase, Phase::Fetching(2));

    assert!(matches!(cycle.step(Event::Reply(answered(502, None, None, b""))), Action::Pause(4)));
    assert_eq!(cycle.phase, Phase::Pausing(2));
    assert!(matches!(cycle.step(Event::DelayElapsed), Action::Fetch(_)));
    assert_eq!(cycle.phase, Phase::Fetching(3));

    let last = cycle.step(Event::Reply(answered(200, Some("\"v2\""), None, b"new batch")));
    assert!(matches!(last, Action::Deliver(bytes) if bytes == b"new batch".to_vec()));
    assert_eq!(cycle.phase, Phase::Waiting);
    assert_eq!(cycle.validators.etag, Some(String::from("\"v2\"")));
    assert_eq!(cycle.validators.last_modified, None);
}

#[test]
fn three_failures_surface_exactly_one_error() {
    let mut cycle = validated_cycle();
    let mut surfaced = 0;
    let mut delivered = 0;
    let events = vec![
        Event::Tick,
        Event::Reply(broken("first")),
        Event::DelayElapsed,
        Event::Reply(answered(500, Some("other"), Some("other"), b"")),
        Event::DelayElapsed,
        Event::Reply(answered(404, None, None, b"")),
    ];
    let mut last = None;
    for event in events {
        let action = cycle.step(event);
        match action {
            Action::Surface(error) => {
                surfaced += 1;
                last = Some(error);
            }
            Action::Deliver(_) => delivered += 1,
            _ => {}
        }
    }
    assert_eq!(surfaced, 1);
    assert_eq!(delivered, 0);
    assert!(matches!(last, Some(Error::Http(HttpFailure::Status(404)))));
    assert_eq!(cycle.phase, Phase::Waiting);
    assert_eq!(cycle.validators.etag, Some(String::from("\"v1\"")));
    assert_eq!(cycle.validators.last_modified, Some(String::from("Mon")));

    assert!(matches!(cycle.step(Event::Tick), Action::Fetch(_)));
    let next = cycle.step(Event::Reply(answered(304, None, None, b"")));
    assert!(matches!(next, Action::Idle));
    assert_eq!(cycle.phase, Phase::Waiting);
}

#[test]
fn events_that_are_not_awaited_change_nothing() {
    let mut cycle = FetchCycle::new(&feed(Some(5)));
    assert!(matches!(cycle.step(Event::DelayElapsed), Action::Idle));
    assert!(matches!(cycle.step(Event::Reply(broken("stray"))), Action::Idle));
    assert_eq!(cycle.phase, Phase::Waiting);
    assert_eq!(cycle.ticks_left, Some(5));

    assert!(matches!(cycle.step(Event::Tick), Action::Fetch(_)));
    assert_eq!(cycle.ticks_left, Some(4));
    assert!(matches!(cycle.step(Event::Tick), Action::Idle));
    assert!(matches!(cycle.step(Event::DelayElapsed), Action::Idle));
    assert_eq!(cycle.phase, Phase::Fetching(1));
    assert_eq!(cycle.ticks_left, Some(4));

    assert!(matches!(cycle.step(Event::Reply(broken("x"))), Action::Pause(4)));
    assert!(matches!(cycle.step(Event::Tick), Action::Idle));
    assert!(matches!(cycle.step(Event::Reply(broken("y"))), Action::Idle));
    assert_eq!(cycle.phase, Phase::Pausing(1));
}

#[test]
fn bounded_cycle_finishes_after_its_last_tick() {
    let mut cycle = FetchCycle::new(&feed(Some(2)));
    assert!(matches!(cycle.step(Event::Tick), Action::Fetch(_)));
    assert!(matches!(
        cycle.step(Event::Reply(answered(200, Some("a"), None, b"one"))),
        Action::Deliver(_)
    ));
    assert_eq!(cycle.phase, Phase::Waiting);
    assert!(!cycle.is_finished());

    assert!(matches!(cycle.step(Event::Tick), Action::Fetch(_)));
    assert_eq!(cycle.ticks_left, Some(0));
    assert!(matches!(cycle.step(Event::Reply(answered(304, None, None, b""))), Action::Idle));
    assert!(cycle.is_finished());
    assert!(matches!(cycle.step(Event::Tick), Action::Halt));
    assert_eq!(cycle.validators.etag, Some(String::from("a")));
}

#[test]
fn not_modified_without_a_validator_is_a_failure() {
    let mut cycle = FetchCycle::new(&feed(None));
    assert!(matches!(cycle.step(Event::Tick), Action::Fetch(_)));
    let action = cycle.step(Event::Reply(answered(304, None, None, b"")));
    assert!(matches!(action, Action::Pause(4)));
}

#[test]
fn cycle_is_well_formed_through_a_tick() {
    let mut cycle = FetchCycle::new(&feed(Some(1)));
    assert!(cycle.is_wf());
    for event in vec![
        Event::Tick,
        Event::Reply(broken("a")),
        Event::DelayElapsed,
        Event::Reply(broken("b")),
        Event::DelayElapsed,
        Event::Reply(broken("c")),
        Event::Tick,
    ] {
        cycle.step(event);
        assert!(cycle.is_wf());
    }
    assert!(cycle.is_finished());
}

#[test]
fn cycle_with_impossible_attempt_is_not_well_formed() {
    let mut cycle = FetchCycle::new(&feed(None));
    cycle.phase = Phase::Fetching(0);
    assert!(!cycle.is_wf());
    cycle.phase = Phase::Fetching(4);
    assert!(!cycle.is_wf());
    cycle.phase = Phase::Fetching(3);
    assert!(cycle.is_wf());
    cycle.phase = Phase::Pausing(3);
    assert!(!cycle.is_wf());
    cycle.phase = Phase::Pausing(2);
    assert!(cycle.is_wf());
    cycle.phase = Phase::Waiting;
    cycle.ticks_left = Some(0);
    assert!(!cycle.is_wf());
    cycle.phase = Phase::Finished;
    assert!(cycle.is_wf());
}

#[test]
fn default_state_has_no_validator() {
    let state = FetchState::default();
    assert_eq!(state.etag, None);
    assert_eq!(state.last_modified, None);
    assert_eq!(state, FetchState::new());
}

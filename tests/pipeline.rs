use poke_agent::check::{check_targets, one_shot_request};
use poke_agent::dispatch::{Action, Dispatcher, Event};
use poke_agent::flush::flush_tick;
use poke_agent::labels::{merge_labels, Labels};
use poke_agent::model::{
    AckToken, BufferedOutcome, CheckError, CheckResult, CheckSpec, Checks, MetricPoint,
    Timestamp, WorkRequest,
};
use poke_agent::translate::translate;
use poke_agent::unify::{Poll, Source, SourceState, Unifier};

fn labels_of(pairs: &[(&str, &str)]) -> Labels {
    let mut l = Labels::new();
    for (k, v) in pairs {
        l.insert(k.to_string(), v.to_string());
    }
    l
}

fn label(l: &Labels, k: &str) -> Option<String> {
    l.get(&k.to_string()).cloned()
}

fn example_request() -> WorkRequest {
    WorkRequest {
        labels: labels_of(&[("domain", "example.com")]),
        url: "example.com".to_string(),
        checks: Checks {
            latency: CheckSpec { class_name: "http-latency".to_string(), labels: None },
            status: CheckSpec { class_name: "http-status".to_string(), labels: None },
        },
    }
}

fn ok(url: &str, status: u16, ms: i64) -> Result<CheckResult, CheckError> {
    Ok(CheckResult { url: url.to_string(), http_status: status, latency_ms: ms, content_length: 0 })
}

fn ts() -> Timestamp {
    Timestamp { secs: 1_500_000_000, nanos: 7 }
}

fn outcome(tag: u64, results: Vec<Result<CheckResult, CheckError>>) -> BufferedOutcome {
    BufferedOutcome::new(example_request(), AckToken { delivery_tag: tag }, results, ts())
}

fn summary(points: &[MetricPoint]) -> Vec<(String, i64, Option<String>, usize)> {
    points
        .iter()
        .map(|p| (p.class_name.clone(), p.value, label(&p.labels, "domain"), p.labels.len()))
        .collect()
}

#[test]
fn both_schemes_succeed_give_four_points() {
    let o = outcome(1, vec![ok("http://example.com", 200, 31), ok("https://example.com", 200, 57)]);
    let points = translate(&o);
    let d = Some("example.com".to_string());
    assert_eq!(
        summary(&points),
        vec![
            ("http-status".to_string(), 200, d.clone(), 1),
            ("http-latency".to_string(), 31, d.clone(), 1),
            ("http-status".to_string(), 200, d.clone(), 1),
            ("http-latency".to_string(), 57, d.clone(), 1),
        ]
    );
    assert!(points.iter().all(|p| p.timestamp == ts()));
}

#[test]
fn failed_https_contributes_nothing() {
    let err = Err(CheckError { cause: "connection refused".to_string() });
    let o = outcome(1, vec![ok("http://example.com", 301, 12), err]);
    let points = translate(&o);
    let d = Some("example.com".to_string());
    assert_eq!(
        summary(&points),
        vec![("http-status".to_string(), 301, d.clone(), 1), ("http-latency".to_string(), 12, d, 1)]
    );
}

#[test]
fn all_checks_failed_give_no_points() {
    let err = || Err(CheckError { cause: "timeout".to_string() });
    let o = outcome(1, vec![err(), err()]);
    assert!(translate(&o).is_empty());
}

#[test]
fn translating_twice_gives_the_same_points() {
    let mut req = example_request();
    req.checks.status.labels = Some(labels_of(&[("scheme", "any"), ("zone", "eu")]));
    let o = BufferedOutcome::new(req, AckToken { delivery_tag: 3 }, vec![ok("u", 200, 9)], ts());
    let a = translate(&o);
    let b = translate(&o);
    assert_eq!(summary(&a), summary(&b));
    for (p, q) in a.iter().zip(b.iter()) {
        for k in ["domain", "scheme", "zone"] {
            assert_eq!(label(&p.labels, k), label(&q.labels, k));
        }
    }
}

#[test]
fn extra_label_overrides_base_label() {
    let base = labels_of(&[("domain", "example.com"), ("env", "prod")]);
    let extra = Some(labels_of(&[("env", "staging"), ("probe", "a")]));
    let merged = merge_labels(&base, &extra);
    assert_eq!(merged.len(), 3);
    assert_eq!(label(&merged, "env"), Some("staging".to_string()));
    assert_eq!(label(&merged, "domain"), Some("example.com".to_string()));
    assert_eq!(label(&merged, "probe"), Some("a".to_string()));
    let plain = merge_labels(&base, &None);
    assert_eq!(plain.len(), 2);
    assert_eq!(label(&plain, "env"), Some("prod".to_string()));
}

#[test]
fn point_labels_use_the_check_extra_labels() {
    let mut req = example_request();
    req.checks.latency.labels = Some(labels_of(&[("domain", "override.org")]));
    let o = BufferedOutcome::new(req, AckToken { delivery_tag: 3 }, vec![ok("u", 200, 9)], ts());
    let points = translate(&o);
    assert_eq!(label(&points[0].labels, "domain"), Some("example.com".to_string()));
    assert_eq!(label(&points[1].labels, "domain"), Some("override.org".to_string()));
}

#[test]
fn labels_insert_replaces_value() {
    let mut l = labels_of(&[("a", "1"), ("b", "2")]);
    l.insert("a".to_string(), "3".to_string());
    assert_eq!(l.len(), 2);
    assert_eq!(label(&l, "a"), Some("3".to_string()));
    assert_eq!(label(&l, "c"), None);
}

#[test]
fn empty_flush_tick_does_nothing() {
    let items = flush_tick(&Vec::new());
    assert!(items.is_empty());
}

#[test]
fn flush_tick_acks_each_outcome_in_order() {
    let drained = vec![outcome(5, vec![ok("u", 200, 1)]), outcome(2, vec![]), outcome(9, vec![])];
    let items = flush_tick(&drained);
    let acks: Vec<u64> = items.iter().map(|i| i.ack.delivery_tag).collect();
    assert_eq!(acks, vec![5, 2, 9]);
    assert_eq!(items[0].points.len(), 2);
    assert!(items[1].points.is_empty());
}

#[test]
fn malformed_payload_is_never_acked() {
    let mut d = Dispatcher::new();
    let t = AckToken { delivery_tag: 4 };
    let a = d.step(Event::Inbound { request: None, token: t });
    assert!(matches!(a, Action::Discard { token } if token == t));
    assert_eq!(d.len(), 0);
    let b = d.step(Event::AckRequest { token: t });
    assert!(matches!(b, Action::Ignore { .. }));
}

#[test]
fn decoded_message_starts_one_check() {
    let mut d = Dispatcher::new();
    let t = AckToken { delivery_tag: 8 };
    let a = d.step(Event::Inbound { request: Some(example_request()), token: t });
    match a {
        Action::StartCheck { request, token } => {
            assert_eq!(token, t);
            assert_eq!(request.url, "example.com");
        }
        _ => panic!("expected a check to start"),
    }
    assert!(d.is_outstanding(8));
    assert!(matches!(d.step(Event::AckRequest { token: t }), Action::Ack { token } if token == t));
    assert!(matches!(d.step(Event::AckRequest { token: t }), Action::Ignore { .. }));
    assert!(!d.is_outstanding(8));
}

#[test]
fn fifty_messages_are_each_acked_once() {
    let mut d = Dispatcher::new();
    let mut started = Vec::new();
    for tag in 1..=50u64 {
        let ev = Event::Inbound { request: Some(example_request()), token: AckToken { delivery_tag: tag } };
        match d.step(ev) {
            Action::StartCheck { request, token } => started.push((request, token)),
            _ => panic!("expected a check to start"),
        }
    }
    assert_eq!(d.len(), 50);
    // checks complete out of order and are drained over two ticks
    started.reverse();
    let mut outcomes: Vec<BufferedOutcome> = started
        .into_iter()
        .map(|(req, tok)| BufferedOutcome::new(req, tok, vec![ok("u", 200, 5)], ts()))
        .collect();
    let second = outcomes.split_off(20);
    let mut acked = Vec::new();
    for batch in [outcomes, second] {
        for item in flush_tick(&batch) {
            assert_eq!(item.points.len(), 2);
            match d.step(Event::AckRequest { token: item.ack }) {
                Action::Ack { token } => acked.push(token.delivery_tag),
                _ => panic!("token acknowledged twice"),
            }
            assert!(matches!(d.step(Event::AckRequest { token: item.ack }), Action::Ignore { .. }));
        }
    }
    acked.sort();
    assert_eq!(acked, (1..=50u64).collect::<Vec<u64>>());
    assert_eq!(d.len(), 0);
}

#[test]
fn unifier_alternates_when_both_ready() {
    let mut u = Unifier::new();
    let r = SourceState::Ready;
    assert_eq!(u.poll_next(r, r), Poll::Next(Source::Inbound));
    assert_eq!(u.poll_next(r, r), Poll::Next(Source::Ack));
    assert_eq!(u.poll_next(r, r), Poll::Next(Source::Inbound));
}

#[test]
fn unifier_serves_whichever_is_ready() {
    let mut u = Unifier::new();
    assert_eq!(u.poll_next(SourceState::Empty, SourceState::Ready), Poll::Next(Source::Ack));
    assert_eq!(u.poll_next(SourceState::Ready, SourceState::Empty), Poll::Next(Source::Inbound));
    assert_eq!(u.poll_next(SourceState::Empty, SourceState::Empty), Poll::Wait);
    assert_eq!(u.poll_next(SourceState::Empty, SourceState::Closed), Poll::Wait);
}

#[test]
fn unifier_ends_only_when_queue_closes() {
    let mut u = Unifier::new();
    assert_eq!(u.poll_next(SourceState::Ready, SourceState::Closed), Poll::Next(Source::Inbound));
    assert_eq!(u.poll_next(SourceState::Closed, SourceState::Ready), Poll::End);
}

#[test]
fn check_targets_prefix_each_scheme() {
    assert_eq!(
        check_targets("example.com"),
        vec!["http://example.com".to_string(), "https://example.com".to_string()]
    );
}

#[test]
fn one_shot_request_labels_the_domain() {
    let r = one_shot_request("example.com");
    assert_eq!(r.url, "example.com");
    assert_eq!(r.checks.status.class_name, "http-status");
    assert_eq!(r.checks.latency.class_name, "http-latency");
    assert_eq!(r.labels.len(), 1);
    assert_eq!(label(&r.labels, "domain"), Some("example.com".to_string()));
    assert!(r.checks.status.labels.is_none());
}

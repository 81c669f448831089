use kvline::codec::{Command, Outcome};
use kvline::service::{Effect, Service};
use kvline::store::Store;

fn s(x: &str) -> String {
    String::from(x)
}

fn expect_value(outcome: Outcome) -> String {
    match outcome {
        Outcome::Value(v) => v,
        _ => panic!("expected a value outcome"),
    }
}

#[test]
fn round_trip_put_then_get() {
    let mut svc = Service::new();
    let (outcome, _) = svc.step(Command::Put(s("color"), s("blue")));
    assert!(matches!(outcome, Outcome::Done));
    let (outcome, _) = svc.step(Command::Get(s("color")));
    assert_eq!(expect_value(outcome), "blue");
}

#[test]
fn round_trip_survives_other_keys() {
    let mut svc = Service::new();
    svc.step(Command::Put(s("a"), s("1")));
    svc.step(Command::Put(s("b"), s("2")));
    svc.step(Command::Put(s("c"), s("3")));
    let (outcome, _) = svc.step(Command::Get(s("b")));
    assert_eq!(expect_value(outcome), "2");
}

#[test]
fn get_of_key_never_put_is_not_found() {
    let mut svc = Service::new();
    svc.step(Command::Put(s("present"), s("1")));
    let (outcome, _) = svc.step(Command::Get(s("absent")));
    match outcome {
        Outcome::NotFound(k) => assert_eq!(k, "absent"),
        _ => panic!("expected not-found"),
    }
}

#[test]
fn overwrite_last_put_wins() {
    let mut svc = Service::new();
    svc.step(Command::Put(s("k"), s("v1")));
    svc.step(Command::Put(s("k"), s("v2")));
    let (outcome, _) = svc.step(Command::Get(s("k")));
    assert_eq!(expect_value(outcome), "v2");
}

#[test]
fn interleaved_puts_on_disjoint_keys_never_mix() {
    // The queue serializes the producers' commands into one order; however
    // they interleave, each key ends at the last value put on it, whole.
    let mut svc = Service::new();
    for round in 0..10 {
        for producer in 0..4 {
            let key = format!("key-{}", producer);
            let value = format!("value-{}-{}", producer, round);
            svc.step(Command::Put(key, value));
        }
    }
    for producer in 0..4 {
        let (outcome, _) = svc.step(Command::Get(format!("key-{}", producer)));
        assert_eq!(expect_value(outcome), format!("value-{}-9", producer));
    }
}

#[test]
fn persist_only_when_dirty() {
    let mut svc = Service::new();
    let (outcome, effect) = svc.step(Command::Persist);
    assert!(matches!(outcome, Outcome::Done));
    assert!(matches!(effect, Effect::Proceed));

    svc.step(Command::Put(s("k"), s("v")));
    let (outcome, effect) = svc.step(Command::Persist);
    assert!(matches!(outcome, Outcome::Done));
    match effect {
        Effect::Persist(snap) => {
            assert_eq!(snap.len(), 1);
            assert_eq!(snap[0].0, "k");
            assert_eq!(snap[0].1, "v");
        }
        _ => panic!("expected a persistence pass"),
    }

    let (_, effect) = svc.step(Command::Persist);
    assert!(matches!(effect, Effect::Proceed));
}

#[test]
fn reads_leave_the_store_clean() {
    let mut svc = Service::new();
    svc.step(Command::Put(s("k"), s("v")));
    svc.step(Command::Persist);
    svc.step(Command::Get(s("k")));
    let (_, effect) = svc.step(Command::Persist);
    assert!(matches!(effect, Effect::Proceed));
}

#[test]
fn finish_persists_remaining_changes() {
    let mut svc = Service::new();
    svc.step(Command::Put(s("k"), s("v")));
    match svc.finish() {
        Some(snap) => {
            assert_eq!(snap.len(), 1);
            assert_eq!(snap[0].0, "k");
            assert_eq!(snap[0].1, "v");
        }
        None => panic!("expected a final snapshot"),
    }
    assert!(svc.finish().is_none());
}

#[test]
fn close_after_queued_puts_sees_them_applied() {
    let mut svc = Service::new();
    for i in 0..5 {
        svc.step(Command::Put(format!("k{}", i), format!("v{}", i)));
    }
    assert!(svc.accepts());
    let (outcome, effect) = svc.step(Command::Close);
    assert!(matches!(outcome, Outcome::Done));
    assert!(matches!(effect, Effect::CloseIntake));
    assert!(!svc.accepts());
    // Every put queued ahead of the close is applied.
    for i in 0..5 {
        let (outcome, _) = svc.step(Command::Get(format!("k{}", i)));
        assert_eq!(expect_value(outcome), format!("v{}", i));
    }
}

#[test]
fn close_is_final() {
    let mut svc = Service::new();
    svc.step(Command::Close);
    // Commands already queued are still drained, but the intake stays shut.
    svc.step(Command::Put(s("k"), s("v")));
    assert!(!svc.accepts());
}

#[test]
fn store_set_and_get() {
    let mut store = Store::new();
    assert!(store.get(&s("k")).is_none());
    store.set(s("k"), s("v1"));
    assert_eq!(store.get(&s("k")).unwrap(), "v1");
    store.set(s("k"), s("v2"));
    assert_eq!(store.get(&s("k")).unwrap(), "v2");
    assert!(store.get(&s("other")).is_none());
}

#[test]
fn store_snapshot_reflects_entries() {
    let mut store = Store::new();
    store.set(s("a"), s("1"));
    store.set(s("b"), s("2"));
    store.set(s("a"), s("3"));
    let mut snap = store.snapshot();
    snap.sort();
    assert_eq!(snap, vec![(s("a"), s("3")), (s("b"), s("2"))]);
}

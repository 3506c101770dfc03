use disgustang::cache::{icon_path, IconCache};
use disgustang::engine::{Engine, EngineError, Outcome};
use disgustang::notification::{CreateEvent, Event, IconInput, Notification, RawImage};
use disgustang::snapshot::{record_json, snapshot_json};

const DIR: &str = "/cache";

fn engine(capacity: usize) -> Engine {
    Engine::new(capacity, DIR.to_string())
}

fn create(serial: u32, summary: &str, icon: IconInput) -> Event {
    Event::Create(CreateEvent {
        serial: Some(serial),
        appname: Some("app".to_string()),
        summary: Some(summary.to_string()),
        body: Some("body".to_string()),
        icon,
        urgency: Some(2),
    })
}

fn themed(path: &str) -> IconInput {
    IconInput::Resolved(path.to_string())
}

fn raw(data: &[u8]) -> IconInput {
    IconInput::Raw(RawImage {
        width: 1,
        height: 1,
        rowstride: 4,
        has_alpha: true,
        bits_per_sample: 8,
        channels: 4,
        data: data.to_vec(),
    })
}

/// Creates, answers and closes one notification; returns the close outcome.
fn observe(e: &mut Engine, serial: u32, id: u32, summary: &str, icon: IconInput) -> Outcome {
    e.handle(create(serial, summary, icon));
    e.handle(Event::Return { reply_serial: serial, id });
    e.handle(Event::Closed { id })
}

fn summaries(v: &[Notification]) -> Vec<String> {
    v.iter().map(|n| n.summary.clone()).collect()
}

#[test]
fn correlation_yields_one_record() {
    let mut e = engine(5);
    let o = e.handle(create(7, "hello", themed("/icons/a.png")));
    assert!(o.snapshot.is_none());
    assert!(o.error.is_none());
    let o = e.handle(Event::Return { reply_serial: 7, id: 42 });
    assert!(o.snapshot.is_none());
    assert_eq!(e.pending()[0].id, 42);
    let o = e.handle(Event::Closed { id: 42 });
    let snap = o.snapshot.unwrap();
    assert_eq!(
        snap,
        vec![Notification {
            serial: 7,
            appname: "app".to_string(),
            summary: "hello".to_string(),
            body: "body".to_string(),
            icon: "/icons/a.png".to_string(),
            urgency: 2,
            id: 42,
        }]
    );
    assert!(e.pending().is_empty());
}

#[test]
fn record_without_reply_never_closes() {
    let mut e = engine(5);
    e.handle(create(7, "hello", themed("")));
    assert!(e.handle(Event::Closed { id: 0 }).snapshot.is_none());
    assert!(e.handle(Event::Closed { id: 1 }).snapshot.is_none());
    assert_eq!(e.pending().len(), 1);
    assert!(e.snapshot().is_empty());
}

#[test]
fn unmatched_events_are_ignored() {
    let mut e = engine(5);
    observe(&mut e, 1, 10, "a", themed(""));
    e.handle(create(2, "b", themed("")));
    let before_pending = e.pending();
    let before_history = e.snapshot();
    let o = e.handle(Event::Return { reply_serial: 99, id: 5 });
    assert!(o.snapshot.is_none() && o.error.is_none());
    let o = e.handle(Event::Closed { id: 77 });
    assert!(o.snapshot.is_none() && o.error.is_none());
    let o = e.handle(Event::Other);
    assert!(o.snapshot.is_none() && o.error.is_none());
    assert_eq!(e.pending(), before_pending);
    assert_eq!(e.snapshot(), before_history);
}

#[test]
fn removing_unknown_id_is_an_error() {
    let mut e = engine(5);
    observe(&mut e, 1, 10, "a", themed(""));
    let o = e.handle(Event::RemoveFromHistory { id: 11 });
    assert_eq!(o.error, Some(EngineError::UnknownHistoryId(11)));
    assert!(o.snapshot.is_none());
    assert!(o.delete_files.is_empty());
    assert_eq!(e.snapshot().len(), 1);
}

#[test]
fn history_is_bounded_and_fifo() {
    let mut e = engine(2);
    let a = observe(&mut e, 1, 10, "A", themed(""));
    assert_eq!(summaries(&a.snapshot.unwrap()), vec!["A"]);
    let b = observe(&mut e, 2, 20, "B", themed(""));
    assert_eq!(summaries(&b.snapshot.unwrap()), vec!["B", "A"]);
    let c = observe(&mut e, 3, 30, "C", themed(""));
    assert_eq!(summaries(&c.snapshot.unwrap()), vec!["C", "B"]);
    let d = observe(&mut e, 4, 40, "D", themed(""));
    assert_eq!(summaries(&d.snapshot.unwrap()), vec!["D", "C"]);
}

#[test]
fn closes_are_emitted_newest_first() {
    let mut e = engine(3);
    observe(&mut e, 1, 10, "A", themed(""));
    observe(&mut e, 2, 20, "B", themed(""));
    let o = observe(&mut e, 3, 30, "C", themed(""));
    assert_eq!(summaries(&o.snapshot.unwrap()), vec!["C", "B", "A"]);
}

#[test]
fn absent_fields_take_defaults() {
    let mut e = engine(3);
    e.handle(Event::Create(CreateEvent {
        serial: Some(3),
        appname: None,
        summary: None,
        body: None,
        icon: themed(""),
        urgency: None,
    }));
    let p = e.pending();
    assert_eq!(p[0].appname, "");
    assert_eq!(p[0].summary, "");
    assert_eq!(p[0].body, "");
    assert_eq!(p[0].urgency, 1);
    assert_eq!(p[0].id, 0);
}

#[test]
fn create_without_serial_is_dropped() {
    let mut e = engine(3);
    let o = e.handle(Event::Create(CreateEvent {
        serial: None,
        appname: None,
        summary: None,
        body: None,
        icon: raw(b"px"),
        urgency: None,
    }));
    assert_eq!(o.error, Some(EngineError::MissingSerial));
    assert!(o.write_icon.is_none());
    assert!(e.pending().is_empty());
}

#[test]
fn icon_path_is_named_by_digest() {
    assert_eq!(
        icon_path(&"/c".to_string(), &vec![]),
        "/c/da39a3ee5e6b4b0d3255bfef95601890afd80709.png"
    );
    assert_eq!(
        icon_path(&"/c".to_string(), &b"abc".to_vec()),
        "/c/a9993e364706816aba3e25717850c26c9cd0d89d.png"
    );
}

#[test]
fn same_raw_icon_is_cached_once() {
    let mut e = engine(5);
    let path = icon_path(&DIR.to_string(), &b"pixels".to_vec());
    let o1 = e.handle(create(1, "a", raw(b"pixels")));
    let w = o1.write_icon.unwrap();
    assert_eq!(w.path, path);
    assert_eq!(w.serial, 1);
    assert_eq!(w.image.data, b"pixels".to_vec());
    let o2 = e.handle(create(2, "b", raw(b"pixels")));
    assert!(o2.write_icon.is_none());
    assert_eq!(e.icon_references(&path), 2);
    let p = e.pending();
    assert_eq!(p[0].icon, path);
    assert_eq!(p[1].icon, path);

    e.handle(Event::Return { reply_serial: 1, id: 10 });
    e.handle(Event::Return { reply_serial: 2, id: 20 });
    e.handle(Event::Closed { id: 10 });
    e.handle(Event::Closed { id: 20 });

    let o = e.handle(Event::RemoveFromHistory { id: 10 });
    assert!(o.delete_files.is_empty());
    assert_eq!(e.icon_references(&path), 1);
    assert_eq!(summaries(&o.snapshot.unwrap()), vec!["b"]);

    let o = e.handle(Event::RemoveFromHistory { id: 20 });
    assert_eq!(o.delete_files, vec![path.clone()]);
    assert_eq!(e.icon_references(&path), 0);
    assert!(o.snapshot.unwrap().is_empty());
}

#[test]
fn eviction_keeps_cache_reference() {
    let mut e = engine(1);
    let path = icon_path(&DIR.to_string(), &b"x".to_vec());
    observe(&mut e, 1, 10, "a", raw(b"x"));
    let o = observe(&mut e, 2, 20, "b", themed(""));
    assert_eq!(summaries(&o.snapshot.unwrap()), vec!["b"]);
    assert!(o.delete_files.is_empty());
    assert_eq!(e.icon_references(&path), 1);
}

#[test]
fn clear_empties_everything() {
    let mut e = engine(5);
    let p1 = icon_path(&DIR.to_string(), &b"one".to_vec());
    let p2 = icon_path(&DIR.to_string(), &b"two".to_vec());
    observe(&mut e, 1, 10, "a", raw(b"one"));
    e.handle(create(2, "b", raw(b"two")));
    let o = e.handle(Event::ClearHistory);
    assert!(o.snapshot.unwrap().is_empty());
    let mut deleted = o.delete_files.clone();
    deleted.sort();
    let mut expected = vec![p1.clone(), p2.clone()];
    expected.sort();
    assert_eq!(deleted, expected);
    assert!(e.pending().is_empty());
    assert!(e.snapshot().is_empty());
    assert_eq!(e.icon_references(&p1), 0);
    assert_eq!(e.icon_references(&p2), 0);
}

#[test]
fn failed_icon_write_leaves_record_without_icon() {
    let mut e = engine(5);
    let o = e.handle(create(4, "a", raw(b"bad")));
    let w = o.write_icon.unwrap();
    let o = e.handle(Event::IconWriteFailed { serial: 4, path: w.path.clone() });
    assert_eq!(o.delete_files, vec![w.path.clone()]);
    assert_eq!(e.pending()[0].icon, "");
    assert_eq!(e.pending()[0].summary, "a");
    assert_eq!(e.icon_references(&w.path), 0);
}

#[test]
fn cache_counts_and_releases() {
    let mut c = IconCache::new();
    let p = "/c/x.png".to_string();
    assert!(c.store(p.clone()));
    assert!(!c.store(p.clone()));
    assert_eq!(c.count(&p), 2);
    assert!(!c.release(&p));
    assert_eq!(c.count(&p), 1);
    assert!(c.release(&p));
    assert_eq!(c.count(&p), 0);
    assert!(!c.release(&p));
    c.store("/c/y.png".to_string());
    assert_eq!(c.clear(), vec!["/c/y.png".to_string()]);
    assert_eq!(c.count(&"/c/y.png".to_string()), 0);
}

#[test]
fn snapshot_renders_json() {
    assert_eq!(snapshot_json(&vec![]), Some("[]".to_string()));
    let n = Notification {
        serial: 9,
        appname: "a\"b".to_string(),
        summary: "line\nnext".to_string(),
        body: String::new(),
        icon: "/i.png".to_string(),
        urgency: 2,
        id: 1234,
    };
    let one = "{\"appname\":\"a\\\"b\",\"summary\":\"line\\nnext\",\"body\":\"\",\"icon\":\"/i.png\",\"urgency\":2,\"id\":1234}";
    assert_eq!(record_json(&n), Some(one.to_string()));
    let mut m = n.clone();
    m.id = 0;
    m.urgency = 0;
    let two = format!("[{},{}]", one, "{\"appname\":\"a\\\"b\",\"summary\":\"line\\nnext\",\"body\":\"\",\"icon\":\"/i.png\",\"urgency\":0,\"id\":0}");
    assert_eq!(snapshot_json(&vec![n, m]), Some(two));
}

use logdna_agent::client::{disposal, Client, ClientInput, Disposal, SendOutcome};
use logdna_agent::event::Event;
use logdna_agent::record::{IngestBody, LineRecord};
use logdna_agent::rules::{GlobRule, Rule, Rules, Status};
use logdna_agent::spool::{parse_spool_file_name, scan_decision, spool_file_name, unlink_after_read, ScanDecision};
use logdna_agent::tail::{TailStart, Tailer};
use logdna_agent::watch::{Origin, RawEvent, WatchAction, Watcher, IN_CREATE, IN_ISDIR};

fn lines_of(records: &[LineRecord]) -> Vec<(String, String)> {
    records.iter().map(|r| (r.file.clone(), r.line.clone())).collect()
}

fn pair(f: &str, l: &str) -> (String, String) {
    (f.to_string(), l.to_string())
}

#[test]
fn lib_it_works() {}

#[test]
fn append_new_file_ships_both_lines() {
    let mut w = Watcher::builder().add("/d").build();
    assert!(w.register(1, "/d".to_string(), true, Origin::Scan).is_none());
    let acts = w.process(&RawEvent { wd: 1, mask: IN_CREATE, name: Some("a.log".to_string()) });
    assert_eq!(acts.len(), 1);
    let path = match &acts[0] {
        WatchAction::WatchFile(p) => p.clone(),
        other => panic!("unexpected {:?}", other),
    };
    assert_eq!(path, "/d/a.log");
    let ev = w.register(2, path.clone(), false, Origin::Created).unwrap();
    assert!(matches!(&ev, Event::New(p) if p == "/d/a.log"));

    let mut t = Tailer::new();
    let content = b"hello\nworld\n";
    assert_eq!(t.on_event(&ev, Some(content.len() as u64)), TailStart::ReadFrom(0));
    let out = t.tail_finish(&path, 0, content);
    assert_eq!(lines_of(&out), vec![pair("/d/a.log", "hello"), pair("/d/a.log", "world")]);
    assert_eq!(t.offset(&path), Some(12));
}

#[test]
fn initiate_skips_old_content() {
    let mut w = Watcher::builder().add("/d").build();
    let ev = w.register(3, "/d/b.log".to_string(), false, Origin::Scan).unwrap();
    assert!(matches!(&ev, Event::Initiate(p) if p == "/d/b.log"));
    let path = "/d/b.log".to_string();
    let mut t = Tailer::new();
    assert_eq!(t.on_event(&ev, Some(4)), TailStart::Idle);
    assert_eq!(t.offset(&path), Some(4));
    let write = Event::Write(path.clone());
    assert_eq!(t.on_event(&write, Some(8)), TailStart::ReadFrom(4));
    let out = t.tail_finish(&path, 4, b"new\n");
    assert_eq!(lines_of(&out), vec![pair("/d/b.log", "new")]);
    assert_eq!(t.offset(&path), Some(8));
}

#[test]
fn partial_line_waits_for_newline() {
    let path = "/d/c.log".to_string();
    let mut t = Tailer::new();
    assert_eq!(t.on_event(&Event::New(path.clone()), Some(0)), TailStart::Idle);
    assert_eq!(t.on_event(&Event::Write(path.clone()), Some(2)), TailStart::ReadFrom(0));
    assert!(t.tail_finish(&path, 0, b"ab").is_empty());
    assert_eq!(t.offset(&path), Some(0));
    assert_eq!(t.on_event(&Event::Write(path.clone()), Some(4)), TailStart::ReadFrom(0));
    let out = t.tail_finish(&path, 0, b"abc\n");
    assert_eq!(lines_of(&out), vec![pair("/d/c.log", "abc")]);
    assert_eq!(t.offset(&path), Some(4));
}

#[test]
fn truncation_resets_offset() {
    let path = "/d/d.log".to_string();
    let mut t = Tailer::new();
    assert_eq!(t.on_event(&Event::New(path.clone()), Some(8)), TailStart::ReadFrom(0));
    let out = t.tail_finish(&path, 0, b"aaa\nbbb\n");
    assert_eq!(out.len(), 2);
    assert_eq!(t.offset(&path), Some(8));
    assert_eq!(t.on_event(&Event::Write(path.clone()), Some(0)), TailStart::Truncated { from: 8, to: 0 });
    assert_eq!(t.offset(&path), Some(0));
    assert_eq!(t.on_event(&Event::Write(path.clone()), Some(2)), TailStart::ReadFrom(0));
    let out = t.tail_finish(&path, 0, b"x\n");
    assert_eq!(lines_of(&out), vec![pair("/d/d.log", "x")]);
}

#[test]
fn retry_round_trip() {
    let mut c = Client::new();
    assert!(c.step(ClientInput::Line(LineRecord::new("/d/r.log".to_string(), "L1".to_string()))).is_none());
    assert!(c.step(ClientInput::Line(LineRecord::new("/d/r.log".to_string(), "L2".to_string()))).is_none());
    let body = c.step(ClientInput::Tick).unwrap();
    let failed = c.settle(body, SendOutcome::Transport).unwrap();

    let id = "67e55044-10b1-426f-9247-bb680e5fe0c8";
    let name = spool_file_name(1_600_000_000, id);
    assert_eq!(name, "1600000000_67e55044-10b1-426f-9247-bb680e5fe0c8.retry");
    assert_eq!(parse_spool_file_name(&name), Some(1_600_000_000));
    assert_eq!(scan_decision(&name, true, 1_600_000_001), ScanDecision::Wait);
    assert_eq!(scan_decision(&name, true, 1_600_000_015), ScanDecision::Reinject(1_600_000_000));
    assert!(unlink_after_read(true, true));

    let again = c.step(ClientInput::Retry(failed)).unwrap();
    let lines: Vec<String> = again.lines().iter().map(|l| l.line.clone()).collect();
    assert_eq!(lines, vec!["L1".to_string(), "L2".to_string()]);
    assert!(c.settle(again, SendOutcome::Status(200)).is_none());
}

#[test]
fn rules_pick_only_matching_files() {
    let w = Watcher::builder()
        .add("/d")
        .include_rule(Rule::Glob(GlobRule::new("*.log").unwrap()))
        .exclude(Rule::Glob(GlobRule::new("*.debug.log").unwrap()));
    let mut w = w.build();
    w.register(1, "/d".to_string(), true, Origin::Scan);
    let mut watched = Vec::new();
    for name in ["x.log", "y.debug.log", "z.txt"] {
        for a in w.process(&RawEvent { wd: 1, mask: IN_CREATE, name: Some(name.to_string()) }) {
            if let WatchAction::WatchFile(p) = a {
                watched.push(p);
            }
        }
    }
    assert_eq!(watched, vec!["/d/x.log".to_string()]);

    let mut rules = Rules::new();
    rules.add_inclusion(Rule::Glob(GlobRule::new("*.log").unwrap()));
    rules.add_exclusion(Rule::Glob(GlobRule::new("*.debug.log").unwrap()));
    assert_eq!(rules.passes("/d/x.log"), Status::Pass);
    assert_eq!(rules.passes("/d/y.debug.log"), Status::Excluded);
    assert_eq!(rules.passes("/d/z.txt"), Status::NotIncluded);
}

#[test]
fn new_directory_is_walked() {
    let mut w = Watcher::builder().build();
    w.register(5, "/d/".to_string(), true, Origin::Scan);
    let acts = w.process(&RawEvent { wd: 5, mask: IN_CREATE | IN_ISDIR, name: Some("sub".to_string()) });
    assert!(matches!(&acts[..], [WatchAction::WatchDir(p)] if p == "/d/sub"));
}

#[test]
fn disposal_by_outcome() {
    assert_eq!(disposal(SendOutcome::Status(204)), Disposal::Delivered);
    assert_eq!(disposal(SendOutcome::Status(500)), Disposal::Dropped);
    assert_eq!(disposal(SendOutcome::Status(199)), Disposal::Dropped);
    assert_eq!(disposal(SendOutcome::Transport), Disposal::Retry);
}

#[test]
fn body_needs_a_line() {
    assert!(IngestBody::new(Vec::new()).is_none());
    let b = IngestBody::new(vec![LineRecord::new("f".to_string(), "l".to_string())]).unwrap();
    assert_eq!(b.lines().len(), 1);
    assert_eq!(b.clone().into_lines().len(), 1);
}

use logdna_agent::client::{Client, ClientInput};
use logdna_agent::config::{Config, ConfigError, Encoding, Schema};
use logdna_agent::env::EnvList;
use logdna_agent::event::Event;
use logdna_agent::raw::{Config as RawConfig, Rules as RawRules};
use logdna_agent::record::LineRecord;
use logdna_agent::rules::{GlobRule, RegexRule, Rule, RuleError, Rules, Status};
use logdna_agent::spool::{parse_spool_file_name, scan_decision, to_decimal, unlink_after_read, ScanDecision};
use logdna_agent::tail::{read_lines, Tailer, TailStart};
use logdna_agent::watch::{
    coalesce_writes, watch_mask, Origin, RawEvent, WatchAction, Watcher, IN_DELETE_SELF, IN_MODIFY, IN_MOVE_SELF, IN_Q_OVERFLOW,
};

#[test]
fn test_raw_to_typed() {
    let raw = RawConfig::default();
    assert!(Config::try_from(raw).is_err());
    let mut raw = RawConfig::default();
    raw.http.ingestion_key = Some("emptyingestionkey".to_string());
    assert!(Config::try_from(raw).is_ok());
}

#[test]
fn typed_config_keeps_values() {
    let mut raw = RawConfig::default();
    raw.http.ingestion_key = Some("k".to_string());
    raw.http.compress = Some(false);
    let c = Config::try_from(raw).unwrap();
    assert_eq!(c.http.template.api_key, "k");
    assert_eq!(c.http.template.schema, Schema::Https);
    assert_eq!(c.http.template.encoding, Encoding::Json);
    assert_eq!(c.http.template.host, "logs.logdna.com");
    assert_eq!(c.http.timeout, 10_000);
    assert_eq!(c.http.body_size, 2 * 1024 * 1024);
    assert_eq!(c.log.dirs, vec!["/var/logs/".to_string()]);
    assert_eq!(c.log.rules.passes("/var/log/syslog"), Status::Pass);
    assert_eq!(c.log.rules.passes("/var/log/app.log"), Status::Pass);
    assert_eq!(c.log.rules.passes("/var/log/app.txt"), Status::NotIncluded);
    assert_eq!(c.log.rules.passes("/var/log/wtmp"), Status::Excluded);
}

#[test]
fn missing_field_is_named() {
    let mut raw = RawConfig::default();
    raw.http.ingestion_key = Some("k".to_string());
    raw.http.host = None;
    match Config::try_from(raw) {
        Err(ConfigError::MissingField(f)) => assert_eq!(f, "http.host"),
        other => panic!("unexpected {:?}", other.is_ok()),
    }
    let raw = RawConfig::default();
    match Config::try_from(raw) {
        Err(ConfigError::MissingField(f)) => assert_eq!(f, "http.ingestion_key"),
        other => panic!("unexpected {:?}", other.is_ok()),
    }
}

#[test]
fn malformed_patterns_are_refused() {
    let mut raw = RawConfig::default();
    raw.http.ingestion_key = Some("k".to_string());
    raw.log.as_mut().unwrap().exclusion = Some(RawRules { glob: vec![], regex: vec!["(".to_string()] });
    assert!(matches!(Config::try_from(raw), Err(ConfigError::Regex(_))));
    let mut raw = RawConfig::default();
    raw.http.ingestion_key = Some("k".to_string());
    raw.log.as_mut().unwrap().inclusion = Some(RawRules { glob: vec!["[a".to_string()], regex: vec![] });
    assert!(matches!(Config::try_from(raw), Err(ConfigError::Glob(_))));
    assert!(matches!(GlobRule::new("[a"), Err(RuleError::Glob(_))));
    assert!(matches!(RegexRule::new("("), Err(RuleError::Regex(_))));
}

#[test]
fn empty_rules_pass_everything() {
    let rules = Rules::new();
    assert_eq!(rules.passes("/anything"), Status::Pass);
    let mut rules = Rules::new();
    rules.add_inclusion(Rule::Regex(RegexRule::new(r"/.+/[^.]*$").unwrap()));
    assert_eq!(rules.passes("/var/log/syslog"), Status::Pass);
    assert_eq!(rules.passes("/var/log/syslog.1"), Status::NotIncluded);
}

#[test]
fn env_list_splits_on_commas() {
    assert_eq!(EnvList::from_str("a,b,c").0, vec!["a", "b", "c"]);
    assert_eq!(EnvList::from_str("a,b,").0, vec!["a", "b"]);
    assert_eq!(EnvList::from_str("a,,b").0, vec!["a", "", "b"]);
    assert_eq!(EnvList::from_str(",").0, vec![""]);
    assert!(EnvList::from_str("").0.is_empty());
    assert_eq!(EnvList::from(vec!["x".to_string()]).items().len(), 1);
}

#[test]
fn lines_split_and_decode() {
    let f = "/f".to_string();
    let (recs, used) = read_lines(&f, b"one\ntwo\nthr");
    assert_eq!(used, 8);
    assert_eq!(recs.iter().map(|r| r.line.as_str()).collect::<Vec<_>>(), vec!["one", "two"]);
    let (recs, used) = read_lines(&f, b"\n\n");
    assert_eq!(used, 2);
    assert_eq!(recs.iter().map(|r| r.line.as_str()).collect::<Vec<_>>(), vec!["", ""]);
    let (recs, used) = read_lines(&f, b"a\xffb\n");
    assert_eq!(used, 4);
    assert_eq!(recs[0].line, "a\u{FFFD}b");
    let (recs, used) = read_lines(&f, b"");
    assert!(recs.is_empty());
    assert_eq!(used, 0);
}

#[test]
fn unknown_and_deleted_files() {
    let mut t = Tailer::new();
    let p = "/d/gone.log".to_string();
    assert_eq!(t.on_event(&Event::Write(p.clone()), Some(10)), TailStart::Idle);
    assert_eq!(t.on_event(&Event::Initiate(p.clone()), None), TailStart::Idle);
    assert_eq!(t.offset(&p), Some(0));
    assert_eq!(t.on_event(&Event::Write(p.clone()), None), TailStart::Idle);
    assert_eq!(t.on_event(&Event::Delete(p.clone()), None), TailStart::Idle);
    assert_eq!(t.offset(&p), None);
    assert!(t.tail_finish(&p, 0, b"x\n").is_empty());
}

#[test]
fn stale_read_is_ignored() {
    let mut t = Tailer::new();
    let p = "/d/s.log".to_string();
    t.on_event(&Event::Initiate(p.clone()), Some(5));
    assert!(t.tail_finish(&p, 0, b"x\n").is_empty());
    assert_eq!(t.offset(&p), Some(5));
}

#[test]
fn client_flushes_on_size() {
    let mut c = Client::new();
    c.set_max_buffer_size(5);
    assert!(c.step(ClientInput::Line(LineRecord::new("f".into(), "ab".into()))).is_none());
    let b = c.step(ClientInput::Line(LineRecord::new("f".into(), "cde".into()))).unwrap();
    assert_eq!(b.lines().len(), 2);
    assert!(c.step(ClientInput::Tick).is_none());
    let mut c = Client::new();
    c.set_max_buffer_size(0);
    assert!(c.step(ClientInput::Line(LineRecord::new("f".into(), "".into()))).is_some());
    c.set_timeout(5);
    assert_eq!(c.timeout(), 5);
}

#[test]
fn spool_names_parse_strictly() {
    let id = "67e55044-10b1-426f-9247-bb680e5fe0c8";
    assert_eq!(to_decimal(0), "0");
    assert_eq!(to_decimal(18446744073709551615), "18446744073709551615");
    assert_eq!(parse_spool_file_name(&format!("42_{}.retry", id)), Some(42));
    assert_eq!(parse_spool_file_name(&format!("18446744073709551616_{}.retry", id)), None);
    assert_eq!(parse_spool_file_name(&format!("_{}.retry", id)), None);
    assert_eq!(parse_spool_file_name(&format!("4x_{}.retry", id)), None);
    assert_eq!(parse_spool_file_name(&format!("42_{}.json", id)), None);
    assert_eq!(parse_spool_file_name("42_not-a-uuid.retry"), None);
    assert_eq!(parse_spool_file_name(&format!("{}.retry", id)), None);
    let name = format!("100_{}.retry", id);
    assert_eq!(scan_decision(&name, false, 1000), ScanDecision::Skip);
    assert_eq!(scan_decision(&name, true, 114), ScanDecision::Wait);
    assert_eq!(scan_decision(&name, true, 50), ScanDecision::Wait);
    assert_eq!(scan_decision(&name, true, 115), ScanDecision::Reinject(100));
    assert!(unlink_after_read(false, false));
    assert!(!unlink_after_read(true, false));
}

#[test]
fn watcher_events() {
    let mut w = Watcher::builder().loop_interval(100).build();
    assert_eq!(w.loop_interval(), 100);
    w.register(1, "/d".to_string(), true, Origin::Scan);
    w.register(2, "/d/a.log".to_string(), false, Origin::Scan);
    w.register(3, "/d/sub/b.log".to_string(), false, Origin::Scan);
    w.register(4, "/dx/c.log".to_string(), false, Origin::Scan);
    let acts = w.process(&RawEvent { wd: 2, mask: IN_MODIFY, name: None });
    assert!(matches!(&acts[..], [WatchAction::Emit(Event::Write(p))] if p == "/d/a.log"));
    let acts = w.process(&RawEvent { wd: 99, mask: IN_MODIFY, name: None });
    assert!(acts.is_empty());
    let acts = w.process(&RawEvent { wd: 4, mask: IN_MOVE_SELF, name: None });
    assert!(matches!(&acts[..], [WatchAction::Unwatch(4), WatchAction::Emit(Event::Delete(p))] if p == "/dx/c.log"));
    let acts = w.process(&RawEvent { wd: 1, mask: IN_DELETE_SELF, name: None });
    let deleted: Vec<String> = acts
        .iter()
        .map(|a| match a {
            WatchAction::Emit(Event::Delete(p)) => p.clone(),
            other => panic!("unexpected {:?}", other),
        })
        .collect();
    assert_eq!(deleted, vec!["/d/a.log".to_string(), "/d/sub/b.log".to_string()]);
    let acts = w.process(&RawEvent { wd: 2, mask: IN_MODIFY, name: None });
    assert!(acts.is_empty());
    let acts = w.process(&RawEvent { wd: -1, mask: IN_Q_OVERFLOW, name: None });
    assert!(matches!(&acts[..], [WatchAction::Rescan]));
    assert_eq!(watch_mask(true), 0x2 | 0x400 | 0x800);
    assert_eq!(watch_mask(false), 0x100 | 0x400 | 0x40 | 0x80);
    assert_eq!(w.initial_dirs().len(), 0);
}

#[test]
fn event_text() {
    assert_eq!(Event::Initiate("/a b".to_string()).to_string(), "INITIATE \"/a b\"");
    assert_eq!(Event::Write("/x".to_string()).to_string(), "WRITE \"/x\"");
    assert!(w_admits());
}

fn w_admits() -> bool {
    let w = Watcher::builder().exclude(Rule::Glob(GlobRule::new("*.gz").unwrap())).build();
    w.admits("/d/a.log", true) && !w.admits("/d/a.gz", true) && w.admits("/d/a.gz", false)
}

#[test]
fn bursts_of_writes_merge() {
    let w = |p: &str| WatchAction::Emit(Event::Write(p.to_string()));
    let acts = vec![w("/a"), w("/a"), w("/b"), w("/a"), WatchAction::Rescan, w("/a"), w("/a")];
    let out = coalesce_writes(acts);
    let names: Vec<String> = out
        .iter()
        .map(|a| match a {
            WatchAction::Emit(Event::Write(p)) => p.clone(),
            _ => "rescan".to_string(),
        })
        .collect();
    assert_eq!(names, vec!["/a", "/b", "/a", "rescan", "/a"]);
    assert!(coalesce_writes(Vec::new()).is_empty());
}

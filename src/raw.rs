use vstd::prelude::*;

verus! {

/// The query parameters that go with each request: who is sending.
#[derive(Debug, PartialEq, Eq)]
pub struct Params {
    pub hostname: String,
    pub ip: Option<String>,
    pub mac: Option<String>,
    pub tags: Vec<String>,
}

/// Patterns as written in the configuration.
#[derive(Debug, PartialEq, Eq)]
pub struct Rules {
    pub glob: Vec<String>,
    pub regex: Vec<String>,
}

/// The `http` part of the configuration as read, every field optional.
/// `timeout` is in milliseconds.
#[derive(Debug, PartialEq, Eq)]
pub struct HttpConfig {
    pub host: Option<String>,
    pub endpoint: Option<String>,
    pub https: Option<bool>,
    pub timeout: Option<u64>,
    pub compress: Option<bool>,
    pub compression_level: Option<u32>,
    pub ingestion_key: Option<String>,
    pub params: Option<Params>,
    pub body_size: Option<u64>,
}

/// The `log` part of the configuration as read.
#[derive(Debug, PartialEq, Eq)]
pub struct LogConfig {
    pub dirs: Vec<String>,
    pub inclusion: Option<Rules>,
    pub exclusion: Option<Rules>,
}

/// The configuration as read, before it is checked.
#[derive(Debug, PartialEq, Eq)]
pub struct Config {
    pub http: HttpConfig,
    pub log: Option<LogConfig>,
}

pub open spec fn views(v: Seq<String>) -> Seq<Seq<char>> {
    v.map_values(|s: String| s@)
}

fn strings(a: &[&str]) -> (r: Vec<String>)
    ensures
        r@.len() == a@.len(),
        forall|i: int| 0 <= i < a@.len() ==> #[trigger] r@[i]@ == a@[i]@,
{
    let mut r: Vec<String> = Vec::new();
    let mut i: usize = 0;
    while i < a.len()
        invariant
            i <= a@.len(),
            r@.len() == i,
            forall|k: int| 0 <= k < i ==> #[trigger] r@[k]@ == a@[k]@,
        decreases a@.len() - i,
    {
        r.push(String::from_str(a[i]));
        i = i + 1;
    }
    r
}

/// `r` is the default `http` part: the ingest service's public endpoint
/// over TLS, gzip at level 2, a ten second timeout and 2 MiB bodies, no
/// ingestion key, and params with an empty host name.
pub open spec fn is_default_http(r: HttpConfig) -> bool {
    &&& (r.host matches Some(h) && h@ == "logs.logdna.com"@)
    &&& (r.endpoint matches Some(e) && e@ == "/logs/agent"@)
    &&& (r.https == Some(true))
    &&& (r.timeout == Some(10_000u64))
    &&& (r.compress == Some(true))
    &&& (r.compression_level == Some(2u32))
    &&& (r.ingestion_key is None)
    &&& (r.params matches Some(p) && p.hostname@.len() == 0 && p.ip is None && p.mac is None
            && p.tags@.len() == 0)
    &&& (r.body_size == Some(2_097_152u64))
}

/// `r` is the default `log` part: watch `/var/logs/`; take `*.log` files
/// and files without an extension; leave out the login records, accounting
/// files and buffers that live under `/var/log`.
pub open spec fn is_default_log(r: LogConfig) -> bool {
    &&& (views(r.dirs@) == seq!["/var/logs/"@])
    &&& (r.inclusion matches Some(inc) && views(inc.glob@) == seq!["*.log"@, "!(*.*)"@]
            && inc.regex@.len() == 0)
    &&& (r.exclusion matches Some(exc) && views(exc.glob@) == seq![
            "/var/log/wtmp"@,
            "/var/log/btmp"@,
            "/var/log/utmp"@,
            "/var/log/wtmpx"@,
            "/var/log/btmpx"@,
            "/var/log/utmpx"@,
            "/var/log/asl/**"@,
            "/var/log/sa/**"@,
            "/var/log/sar*"@,
            "/var/log/tallylog"@,
            "/var/log/fluentd-buffers/**/*"@,
        ] && exc.regex@.len() == 0)
}

impl Default for HttpConfig {
    /// See [`is_default_http`]; the host name is left for the caller to fill in.
    fn default() -> (r: HttpConfig)
        ensures
            is_default_http(r),
    {
        HttpConfig {
            host: Some(String::from_str("logs.logdna.com")),
            endpoint: Some(String::from_str("/logs/agent")),
            https: Some(true),
            timeout: Some(10_000),
            compress: Some(true),
            compression_level: Some(2),
            ingestion_key: None,
            params: Some(Params { hostname: String::new(), ip: None, mac: None, tags: Vec::new() }),
            body_size: Some(2 * 1024 * 1024),
        }
    }
}

impl Default for LogConfig {
    /// See [`is_default_log`].
    fn default() -> (r: LogConfig)
        ensures
            is_default_log(r),
    {
        let dirs = strings(&["/var/logs/"]);
        let inc = strings(&["*.log", "!(*.*)"]);
        let exc = strings(
            &[
                "/var/log/wtmp",
                "/var/log/btmp",
                "/var/log/utmp",
                "/var/log/wtmpx",
                "/var/log/btmpx",
                "/var/log/utmpx",
                "/var/log/asl/**",
                "/var/log/sa/**",
                "/var/log/sar*",
                "/var/log/tallylog",
                "/var/log/fluentd-buffers/**/*",
            ],
        );
        proof {
            assert(views(dirs@) =~= seq!["/var/logs/"@]);
            assert(views(inc@) =~= seq!["*.log"@, "!(*.*)"@]);
            assert(views(exc@) =~= seq![
                "/var/log/wtmp"@,
                "/var/log/btmp"@,
                "/var/log/utmp"@,
                "/var/log/wtmpx"@,
                "/var/log/btmpx"@,
                "/var/log/utmpx"@,
                "/var/log/asl/**"@,
                "/var/log/sa/**"@,
                "/var/log/sar*"@,
                "/var/log/tallylog"@,
                "/var/log/fluentd-buffers/**/*"@,
            ]);
        }
        LogConfig {
            dirs,
            inclusion: Some(Rules { glob: inc, regex: Vec::new() }),
            exclusion: Some(Rules { glob: exc, regex: Vec::new() }),
        }
    }
}

impl Default for Config {
    /// The defaults of both parts.
    fn default() -> (r: Config)
        ensures
            is_default_http(r.http),
            r.log matches Some(l) && is_default_log(l),
    {
        Config { http: HttpConfig::default(), log: Some(LogConfig::default()) }
    }
}

} // verus!

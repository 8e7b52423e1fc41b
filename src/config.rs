use vstd::prelude::*;
use crate::raw::{self, views, Params};
use crate::rules::{glob_valid, regex_valid, GlobRule, RegexRule, Rule, RuleError, Rules};

verus! {

/// `http` or `https`.
#[derive(Debug, Clone, Copy, PartialEq, Eq, Structural)]
pub enum Schema {
    Http,
    Https,
}

/// How request bodies are encoded.
#[derive(Debug, Clone, Copy, PartialEq, Eq, Structural)]
pub enum Encoding {
    Json,
    /// JSON, gzipped at this level.
    GzipJson(u32),
}

/// Everything that is the same in every request to the ingest service.
#[derive(Debug)]
pub struct RequestTemplate {
    pub schema: Schema,
    pub host: String,
    pub endpoint: String,
    pub api_key: String,
    pub encoding: Encoding,
    pub params: Params,
}

/// The checked `http` part of the configuration.
#[derive(Debug)]
pub struct HttpConfig {
    pub template: RequestTemplate,
    /// Time allowed to one request, in milliseconds.
    pub timeout: u64,
    /// Bound on the bytes of lines gathered into one body.
    pub body_size: u64,
}

/// The checked `log` part of the configuration.
#[derive(Debug)]
pub struct LogConfig {
    pub dirs: Vec<String>,
    pub rules: Rules,
}

/// The checked configuration.
#[derive(Debug)]
pub struct Config {
    pub http: HttpConfig,
    pub log: LogConfig,
}

/// Why a configuration was refused.
#[derive(Debug)]
pub enum ConfigError {
    /// A required field is absent; its dotted name.
    MissingField(String),
    /// A glob pattern is malformed.
    Glob(globber::Error),
    /// A regular expression is malformed.
    Regex(regex::Error),
}

/// The first required field that `h` lacks, by its dotted name.
pub open spec fn missing_field(h: raw::HttpConfig) -> Option<Seq<char>> {
    if h.ingestion_key is None {
        Some("http.ingestion_key"@)
    } else if h.https is None {
        Some("http.https"@)
    } else if h.compress is None {
        Some("http.compress"@)
    } else if h.compression_level is None {
        Some("http.compression_level"@)
    } else if h.host is None {
        Some("http.host"@)
    } else if h.endpoint is None {
        Some("http.endpoint"@)
    } else if h.params is None {
        Some("http.params"@)
    } else if h.timeout is None {
        Some("http.timeout"@)
    } else if h.body_size is None {
        Some("http.body_size"@)
    } else {
        None
    }
}

pub open spec fn all_globs_valid(ps: Seq<Seq<char>>) -> bool {
    forall|i: int| 0 <= i < ps.len() ==> glob_valid(#[trigger] ps[i])
}

pub open spec fn all_regexes_valid(ps: Seq<Seq<char>>) -> bool {
    forall|i: int| 0 <= i < ps.len() ==> regex_valid(#[trigger] ps[i])
}

/// The glob and regex patterns of `r`, none when it is absent.
pub open spec fn globs_of(r: Option<raw::Rules>) -> Seq<Seq<char>> {
    match r {
        Some(r) => views(r.glob@),
        None => Seq::empty(),
    }
}

pub open spec fn regexes_of(r: Option<raw::Rules>) -> Seq<Seq<char>> {
    match r {
        Some(r) => views(r.regex@),
        None => Seq::empty(),
    }
}

pub open spec fn inclusion_of(l: Option<raw::LogConfig>) -> Option<raw::Rules> {
    match l {
        Some(l) => l.inclusion,
        None => None,
    }
}

pub open spec fn exclusion_of(l: Option<raw::LogConfig>) -> Option<raw::Rules> {
    match l {
        Some(l) => l.exclusion,
        None => None,
    }
}

/// The kind of the first malformed pattern of `l` (`true` for a glob),
/// taking the inclusion globs, the inclusion regexes, the exclusion globs
/// and the exclusion regexes in that order.
pub open spec fn bad_pattern(l: Option<raw::LogConfig>) -> Option<bool> {
    if !all_globs_valid(globs_of(inclusion_of(l))) {
        Some(true)
    } else if !all_regexes_valid(regexes_of(inclusion_of(l))) {
        Some(false)
    } else if !all_globs_valid(globs_of(exclusion_of(l))) {
        Some(true)
    } else if !all_regexes_valid(regexes_of(exclusion_of(l))) {
        Some(false)
    } else {
        None
    }
}

/// `rs` holds a glob rule for each of `globs`, then a regex rule for each
/// of `regexes`, in order.
pub open spec fn rules_for(rs: Seq<Rule>, globs: Seq<Seq<char>>, regexes: Seq<Seq<char>>) -> bool {
    &&& rs.len() == globs.len() + regexes.len()
    &&& forall|i: int|
        0 <= i < globs.len() ==> (#[trigger] rs[i] matches Rule::Glob(g) && g@ == globs[i])
    &&& forall|j: int|
        0 <= j < regexes.len() ==> (#[trigger] rs[globs.len() + j] matches Rule::Regex(x) && x@
            == regexes[j])
}

/// A rule for each pattern of `pats`, globs first; the error of the first
/// malformed pattern.
fn rules_from(pats: &raw::Rules) -> (r: Result<Vec<Rule>, ConfigError>)
    ensures
        r is Ok <==> all_globs_valid(views(pats.glob@)) && all_regexes_valid(views(pats.regex@)),
        r matches Err(e) ==> if !all_globs_valid(views(pats.glob@)) {
            e is Glob
        } else {
            e is Regex
        },
        r matches Ok(v) ==> rules_for(v@, views(pats.glob@), views(pats.regex@)),
{
    let ghost gs = views(pats.glob@);
    let ghost xs = views(pats.regex@);
    let mut out: Vec<Rule> = Vec::new();
    let mut i: usize = 0;
    while i < pats.glob.len()
        invariant
            gs == views(pats.glob@),
            i <= gs.len(),
            gs.len() == pats.glob@.len(),
            forall|k: int| 0 <= k < i ==> glob_valid(#[trigger] gs[k]),
            out@.len() == i,
            forall|k: int| 0 <= k < i ==> (#[trigger] out@[k] matches Rule::Glob(g) && g@ == gs[k]),
        decreases gs.len() - i,
    {
        proof {
            assert(gs[i as int] == pats.glob@[i as int]@);
        }
        match GlobRule::new(pats.glob[i].as_str()) {
            Ok(g) => out.push(Rule::Glob(g)),
            Err(e) => {
                return match e {
                    RuleError::Glob(x) => Err(ConfigError::Glob(x)),
                    RuleError::Regex(x) => Err(ConfigError::Regex(x)),
                };
            },
        }
        i = i + 1;
    }
    let mut j: usize = 0;
    while j < pats.regex.len()
        invariant
            gs == views(pats.glob@),
            xs == views(pats.regex@),
            gs.len() == pats.glob@.len(),
            xs.len() == pats.regex@.len(),
            j <= xs.len(),
            all_globs_valid(gs),
            forall|k: int| 0 <= k < j ==> regex_valid(#[trigger] xs[k]),
            out@.len() == gs.len() + j,
            forall|k: int|
                0 <= k < gs.len() ==> (#[trigger] out@[k] matches Rule::Glob(g) && g@ == gs[k]),
            forall|k: int|
                0 <= k < j ==> (#[trigger] out@[gs.len() + k] matches Rule::Regex(x) && x@
                    == xs[k]),
        decreases xs.len() - j,
    {
        proof {
            assert(xs[j as int] == pats.regex@[j as int]@);
        }
        match RegexRule::new(pats.regex[j].as_str()) {
            Ok(x) => out.push(Rule::Regex(x)),
            Err(e) => {
                return match e {
                    RuleError::Glob(x) => Err(ConfigError::Glob(x)),
                    RuleError::Regex(x) => Err(ConfigError::Regex(x)),
                };
            },
        }
        j = j + 1;
    }
    Ok(out)
}

fn missing(name: &str) -> (r: ConfigError)
    ensures
        r matches ConfigError::MissingField(f) && f@ == name@,
{
    ConfigError::MissingField(String::from_str(name))
}

impl Config {
    /// Checks a configuration as read: every `http` field is required (the
    /// first one absent is named in the error), and every pattern must be
    /// well formed (the first malformed one, inclusions before exclusions and
    /// globs before regexes, gives the error). A missing `log` part means no
    /// directory and no rule.
    pub fn try_from(raw: raw::Config) -> (r: Result<Config, ConfigError>)
        ensures
            r is Ok <==> missing_field(raw.http) is None && bad_pattern(raw.log) is None,
            missing_field(raw.http) matches Some(f) ==> (r matches Err(ConfigError::MissingField(g))
                && g@ == f),
            missing_field(raw.http) is None && bad_pattern(raw.log) == Some(true) ==> (r matches Err(
                e,
            ) && e is Glob),
            missing_field(raw.http) is None && bad_pattern(raw.log) == Some(false) ==> (r matches Err(
                e,
            ) && e is Regex),
            r matches Ok(c) ==> {
                &&& c.http.template.api_key@ == raw.http.ingestion_key->Some_0@
                &&& c.http.template.schema == if raw.http.https->Some_0 {
                    Schema::Https
                } else {
                    Schema::Http
                }
                &&& c.http.template.encoding == if raw.http.compress->Some_0 {
                    Encoding::GzipJson(raw.http.compression_level->Some_0)
                } else {
                    Encoding::Json
                }
                &&& c.http.template.host@ == raw.http.host->Some_0@
                &&& c.http.template.endpoint@ == raw.http.endpoint->Some_0@
                &&& c.http.template.params == raw.http.params->Some_0
                &&& c.http.timeout == raw.http.timeout->Some_0
                &&& c.http.body_size == raw.http.body_size->Some_0
                &&& views(c.log.dirs@) == match raw.log {
                    Some(l) => views(l.dirs@),
                    None => Seq::empty(),
                }
                &&& rules_for(
                    c.log.rules.inclusions(),
                    globs_of(inclusion_of(raw.log)),
                    regexes_of(inclusion_of(raw.log)),
                )
                &&& rules_for(
                    c.log.rules.exclusions(),
                    globs_of(exclusion_of(raw.log)),
                    regexes_of(exclusion_of(raw.log)),
                )
            },
    {
        let h = raw.http;
        let api_key = match h.ingestion_key {
            Some(v) => v,
            None => return Err(missing("http.ingestion_key")),
        };
        let https = match h.https {
            Some(v) => v,
            None => return Err(missing("http.https")),
        };
        let compress = match h.compress {
            Some(v) => v,
            None => return Err(missing("http.compress")),
        };
        let level = match h.compression_level {
            Some(v) => v,
            None => return Err(missing("http.compression_level")),
        };
        let host = match h.host {
            Some(v) => v,
            None => return Err(missing("http.host")),
        };
        let endpoint = match h.endpoint {
            Some(v) => v,
            None => return Err(missing("http.endpoint")),
        };
        let params = match h.params {
            Some(v) => v,
            None => return Err(missing("http.params")),
        };
        let timeout = match h.timeout {
            Some(v) => v,
            None => return Err(missing("http.timeout")),
        };
        let body_size = match h.body_size {
            Some(v) => v,
            None => return Err(missing("http.body_size")),
        };
        let template = RequestTemplate {
            schema: if https {
                Schema::Https
            } else {
                Schema::Http
            },
            host,
            endpoint,
            api_key,
            encoding: if compress {
                Encoding::GzipJson(level)
            } else {
                Encoding::Json
            },
            params,
        };
        let (dirs, inclusion, exclusion) = match raw.log {
            Some(l) => (l.dirs, l.inclusion, l.exclusion),
            None => (Vec::new(), None, None),
        };
        proof {
            assert(views(Seq::<String>::empty()) =~= Seq::<Seq<char>>::empty());
            assert(views(Seq::<String>::empty()).len() == 0);
        }
        let mut rules = Rules::new();
        match &inclusion {
            Some(p) => {
                let v = rules_from(p)?;
                rules.add_inclusions(v);
                proof {
                    assert(rules.inclusions() =~= v@);
                }
            },
            None => {},
        }
        match &exclusion {
            Some(p) => {
                let v = rules_from(p)?;
                rules.add_exclusions(v);
                proof {
                    assert(rules.exclusions() =~= v@);
                }
            },
            None => {},
        }
        Ok(
            Config {
                http: HttpConfig { template, timeout, body_size },
                log: LogConfig { dirs, rules },
            },
        )
    }
}

} // verus!

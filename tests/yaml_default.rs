use serde_yaml::{Mapping, Value};

use logdna_agent::raw::{Config, HttpConfig, LogConfig, Params, Rules};

fn s(v: &str) -> Value {
    Value::String(v.to_string())
}

fn opt<T>(v: &Option<T>, f: impl Fn(&T) -> Value) -> Value {
    v.as_ref().map(f).unwrap_or(Value::Null)
}

fn strings(v: &[String]) -> Value {
    Value::Sequence(v.iter().map(|x| s(x)).collect())
}

fn rules_to(r: &Rules) -> Value {
    let mut m = Mapping::new();
    m.insert(s("glob"), strings(&r.glob));
    m.insert(s("regex"), strings(&r.regex));
    Value::Mapping(m)
}

fn to_yaml(c: &Config) -> Value {
    let h = &c.http;
    let mut http = Mapping::new();
    http.insert(s("host"), opt(&h.host, |v| s(v)));
    http.insert(s("endpoint"), opt(&h.endpoint, |v| s(v)));
    http.insert(s("https"), opt(&h.https, |v| Value::Bool(*v)));
    http.insert(s("timeout"), opt(&h.timeout, |v| Value::Number((*v).into())));
    http.insert(s("compress"), opt(&h.compress, |v| Value::Bool(*v)));
    http.insert(s("compression_level"), opt(&h.compression_level, |v| Value::Number((*v).into())));
    http.insert(s("ingestion_key"), opt(&h.ingestion_key, |v| s(v)));
    http.insert(
        s("params"),
        opt(&h.params, |p| {
            let mut m = Mapping::new();
            m.insert(s("hostname"), s(&p.hostname));
            m.insert(s("ip"), opt(&p.ip, |v| s(v)));
            m.insert(s("mac"), opt(&p.mac, |v| s(v)));
            m.insert(s("tags"), strings(&p.tags));
            Value::Mapping(m)
        }),
    );
    http.insert(s("body_size"), opt(&h.body_size, |v| Value::Number((*v).into())));
    let mut top = Mapping::new();
    top.insert(s("http"), Value::Mapping(http));
    top.insert(
        s("log"),
        opt(&c.log, |l| {
            let mut m = Mapping::new();
            m.insert(s("dirs"), strings(&l.dirs));
            m.insert(s("include"), opt(&l.inclusion, rules_to));
            m.insert(s("exclude"), opt(&l.exclusion, rules_to));
            Value::Mapping(m)
        }),
    );
    Value::Mapping(top)
}

fn field<'a>(v: &'a Value, k: &str) -> &'a Value {
    v.get(k).unwrap_or(&Value::Null)
}

fn ostr(v: &Value) -> Option<String> {
    v.as_str().map(|x| x.to_string())
}

fn vstrings(v: &Value) -> Vec<String> {
    v.as_sequence().map(|q| q.iter().filter_map(ostr).collect()).unwrap_or_default()
}

fn rules_from(v: &Value) -> Option<Rules> {
    if v.is_null() {
        return None;
    }
    Some(Rules { glob: vstrings(field(v, "glob")), regex: vstrings(field(v, "regex")) })
}

fn from_yaml(v: &Value) -> Config {
    let h = field(v, "http");
    let p = field(h, "params");
    let params = if p.is_null() {
        None
    } else {
        Some(Params {
            hostname: ostr(field(p, "hostname")).unwrap_or_default(),
            ip: ostr(field(p, "ip")),
            mac: ostr(field(p, "mac")),
            tags: vstrings(field(p, "tags")),
        })
    };
    let http = HttpConfig {
        host: ostr(field(h, "host")),
        endpoint: ostr(field(h, "endpoint")),
        https: field(h, "https").as_bool(),
        timeout: field(h, "timeout").as_u64(),
        compress: field(h, "compress").as_bool(),
        compression_level: field(h, "compression_level").as_u64().map(|x| x as u32),
        ingestion_key: ostr(field(h, "ingestion_key")),
        params,
        body_size: field(h, "body_size").as_u64(),
    };
    let l = field(v, "log");
    let log = if l.is_null() {
        None
    } else {
        Some(LogConfig {
            dirs: vstrings(field(l, "dirs")),
            inclusion: rules_from(field(l, "include")),
            exclusion: rules_from(field(l, "exclude")),
        })
    };
    Config { http, log }
}

#[test]
fn test_default() {
    // test for panic at creation
    let config = Config::default();
    assert!(config.log.is_some());
    // make sure the config can be serialized
    let yaml = serde_yaml::to_string(&to_yaml(&config));
    assert!(yaml.is_ok());
    let yaml = yaml.unwrap();
    // make sure the config can be deserialized
    let new_config = serde_yaml::from_str::<Value>(&yaml).map(|v| from_yaml(&v));
    assert!(new_config.is_ok());
    let new_config = new_config.unwrap();
    assert_eq!(config, new_config);
}

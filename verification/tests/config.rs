use ngsite::config::{merge_config, ConfigValue, Table};
use ngsite::parse::{document_of, parse_document};
use ngsite::resolve::{init_config, resolve, ConfigError};
use ngsite::settings::{Config, Paths, Setting, ShapeError};

const DEFAULTS: &str = r#"
ignore_values_in_log = ["favicon.ico", "robots.txt"]

[paths]
nginx = "/etc/nginx"
sites_available = "/etc/nginx/sites-available"
sites_enabled = "/etc/nginx/sites-enabled"
logs = "/var/log/nginx"
"#;

fn text(s: &str) -> ConfigValue {
    ConfigValue::String(s.to_string())
}

fn whole(n: i64) -> ConfigValue {
    ConfigValue::Number(serde_json::Number::from(n))
}

fn object(fields: Vec<(&str, ConfigValue)>) -> ConfigValue {
    let mut t = Table::new();
    for (key, value) in fields {
        t.insert(key.to_string(), value);
    }
    ConfigValue::Object(t)
}

fn default_config() -> Config {
    Config {
        paths: Paths {
            nginx: "/etc/nginx".to_string(),
            sites_available: "/etc/nginx/sites-available".to_string(),
            sites_enabled: "/etc/nginx/sites-enabled".to_string(),
            logs: "/var/log/nginx".to_string(),
        },
        ignore_values_in_log: vec!["favicon.ico".to_string(), "robots.txt".to_string()],
    }
}

#[test]
fn toml_text_becomes_a_document() {
    let doc = parse_document("a = 1\nname = \"x\"\nflag = true\nlist = [1, 2]\n[t]\nk = \"v\"\n");
    let expected = object(vec![
        ("a", whole(1)),
        ("name", text("x")),
        ("flag", ConfigValue::Bool(true)),
        ("list", ConfigValue::Array(vec![whole(1), whole(2)])),
        ("t", object(vec![("k", text("v"))])),
    ]);
    assert_eq!(doc, Ok(expected));
}

#[test]
fn empty_text_is_the_empty_document() {
    assert_eq!(parse_document(""), Ok(ConfigValue::Object(Table::new())));
}

#[test]
fn malformed_text_is_refused() {
    assert!(matches!(parse_document("a = = 1"), Err(ConfigError::Malformed(_))));
    assert!(matches!(parse_document("[paths"), Err(ConfigError::Malformed(_))));
    match parse_document("key = ") {
        Err(ConfigError::Malformed(message)) => {
            assert!(!message.is_empty());
            assert_ne!(message, "key = ");
        }
        other => panic!("{:?}", other),
    }
    assert!(matches!(init_config("oops =", None), Err(ConfigError::Malformed(_))));
    assert!(matches!(init_config(DEFAULTS, Some("oops =")), Err(ConfigError::Malformed(_))));
}

#[test]
fn deep_values_become_documents() {
    let mut value = serde_json::Value::Bool(true);
    let mut expected = ConfigValue::Bool(true);
    for _ in 0..300 {
        value = serde_json::Value::Array(vec![value]);
        expected = ConfigValue::Array(vec![expected]);
    }
    assert_eq!(document_of(value), expected);
}

#[test]
fn deep_texts_become_documents() {
    let path = vec!["k"; 70].join(".");
    let text = format!("x = {{ {} = {{ {} = 1 }} }}", path, path);
    let mut expected = whole(1);
    for _ in 0..140 {
        expected = object(vec![("k", expected)]);
    }
    expected = object(vec![("x", expected)]);
    assert_eq!(parse_document(&text), Ok(expected));
}

#[test]
fn values_of_the_parser_become_documents() {
    let mut map = serde_json::Map::new();
    map.insert("b".to_string(), serde_json::Value::Bool(false));
    map.insert("a".to_string(), serde_json::Value::Null);
    let value = serde_json::Value::Array(vec![
        serde_json::Value::Object(map),
        serde_json::Value::String("s".to_string()),
        serde_json::Value::Number(serde_json::Number::from(7)),
    ]);
    let expected = ConfigValue::Array(vec![
        object(vec![("a", ConfigValue::Null), ("b", ConfigValue::Bool(false))]),
        text("s"),
        whole(7),
    ]);
    assert_eq!(document_of(value), expected);
}

#[test]
fn defaults_pass_through_without_a_user_document() {
    assert_eq!(init_config(DEFAULTS, None), Ok(default_config()));
    assert_eq!(init_config(DEFAULTS, Some("")), Ok(default_config()));
}

#[test]
fn user_document_overrides_field_by_field() {
    let user = "ignore_values_in_log = [\"bot\"]\n[paths]\nlogs = \"/srv/logs\"\nextra = 1\n";
    let mut expected = default_config();
    expected.paths.logs = "/srv/logs".to_string();
    expected.ignore_values_in_log = vec!["bot".to_string()];
    assert_eq!(init_config(DEFAULTS, Some(user)), Ok(expected));
}

#[test]
fn resolve_merges_then_reads() {
    let defaults = parse_document(DEFAULTS).unwrap();
    let user = object(vec![("paths", object(vec![("nginx", text("/opt/nginx"))]))]);
    let mut expected = default_config();
    expected.paths.nginx = "/opt/nginx".to_string();
    assert_eq!(resolve(defaults, Some(user)), Ok(expected));
    assert_eq!(resolve(parse_document(DEFAULTS).unwrap(), None), Ok(default_config()));
}

#[test]
fn documents_of_the_wrong_shape_are_refused() {
    assert_eq!(Config::from_document(&whole(1)), Err(ShapeError::NotATable));
    assert_eq!(Config::from_document(&object(vec![])), Err(ShapeError::Missing(Setting::Paths)));
    assert_eq!(
        Config::from_document(&object(vec![("paths", text("x"))])),
        Err(ShapeError::WrongKind(Setting::Paths))
    );
    assert_eq!(
        init_config(DEFAULTS, Some("paths = 3")),
        Err(ConfigError::Shape(ShapeError::WrongKind(Setting::Paths)))
    );
    assert_eq!(
        init_config(DEFAULTS, Some("[paths]\nsites_enabled = 3")),
        Err(ConfigError::Shape(ShapeError::WrongKind(Setting::SitesEnabled)))
    );
    assert_eq!(
        init_config(DEFAULTS, Some("ignore_values_in_log = [\"a\", 1]")),
        Err(ConfigError::Shape(ShapeError::WrongKind(Setting::IgnoreValuesInLog)))
    );
    assert_eq!(
        init_config(DEFAULTS, Some("ignore_values_in_log = \"a\"")),
        Err(ConfigError::Shape(ShapeError::WrongKind(Setting::IgnoreValuesInLog)))
    );
    assert_eq!(
        init_config("[paths]\nnginx = \"n\"\nsites_available = \"a\"\nsites_enabled = \"e\"\nlogs = \"l\"\n", None),
        Err(ConfigError::Shape(ShapeError::Missing(Setting::IgnoreValuesInLog)))
    );
    assert_eq!(
        init_config("ignore_values_in_log = []\n[paths]\nnginx = \"n\"\nsites_enabled = \"e\"\nlogs = \"l\"\n", None),
        Err(ConfigError::Shape(ShapeError::Missing(Setting::SitesAvailable)))
    );
    assert_eq!(
        init_config("ignore_values_in_log = []\n[paths]\nsites_available = \"a\"\n", None),
        Err(ConfigError::Shape(ShapeError::Missing(Setting::Nginx)))
    );
    assert_eq!(
        init_config("ignore_values_in_log = []\n[paths]\nnginx = \"n\"\nsites_available = \"a\"\nsites_enabled = \"e\"\n", None),
        Err(ConfigError::Shape(ShapeError::Missing(Setting::Logs)))
    );
}

#[test]
fn setting_names_are_the_keys() {
    assert_eq!(Setting::Paths.name(), "paths");
    assert_eq!(Setting::Nginx.name(), "nginx");
    assert_eq!(Setting::SitesAvailable.name(), "sites_available");
    assert_eq!(Setting::SitesEnabled.name(), "sites_enabled");
    assert_eq!(Setting::Logs.name(), "logs");
    assert_eq!(Setting::IgnoreValuesInLog.name(), "ignore_values_in_log");
}

#[test]
fn merge_with_empty_override_keeps_the_defaults() {
    let mut base = object(vec![("a", whole(1)), ("b", object(vec![("x", whole(1))]))]);
    merge_config(&mut base, object(vec![]));
    assert_eq!(base, object(vec![("a", whole(1)), ("b", object(vec![("x", whole(1))]))]));
}

#[test]
fn merge_replaces_on_type_mismatch() {
    let mut base = object(vec![("a", object(vec![("x", whole(1))])), ("b", whole(2))]);
    merge_config(&mut base, object(vec![("a", whole(5)), ("b", object(vec![("y", whole(3))]))]));
    assert_eq!(base, object(vec![("a", whole(5)), ("b", object(vec![("y", whole(3))]))]));
    let mut scalar = whole(1);
    merge_config(&mut scalar, object(vec![("k", whole(2))]));
    assert_eq!(scalar, object(vec![("k", whole(2))]));
    let mut table = object(vec![("k", whole(2))]);
    merge_config(&mut table, ConfigValue::Null);
    assert_eq!(table, ConfigValue::Null);
}

#[test]
fn merge_goes_down_through_nested_tables() {
    let mut base = object(vec![("a", object(vec![("b", object(vec![("c", whole(1)), ("d", whole(2))]))]))]);
    let over = object(vec![("a", object(vec![("b", object(vec![("d", whole(3)), ("e", whole(4))]))]))]);
    merge_config(&mut base, over);
    assert_eq!(
        base,
        object(vec![("a", object(vec![("b", object(vec![("c", whole(1)), ("d", whole(3)), ("e", whole(4))]))]))])
    );
}

#[test]
fn table_keeps_one_value_for_each_key() {
    let mut t = Table::new();
    t.insert("b".to_string(), whole(1));
    t.insert("a".to_string(), whole(2));
    t.insert("b".to_string(), whole(3));
    assert_eq!(t.fields().len(), 2);
    assert_eq!(t.fields()[0].key, "a");
    assert_eq!(t.fields()[1].key, "b");
    assert_eq!(t.get("b"), Some(&whole(3)));
    assert_eq!(t.get("c"), None);
}

#[test]
fn configuration_can_be_copied() {
    let config = default_config();
    assert_eq!(config.clone(), config);
    assert_eq!(config.paths.clone(), config.paths);
    assert_eq!(Config::default().ignore_values_in_log, Vec::<String>::new());
    assert_eq!(Paths::default().nginx, "");
}

use ngsite::config::{merge_config, ConfigValue, Table};

fn number(n: i64) -> ConfigValue {
    ConfigValue::Number(serde_json::Number::from(n))
}

fn table(fields: Vec<(&str, ConfigValue)>) -> ConfigValue {
    let mut t = Table::new();
    for (key, value) in fields {
        t.insert(key.to_string(), value);
    }
    ConfigValue::Object(t)
}

#[test]
fn merge_keeps_default_keys_and_adds_user_keys() {
    let mut base = table(vec![("a", number(1)), ("b", table(vec![("x", number(1))]))]);
    let over = table(vec![("b", table(vec![("y", number(2))]))]);
    merge_config(&mut base, over);
    let expected = table(vec![
        ("a", number(1)),
        ("b", table(vec![("x", number(1)), ("y", number(2))])),
    ]);
    assert_eq!(base, expected);
}

#[test]
fn merge_replaces_arrays() {
    let mut base = table(vec![("a", ConfigValue::Array(vec![number(1), number(2)]))]);
    let over = table(vec![("a", ConfigValue::Array(vec![number(3)]))]);
    merge_config(&mut base, over);
    assert_eq!(base, table(vec![("a", ConfigValue::Array(vec![number(3)]))]));
}

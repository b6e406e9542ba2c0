use utoipa_gen::config::{Config, SchemaCollect};

#[test]
fn config_new_has_defaults() {
    let config = Config::new();
    assert!(config.entries().is_empty());
    assert_eq!(config.schema_collect, SchemaCollect::NonInlined);
    assert!(!config.auto_into_params);
    assert_eq!(config.get_alias("i32"), None);
}

#[test]
fn config_alias_is_read_back() {
    let config = Config::new().alias_for("i32", "Option<String>");
    assert_eq!(config.get_alias("i32"), Some("Option<String>".to_string()));
    assert_eq!(config.get_alias("i64"), None);
    assert_eq!(config.entries().len(), 1);
}

#[test]
fn config_later_alias_wins() {
    let config = Config::new()
        .alias_for("MyType", "i32")
        .alias_for("Other", "String")
        .alias_for("MyType", "u64");
    assert_eq!(config.get_alias("MyType"), Some("u64".to_string()));
    assert_eq!(config.get_alias("Other"), Some("String".to_string()));
    assert_eq!(
        config.entries(),
        &vec![
            ("MyType".to_string(), "u64".to_string()),
            ("Other".to_string(), "String".to_string())
        ]
    );
}

#[test]
fn config_builders_keep_other_settings() {
    let config = Config::new()
        .alias_for("Json", "Value")
        .schema_collect(SchemaCollect::All)
        .auto_into_params(true);
    assert_eq!(config.schema_collect, SchemaCollect::All);
    assert!(config.auto_into_params);
    assert_eq!(config.get_alias("Json"), Some("Value".to_string()));
}

#[test]
fn schema_collect_names() {
    assert_eq!(SchemaCollect::All.as_str(), "all");
    assert_eq!(SchemaCollect::NonInlined.as_str(), "non_inlined");
    assert_eq!(SchemaCollect::from_name("all"), SchemaCollect::All);
    assert_eq!(SchemaCollect::from_name("non_inlined"), SchemaCollect::NonInlined);
    assert_eq!(SchemaCollect::from_name("anything else"), SchemaCollect::NonInlined);
    assert_eq!(SchemaCollect::default(), SchemaCollect::NonInlined);
}

fn config_to_json(config: &Config) -> String {
    let mut aliases = serde_json::Map::new();
    for (alias, value) in config.entries() {
        aliases.insert(alias.clone(), serde_json::Value::String(value.clone()));
    }
    let mut object = serde_json::Map::new();
    object.insert("aliases".to_string(), serde_json::Value::Object(aliases));
    object.insert(
        "schema_collect".to_string(),
        serde_json::Value::String(config.schema_collect.as_str().to_string()),
    );
    object.insert("auto_into_params".to_string(), serde_json::Value::Bool(config.auto_into_params));
    serde_json::to_string(&serde_json::Value::Object(object)).expect("config is json serializable")
}

fn config_from_json(json: &str) -> Config {
    let value: serde_json::Value = serde_json::from_str(json).expect("config is json deserializable");
    let mut config = Config::new()
        .schema_collect(SchemaCollect::from_name(value["schema_collect"].as_str().unwrap_or("")))
        .auto_into_params(value["auto_into_params"].as_bool().unwrap_or(false));
    if let Some(aliases) = value["aliases"].as_object() {
        for (alias, v) in aliases {
            config = config.alias_for(alias, v.as_str().unwrap_or(""));
        }
    }
    config
}

#[test]
fn test_create_config_with_aliases() {
    let config = Config::new().alias_for("i32", "Option<String>");
    let json = config_to_json(&config);

    let config = config_from_json(&json);

    assert!(!config.entries().is_empty());
    assert!(config.get_alias("i32").is_some());
    assert_eq!(config.get_alias("i32"), Some("Option<String>".to_string()));
}

#[test]
fn test_config_with_collect_all() {
    let config = Config::new().schema_collect(SchemaCollect::All);
    let json = config_to_json(&config);

    let config = config_from_json(&json);

    assert!(matches!(config.schema_collect, SchemaCollect::All));
}

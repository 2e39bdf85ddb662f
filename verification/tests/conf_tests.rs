use formatmd::conf::{validate_config, ConfDoc, ConfScalar, ConfValue};

fn to_scalar(v: toml::Value) -> ConfScalar {
    match v {
        toml::Value::String(s) => ConfScalar::SStr(s),
        toml::Value::Integer(i) => ConfScalar::SInt(i),
        toml::Value::Boolean(b) => ConfScalar::SBool(b),
        _ => ConfScalar::SOther,
    }
}

fn to_value(v: toml::Value) -> ConfValue {
    match v {
        toml::Value::String(s) => ConfValue::VStr(s),
        toml::Value::Integer(i) => ConfValue::VInt(i),
        toml::Value::Boolean(b) => ConfValue::VBool(b),
        toml::Value::Array(a) => ConfValue::VArr(a.into_iter().map(to_scalar).collect()),
        toml::Value::Table(t) => {
            ConfValue::VTab(t.into_iter().map(|(k, w)| (k, to_scalar(w))).collect())
        }
        _ => ConfValue::VOther,
    }
}

fn to_doc(v: toml::Value) -> ConfDoc {
    match v {
        toml::Value::Table(t) => {
            ConfDoc::DTab(t.into_iter().map(|(k, w)| (k, to_value(w))).collect())
        }
        _ => ConfDoc::DOther,
    }
}

#[test]
fn test_validate_config_valid() {
    let valid_config = r#"
            wrap = "keep"
            number = true
            end_of_line = "lf"
            validate = true
            exclude = ["file1.md", "file2.md"]
            plugin = { "key1" = "value1", "key2" = "value2" }
            extensions = ["md", "markdown"]
            codeformatters = ["rustfmt", "prettier"]
        "#;
    let config = to_doc(toml::from_str::<toml::Value>(valid_config).unwrap());
    let conf_path = "test_config.toml";
    assert!(validate_config(&config, conf_path).is_ok());
}

#[test]
fn test_validate_config_invalid_key() {
    let invalid_config = r#"
            invalid_key = "value"
        "#;
    let config = to_doc(toml::from_str::<toml::Value>(invalid_config).unwrap());
    let conf_path = "test_config.toml";
    let result = validate_config(&config, conf_path);
    assert!(result.is_err());
    assert!(result.unwrap_err().message().contains("Invalid key"));
}

#[test]
fn test_validate_config_invalid_wrap() {
    let invalid_config = r#"
            wrap = "invalid"
        "#;
    let config = to_doc(toml::from_str::<toml::Value>(invalid_config).unwrap());
    let conf_path = "test_config.toml";
    let result = validate_config(&config, conf_path);
    assert!(result.is_err());
    assert!(result.unwrap_err().message().contains("Invalid 'wrap' value"));
}

#[test]
fn test_validate_config_invalid_end_of_line() {
    let invalid_config = r#"
            end_of_line = "invalid"
        "#;
    let config = to_doc(toml::from_str::<toml::Value>(invalid_config).unwrap());
    let conf_path = "test_config.toml";
    let result = validate_config(&config, conf_path);
    assert!(result.is_err());
    assert!(result
        .unwrap_err()
        .message()
        .contains("Invalid 'end_of_line' value"));
}

#[test]
fn test_validate_config_invalid_exclude() {
    let invalid_config = r#"
            exclude = [123, "file2.md"]
        "#;
    let config = to_doc(toml::from_str::<toml::Value>(invalid_config).unwrap());
    let conf_path = "test_config.toml";
    let result = validate_config(&config, conf_path);
    assert!(result.is_err());
    assert!(result
        .unwrap_err()
        .message()
        .contains("All items in 'exclude' must be strings"));
}

#[test]
fn test_validate_config_invalid_plugin() {
    let invalid_config = r#"
            plugin = "not_a_map"
        "#;
    let config = to_doc(toml::from_str::<toml::Value>(invalid_config).unwrap());
    let conf_path = "test_config.toml";
    let result = validate_config(&config, conf_path);
    assert!(result.is_err());
    assert!(result
        .unwrap_err()
        .message()
        .contains("The 'plugin' field must be a map"));
}

#[test]
fn test_validate_config_invalid_extensions() {
    let invalid_config = r#"
            extensions = ["md", 123]
        "#;
    let config = to_doc(toml::from_str::<toml::Value>(invalid_config).unwrap());
    let conf_path = "test_config.toml";
    let result = validate_config(&config, conf_path);
    assert!(result.is_err());
    assert!(result
        .unwrap_err()
        .message()
        .contains("All items in 'extensions' must be strings"));
}

#[test]
fn test_validate_config_invalid_codeformatters() {
    let invalid_config = r#"
            codeformatters = ["rustfmt", 123]
        "#;
    let config = to_doc(toml::from_str::<toml::Value>(invalid_config).unwrap());
    let conf_path = "test_config.toml";
    let result = validate_config(&config, conf_path);
    assert!(result.is_err());
    assert!(result
        .unwrap_err()
        .message()
        .contains("All items in 'codeformatters' must be strings"));
}

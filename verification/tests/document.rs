use configinator::document::{misfit_error, read_flag, read_list, read_number, read_text};
use configinator::error::ConfigError;
use toml::value::Table;
use toml::Value;

fn table() -> Table {
    let mut table = Table::new();
    table.insert(String::from("text"), Value::String(String::from("hello")));
    table.insert(String::from("empty"), Value::String(String::new()));
    table.insert(String::from("number"), Value::Integer(28));
    table.insert(String::from("negative"), Value::Integer(-1));
    table.insert(String::from("huge"), Value::Integer(i64::MAX));
    table.insert(String::from("edge"), Value::Integer(4294967295));
    table.insert(String::from("over"), Value::Integer(4294967296));
    table.insert(String::from("flag"), Value::Boolean(true));
    table.insert(String::from("ratio"), Value::Float(0.5));
    table.insert(
        String::from("list"),
        Value::Array(vec![Value::String(String::from("a")), Value::String(String::from("b"))]),
    );
    table.insert(String::from("none"), Value::Array(Vec::new()));
    table.insert(
        String::from("mixed"),
        Value::Array(vec![Value::String(String::from("a")), Value::Integer(1)]),
    );
    table.insert(String::from("nested"), Value::Table(Table::new()));
    table
}

fn wrong<T>(key: &str) -> Result<T, ConfigError> {
    Err(ConfigError::FileTomlParseFailed(format!("invalid type for key `{}`", key)))
}

#[test]
fn the_error_for_a_wrong_type_names_the_key() {
    assert_eq!(
        misfit_error("androidVersion"),
        ConfigError::FileTomlParseFailed(String::from("invalid type for key `androidVersion`"))
    );
    assert_eq!(
        misfit_error(""),
        ConfigError::FileTomlParseFailed(String::from("invalid type for key ``"))
    );
}

#[test]
fn a_text_is_read_where_there_is_one() {
    let table = table();
    assert_eq!(read_text(&table, "text"), Ok(Some(String::from("hello"))));
    assert_eq!(read_text(&table, "empty"), Ok(Some(String::new())));
    assert_eq!(read_text(&table, "missing"), Ok(None));
    assert_eq!(read_text(&table, "Text"), Ok(None));
    assert_eq!(read_text(&table, "number"), wrong("number"));
    assert_eq!(read_text(&table, "flag"), wrong("flag"));
    assert_eq!(read_text(&table, "list"), wrong("list"));
    assert_eq!(read_text(&table, "ratio"), wrong("ratio"));
    assert_eq!(read_text(&table, "nested"), wrong("nested"));
}

#[test]
fn a_list_is_read_where_all_its_items_are_texts() {
    let table = table();
    assert_eq!(read_list(&table, "list"), Ok(Some(vec![String::from("a"), String::from("b")])));
    assert_eq!(read_list(&table, "none"), Ok(Some(Vec::new())));
    assert_eq!(read_list(&table, "missing"), Ok(None));
    assert_eq!(read_list(&table, "mixed"), wrong("mixed"));
    assert_eq!(read_list(&table, "text"), wrong("text"));
    assert_eq!(read_list(&table, "nested"), wrong("nested"));
}

#[test]
fn a_flag_is_read_where_there_is_one() {
    let table = table();
    assert_eq!(read_flag(&table, "flag"), Ok(Some(true)));
    assert_eq!(read_flag(&table, "missing"), Ok(None));
    assert_eq!(read_flag(&table, "number"), wrong("number"));
    assert_eq!(read_flag(&table, "text"), wrong("text"));
}

#[test]
fn a_number_is_read_where_it_fits() {
    let table = table();
    assert_eq!(read_number(&table, "number"), Ok(Some(28)));
    assert_eq!(read_number(&table, "edge"), Ok(Some(u32::MAX)));
    assert_eq!(read_number(&table, "missing"), Ok(None));
    assert_eq!(read_number(&table, "over"), wrong("over"));
    assert_eq!(read_number(&table, "huge"), wrong("huge"));
    assert_eq!(read_number(&table, "negative"), wrong("negative"));
    assert_eq!(read_number(&table, "ratio"), wrong("ratio"));
    assert_eq!(read_number(&table, "text"), wrong("text"));
}

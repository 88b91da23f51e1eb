//! A parsed TOML document, as the `toml` crate hands it out, and what a
//! configuration reads of it.
//!
//! The document stays a value of the `toml` crate. Its contents are known here
//! only through [`parsed`], [`datum`] and [`entries`], and through what the
//! functions of this module that call the crate promise of them. Those
//! promises are taken from the crate's source and are not proved.

use crate::error::{ConfigError, Failure};
use vstd::prelude::*;
use vstd::string::*;

verus! {

/// A TOML value of the `toml` crate.
#[verifier::external_type_specification]
#[verifier::external_body]
pub struct ExValue(toml::Value);

/// The `toml` crate's map from keys to values; a table is
/// `Map<String, toml::Value>`.
#[verifier::external_type_specification]
#[verifier::external_body]
#[verifier::reject_recursive_types(K)]
#[verifier::reject_recursive_types(V)]
pub struct ExMap<K, V>(toml::map::Map<K, V>);

/// What a TOML value holds, as far as a configuration reads it.
pub ghost enum Datum {
    Text(Seq<char>),
    Integer(i64),
    Boolean(bool),
    Array(Seq<Datum>),
    Table(Map<Seq<char>, Datum>),
    /// A float or a date: nothing that a configuration reads.
    Other,
}

/// What `value` holds.
pub uninterp spec fn datum(value: toml::Value) -> Datum;

/// What `table` holds under each of its keys.
pub uninterp spec fn entries(table: toml::value::Table) -> Map<Seq<char>, Datum>;

/// What the `toml` crate makes of `text`: what the document holds, or the
/// message of the error with which the crate turns the text down.
pub uninterp spec fn parsed(text: Seq<char>) -> Result<Datum, Seq<char>>;

/// Parses `text` with `toml::from_str`, asking for a `toml::Value`, and turns
/// an error into its message. The contract only gives the outcome its name,
/// [`parsed`]: what the crate accepts is TOML, and that is not restated here.
/// It rests on the parser being a function of the text alone, and on its
/// coming back for every text.
#[verifier::external_body]
pub(crate) fn parse(text: &str) -> (outcome: Result<toml::Value, String>)
    ensures
        match outcome {
            Ok(value) => parsed(text@) == Ok::<Datum, Seq<char>>(datum(value)),
            Err(cause) => parsed(text@) == Err::<Datum, Seq<char>>(cause@),
        },
{
    match toml::from_str::<toml::Value>(text) {
        Ok(value) => Ok(value),
        Err(error) => Err(error.to_string()),
    }
}

/// Calls `toml::Value::as_table`, which gives the table of a value of the
/// variant `Table` and nothing for any other value.
#[verifier::external_body]
pub(crate) fn as_table(value: &toml::Value) -> (table: Option<&toml::value::Table>)
    ensures
        match table {
            Some(table) => datum(*value) == Datum::Table(entries(*table)),
            None => !(datum(*value) is Table),
        },
{
    value.as_table()
}

/// Calls `toml::map::Map::get`, which gives the value that the table holds
/// under `key` and nothing where the table has no such key.
#[verifier::external_body]
pub(crate) fn get<'a>(table: &'a toml::value::Table, key: &str) -> (found: Option<&'a toml::Value>)
    ensures
        match found {
            Some(value) => entries(*table).contains_key(key@) && entries(*table)[key@] == datum(
                *value,
            ),
            None => !entries(*table).contains_key(key@),
        },
{
    table.get(key)
}

/// Calls `toml::Value::as_str`, which gives the string of a value of the
/// variant `String` and nothing for any other value.
#[verifier::external_body]
pub(crate) fn as_str(value: &toml::Value) -> (text: Option<&str>)
    ensures
        match text {
            Some(text) => datum(*value) == Datum::Text(text@),
            None => !(datum(*value) is Text),
        },
{
    value.as_str()
}

/// Calls `toml::Value::as_integer`, which gives the integer of a value of the
/// variant `Integer` and nothing for any other value.
#[verifier::external_body]
pub(crate) fn as_integer(value: &toml::Value) -> (number: Option<i64>)
    ensures
        match number {
            Some(number) => datum(*value) == Datum::Integer(number),
            None => !(datum(*value) is Integer),
        },
{
    value.as_integer()
}

/// Calls `toml::Value::as_bool`, which gives the boolean of a value of the
/// variant `Boolean` and nothing for any other value.
#[verifier::external_body]
pub(crate) fn as_bool(value: &toml::Value) -> (flag: Option<bool>)
    ensures
        match flag {
            Some(flag) => datum(*value) == Datum::Boolean(flag),
            None => !(datum(*value) is Boolean),
        },
{
    value.as_bool()
}

/// Calls `toml::Value::as_array`, which gives the items, in order, of a value
/// of the variant `Array` and nothing for any other value.
#[verifier::external_body]
pub(crate) fn as_array(value: &toml::Value) -> (items: Option<&Vec<toml::Value>>)
    ensures
        match items {
            Some(items) => datum(*value) == Datum::Array(
                items@.map_values(|item: toml::Value| datum(item)),
            ),
            None => !(datum(*value) is Array),
        },
{
    value.as_array()
}

/// The four kinds of value that a configuration key can ask for.
pub ghost enum Kind {
    /// A string.
    Text,
    /// An array of strings.
    List,
    /// A boolean.
    Flag,
    /// An integer that fits an unsigned 32-bit number.
    Number,
}

/// Whether a key that asks for `kind` accepts `d`.
pub open spec fn fits(d: Datum, kind: Kind) -> bool {
    match kind {
        Kind::Text => d is Text,
        Kind::List => d matches Datum::Array(items) && forall|i: int|
            0 <= i < items.len() ==> #[trigger] items[i] is Text,
        Kind::Flag => d is Boolean,
        Kind::Number => d matches Datum::Integer(n) && 0 <= n <= u32::MAX,
    }
}

/// Whether the document has `key` with a value that a key of `kind` turns
/// down. A document without the key is in order.
pub open spec fn misfit(doc: Map<Seq<char>, Datum>, key: Seq<char>, kind: Kind) -> bool {
    doc.contains_key(key) && !fits(doc[key], kind)
}

/// The string under `key`, if the key is there and holds one.
pub open spec fn text_at(doc: Map<Seq<char>, Datum>, key: Seq<char>) -> Option<Seq<char>> {
    if doc.contains_key(key) && fits(doc[key], Kind::Text) {
        Some(doc[key]->Text_0)
    } else {
        None
    }
}

/// The strings under `key` in order, if the key is there and holds an array
/// of strings.
pub open spec fn list_at(doc: Map<Seq<char>, Datum>, key: Seq<char>) -> Option<Seq<Seq<char>>> {
    if doc.contains_key(key) && fits(doc[key], Kind::List) {
        Some(doc[key]->Array_0.map_values(|item: Datum| item->Text_0))
    } else {
        None
    }
}

/// The boolean under `key`, if the key is there and holds one.
pub open spec fn flag_at(doc: Map<Seq<char>, Datum>, key: Seq<char>) -> Option<bool> {
    if doc.contains_key(key) && fits(doc[key], Kind::Flag) {
        Some(doc[key]->Boolean_0)
    } else {
        None
    }
}

/// The number under `key`, if the key is there and holds one that fits.
pub open spec fn number_at(doc: Map<Seq<char>, Datum>, key: Seq<char>) -> Option<u32> {
    if doc.contains_key(key) && fits(doc[key], Kind::Number) {
        Some(doc[key]->Integer_0 as u32)
    } else {
        None
    }
}

/// What the error says when the value under `key` is of the wrong type.
pub open spec fn misfit_message(key: Seq<char>) -> Seq<char> {
    "invalid type for key `"@ + key + "`"@
}

/// The error for a value of the wrong type under `key`.
pub fn misfit_error(key: &str) -> (error: ConfigError)
    ensures
        error@ == Failure::FileTomlParseFailed(misfit_message(key@)),
{
    let mut message = String::from_str("invalid type for key `");
    message.append(key);
    message.append("`");
    ConfigError::FileTomlParseFailed(message)
}

/// Reads the string under `key`: nothing where the table has no such key, and
/// an error that names the key where it holds anything but a string.
pub fn read_text(table: &toml::value::Table, key: &str) -> (read: Result<
    Option<String>,
    ConfigError,
>)
    ensures
        match read {
            Ok(text) => !misfit(entries(*table), key@, Kind::Text) && text.deep_view() == text_at(
                entries(*table),
                key@,
            ),
            Err(error) => misfit(entries(*table), key@, Kind::Text) && error@
                == Failure::FileTomlParseFailed(misfit_message(key@)),
        },
{
    match get(table, key) {
        None => Ok(None),
        Some(value) => match as_str(value) {
            Some(text) => Ok(Some(text.to_owned())),
            None => Err(misfit_error(key)),
        },
    }
}

/// Reads the array of strings under `key`, in its order: nothing where the
/// table has no such key, and an error that names the key where it holds
/// anything but an array of strings.
pub fn read_list(table: &toml::value::Table, key: &str) -> (read: Result<
    Option<Vec<String>>,
    ConfigError,
>)
    ensures
        match read {
            Ok(list) => !misfit(entries(*table), key@, Kind::List) && list.deep_view() == list_at(
                entries(*table),
                key@,
            ),
            Err(error) => misfit(entries(*table), key@, Kind::List) && error@
                == Failure::FileTomlParseFailed(misfit_message(key@)),
        },
{
    let items = match get(table, key) {
        None => {
            return Ok(None);
        },
        Some(value) => match as_array(value) {
            Some(items) => items,
            None => {
                return Err(misfit_error(key));
            },
        },
    };
    let ghost data = items@.map_values(|item: toml::Value| datum(item));
    let mut list: Vec<String> = Vec::new();
    let mut i: usize = 0;
    while i < items.len()
        invariant
            i <= items.len(),
            entries(*table).contains_key(key@),
            entries(*table)[key@] == Datum::Array(data),
            data == items@.map_values(|item: toml::Value| datum(item)),
            forall|k: int| 0 <= k < i ==> #[trigger] data[k] is Text,
            list.deep_view() == data.take(i as int).map_values(|item: Datum| item->Text_0),
        decreases items.len() - i,
    {
        match as_str(&items[i]) {
            Some(text) => {
                let ghost before = list.deep_view();
                list.push(text.to_owned());
                assert(data.take(i + 1).map_values(|item: Datum| item->Text_0) =~= before.push(
                    text@,
                ));
            },
            None => {
                assert(!(data[i as int] is Text));
                return Err(misfit_error(key));
            },
        }
        i += 1;
    }
    Ok(Some(list))
}

/// Reads the boolean under `key`: nothing where the table has no such key,
/// and an error that names the key where it holds anything but a boolean.
pub fn read_flag(table: &toml::value::Table, key: &str) -> (read: Result<Option<bool>, ConfigError>)
    ensures
        match read {
            Ok(flag) => !misfit(entries(*table), key@, Kind::Flag) && flag == flag_at(
                entries(*table),
                key@,
            ),
            Err(error) => misfit(entries(*table), key@, Kind::Flag) && error@
                == Failure::FileTomlParseFailed(misfit_message(key@)),
        },
{
    match get(table, key) {
        None => Ok(None),
        Some(value) => match as_bool(value) {
            Some(flag) => Ok(Some(flag)),
            None => Err(misfit_error(key)),
        },
    }
}

/// Reads the number under `key`: nothing where the table has no such key, and
/// an error that names the key where it holds anything but an integer from 0
/// to `u32::MAX`.
pub fn read_number(table: &toml::value::Table, key: &str) -> (read: Result<
    Option<u32>,
    ConfigError,
>)
    ensures
        match read {
            Ok(number) => !misfit(entries(*table), key@, Kind::Number) && number == number_at(
                entries(*table),
                key@,
            ),
            Err(error) => misfit(entries(*table), key@, Kind::Number) && error@
                == Failure::FileTomlParseFailed(misfit_message(key@)),
        },
{
    match get(table, key) {
        None => Ok(None),
        Some(value) => match as_integer(value) {
            Some(number) => if 0 <= number && number <= 0xffff_ffff {
                Ok(Some(number as u32))
            } else {
                Err(misfit_error(key))
            },
            None => Err(misfit_error(key)),
        },
    }
}

} // verus!

//! A plain model of the TOML values the configuration format uses, and the
//! trusted boundary that reads it out of `toml_edit`'s document tree.
//!
//! The configuration mapping works entirely on [`TomlValue`]; only the small
//! wrappers below touch `toml_edit` itself.

use vstd::prelude::*;

verus! {

/// A TOML value of one of the kinds the configuration format uses.  Tables
/// keep their entries in declaration order.
#[derive(Debug)]
pub enum TomlValue {
    Text(String),
    Integer(i64),
    Boolean(bool),
    Array(Vec<TomlValue>),
    Table(Vec<(String, TomlValue)>),
}

/// Why a piece of TOML text could not be turned into a [`TomlValue`].
#[derive(Debug, Clone)]
pub enum TomlReadError {
    /// The text is not well-formed TOML; carries the parser's message and,
    /// where known, the byte span of the offending text.
    Syntax { message: String, span: Option<(usize, usize)> },
    /// The text is well-formed but holds a value of a kind the
    /// configuration format does not use (a float, a date, a time).
    UnsupportedValue,
    /// Tables or arrays are nested deeper than the reader follows.
    TooDeep,
}

/// The first value bound to key `k`, scanning entries in order.
pub open spec fn lookup(es: Seq<(String, TomlValue)>, k: Seq<char>) -> Option<TomlValue>
    decreases es.len(),
{
    if es.len() == 0 {
        None
    } else if es[0].0@ == k {
        Some(es[0].1)
    } else {
        lookup(es.drop_first(), k)
    }
}

pub proof fn lemma_lookup_at(es: Seq<(String, TomlValue)>, k: Seq<char>, i: int)
    requires
        0 <= i < es.len(),
        forall|j: int| 0 <= j < i ==> (#[trigger] es[j]).0@ != k,
        es[i].0@ == k,
    ensures
        lookup(es, k) == Some(es[i].1),
    decreases i,
{
    if i > 0 {
        lemma_lookup_at(es.drop_first(), k, i - 1);
    }
}

pub proof fn lemma_lookup_none(es: Seq<(String, TomlValue)>, k: Seq<char>)
    requires
        forall|j: int| 0 <= j < es.len() ==> (#[trigger] es[j]).0@ != k,
    ensures
        lookup(es, k) is None,
    decreases es.len(),
{
    if es.len() > 0 {
        lemma_lookup_none(es.drop_first(), k);
    }
}

/// Finds the first entry bound to `k`, in entry order.
pub fn table_lookup<'a>(es: &'a Vec<(String, TomlValue)>, k: &str) -> (r: Option<&'a TomlValue>)
    ensures
        match r {
            Some(v) => lookup(es@, k@) == Some(*v),
            None => lookup(es@, k@) is None,
        },
{
    let mut i: usize = 0;
    while i < es.len()
        invariant
            i <= es@.len(),
            forall|j: int| 0 <= j < i ==> (#[trigger] es@[j]).0@ != k@,
        decreases es@.len() - i,
    {
        if crate::text::str_eq(es[i].0.as_str(), k) {
            proof {
                lemma_lookup_at(es@, k@, i as int);
            }
            return Some(&es[i].1);
        }
        i = i + 1;
    }
    proof {
        lemma_lookup_none(es@, k@);
    }
    None
}

/// Whether every key of `es` is one of `allowed`; used to reject unknown
/// configuration fields.
pub open spec fn keys_within(es: Seq<(String, TomlValue)>, allowed: Seq<Seq<char>>) -> bool {
    forall|i: int| 0 <= i < es.len() ==> allowed.contains((#[trigger] es[i]).0@)
}

/// Checks each key of `es` against `allowed`; returns the first key that is
/// not allowed, if any.
pub fn check_keys(es: &Vec<(String, TomlValue)>, allowed: &Vec<&str>) -> (r: Option<String>)
    ensures
        match r {
            None => keys_within(es@, allowed@.map_values(|a: &str| a@)),
            Some(k) => !keys_within(es@, allowed@.map_values(|a: &str| a@)),
        },
{
    let ghost allowed_views = allowed@.map_values(|a: &str| a@);
    let mut i: usize = 0;
    while i < es.len()
        invariant
            i <= es@.len(),
            allowed_views == allowed@.map_values(|a: &str| a@),
            forall|j: int| 0 <= j < i ==> allowed_views.contains((#[trigger] es@[j]).0@),
        decreases es@.len() - i,
    {
        let key = es[i].0.as_str();
        let mut found = false;
        let mut a: usize = 0;
        while a < allowed.len()
            invariant
                a <= allowed@.len(),
                allowed_views == allowed@.map_values(|x: &str| x@),
                found ==> allowed_views.contains(key@),
                !found ==> forall|b: int| 0 <= b < a ==> allowed_views[b] != key@,
            decreases allowed@.len() - a,
        {
            if crate::text::str_eq(key, allowed[a]) {
                proof {
                    assert(allowed_views[a as int] == key@);
                }
                found = true;
            }
            a = a + 1;
        }
        if !found {
            proof {
                assert(!allowed_views.contains(es@[i as int].0@));
            }
            return Some(crate::text::str_to_string(key));
        }
        i = i + 1;
    }
    None
}

#[verifier::external_type_specification]
#[verifier::external_body]
pub struct ExDocumentMut(toml_edit::DocumentMut);

#[verifier::external_type_specification]
#[verifier::external_body]
pub struct ExItem(toml_edit::Item);

#[verifier::external_type_specification]
#[verifier::external_body]
pub struct ExValue(toml_edit::Value);

#[verifier::external_type_specification]
#[verifier::external_body]
pub struct ExTable(toml_edit::Table);

/// Relies on `toml_edit`: `str::parse::<DocumentMut>` parses TOML text; on
/// failure, `TomlError::message` and `TomlError::span` describe the fault.
#[verifier::external_body]
fn parse_toml_doc(s: &str) -> (r: Result<toml_edit::DocumentMut, (String, Option<(usize, usize)>)>)
{
    match s.parse::<toml_edit::DocumentMut>() {
        Ok(d) => Ok(d),
        Err(e) => Err((e.message().to_owned(), e.span().map(|sp| (sp.start, sp.end)))),
    }
}

/// Relies on `toml_edit::DocumentMut::as_table` and `Table::iter`: the
/// document's root table entries, in document order.
#[verifier::external_body]
fn doc_entries<'a>(d: &'a toml_edit::DocumentMut) -> Vec<(String, &'a toml_edit::Item)> {
    d.as_table().iter().map(|(k, v)| (k.to_owned(), v)).collect()
}

/// Relies on `toml_edit::Item::as_value`.
#[verifier::external_body]
fn item_as_value<'a>(i: &'a toml_edit::Item) -> Option<&'a toml_edit::Value> {
    i.as_value()
}

/// Relies on `toml_edit::Item::as_table` and `Table::iter`.
#[verifier::external_body]
fn item_table_entries<'a>(i: &'a toml_edit::Item) -> Option<Vec<(String, &'a toml_edit::Item)>> {
    i.as_table().map(|t| t.iter().map(|(k, v)| (k.to_owned(), v)).collect())
}

/// Relies on `toml_edit::Item::as_array_of_tables` and its `iter`.
#[verifier::external_body]
fn item_aot_tables<'a>(i: &'a toml_edit::Item) -> Option<Vec<&'a toml_edit::Table>> {
    i.as_array_of_tables().map(|a| a.iter().collect())
}

/// Relies on `toml_edit::Table::iter`: the table's entries, in order.
#[verifier::external_body]
fn table_entries<'a>(t: &'a toml_edit::Table) -> Vec<(String, &'a toml_edit::Item)> {
    t.iter().map(|(k, v)| (k.to_owned(), v)).collect()
}

/// Relies on `toml_edit::Value::as_str`.
#[verifier::external_body]
fn value_as_str(v: &toml_edit::Value) -> Option<String> {
    v.as_str().map(|s| s.to_owned())
}

/// Relies on `toml_edit::Value::as_integer`.
#[verifier::external_body]
fn value_as_integer(v: &toml_edit::Value) -> Option<i64> {
    v.as_integer()
}

/// Relies on `toml_edit::Value::as_bool`.
#[verifier::external_body]
fn value_as_bool(v: &toml_edit::Value) -> Option<bool> {
    v.as_bool()
}

/// Relies on `toml_edit::Value::as_array` and `Array::iter`.
#[verifier::external_body]
fn value_array_items<'a>(v: &'a toml_edit::Value) -> Option<Vec<&'a toml_edit::Value>> {
    v.as_array().map(|a| a.iter().collect())
}

/// Relies on `toml_edit::Value::as_inline_table` and `InlineTable::iter`.
#[verifier::external_body]
fn value_table_entries<'a>(v: &'a toml_edit::Value) -> Option<
    Vec<(String, &'a toml_edit::Value)>,
> {
    v.as_inline_table().map(|t| t.iter().map(|(k, x)| (k.to_owned(), x)).collect())
}

/// How deep a document's tables and arrays are followed.
const MAX_DEPTH: u32 = 64;

fn value_to_toml(v: &toml_edit::Value, depth: u32) -> (r: Result<TomlValue, TomlReadError>)
    decreases depth, 0int,
{
    if depth == 0 {
        return Err(TomlReadError::TooDeep);
    }
    if let Some(s) = value_as_str(v) {
        return Ok(TomlValue::Text(s));
    }
    if let Some(n) = value_as_integer(v) {
        return Ok(TomlValue::Integer(n));
    }
    if let Some(b) = value_as_bool(v) {
        return Ok(TomlValue::Boolean(b));
    }
    if let Some(items) = value_array_items(v) {
        let mut out: Vec<TomlValue> = Vec::new();
        let mut i: usize = 0;
        while i < items.len()
            invariant
                depth >= 1,
            decreases items@.len() - i,
        {
            match value_to_toml(items[i], depth - 1) {
                Ok(x) => out.push(x),
                Err(e) => {
                    return Err(e);
                },
            }
            i = i + 1;
        }
        return Ok(TomlValue::Array(out));
    }
    if let Some(entries) = value_table_entries(v) {
        let mut out: Vec<(String, TomlValue)> = Vec::new();
        let mut i: usize = 0;
        while i < entries.len()
            invariant
                depth >= 1,
            decreases entries@.len() - i,
        {
            let key = crate::text::str_to_string(entries[i].0.as_str());
            match value_to_toml(entries[i].1, depth - 1) {
                Ok(x) => out.push((key, x)),
                Err(e) => {
                    return Err(e);
                },
            }
            i = i + 1;
        }
        return Ok(TomlValue::Table(out));
    }
    Err(TomlReadError::UnsupportedValue)
}

fn item_to_toml(i: &toml_edit::Item, depth: u32) -> (r: Result<TomlValue, TomlReadError>)
    decreases depth, 1int,
{
    if depth == 0 {
        return Err(TomlReadError::TooDeep);
    }
    if let Some(v) = item_as_value(i) {
        return value_to_toml(v, depth);
    }
    if let Some(entries) = item_table_entries(i) {
        return entries_to_toml(entries, depth);
    }
    if let Some(tables) = item_aot_tables(i) {
        let mut out: Vec<TomlValue> = Vec::new();
        let mut t: usize = 0;
        while t < tables.len()
            invariant
                depth >= 1,
            decreases tables@.len() - t,
        {
            match entries_to_toml(table_entries(tables[t]), depth - 1) {
                Ok(x) => out.push(x),
                Err(e) => {
                    return Err(e);
                },
            }
            t = t + 1;
        }
        return Ok(TomlValue::Array(out));
    }
    Err(TomlReadError::UnsupportedValue)
}

fn entries_to_toml(entries: Vec<(String, &toml_edit::Item)>, depth: u32) -> (r: Result<
    TomlValue,
    TomlReadError,
>)
    decreases depth, 0int,
{
    if depth == 0 {
        return Err(TomlReadError::TooDeep);
    }
    let mut out: Vec<(String, TomlValue)> = Vec::new();
    let mut i: usize = 0;
    while i < entries.len()
        invariant
            depth >= 1,
        decreases entries@.len() - i,
    {
        let key = crate::text::str_to_string(entries[i].0.as_str());
        match item_to_toml(entries[i].1, depth - 1) {
            Ok(x) => out.push((key, x)),
            Err(e) => {
                return Err(e);
            },
        }
        i = i + 1;
    }
    Ok(TomlValue::Table(out))
}

/// Parses TOML text into the plain value model.  The result is always a
/// `Table` on success.
pub fn toml_text_to_value(s: &str) -> (r: Result<TomlValue, TomlReadError>)
    ensures
        r matches Ok(v) ==> v is Table,
{
    let doc = match parse_toml_doc(s) {
        Ok(d) => d,
        Err((message, span)) => {
            return Err(TomlReadError::Syntax { message, span });
        },
    };
    let entries = doc_entries(&doc);
    let mut out: Vec<(String, TomlValue)> = Vec::new();
    let mut i: usize = 0;
    while i < entries.len()
        decreases entries@.len() - i,
    {
        let key = crate::text::str_to_string(entries[i].0.as_str());
        match item_to_toml(entries[i].1, MAX_DEPTH) {
            Ok(x) => out.push((key, x)),
            Err(e) => {
                return Err(e);
            },
        }
        i = i + 1;
    }
    Ok(TomlValue::Table(out))
}

} // verus!

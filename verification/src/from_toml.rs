//! The mapping from the plain TOML model to the configuration types, with
//! each field's acceptance condition stated exactly: unknown keys are
//! rejected, required keys must be present, and every leaf must have the
//! kind its field demands.

use vstd::prelude::*;
use crate::toml_data::{TomlValue, lookup, keys_within, table_lookup, check_keys};
use crate::text::{str_eq, str_to_string};
use crate::{User, Accounts, FileCopy, CommandConfig, TestRunner, Setup, Config};
use crate::packet::{Problem, Packet};
use crate::render::markdown::MarkdownRenderable;
use crate::language::{BuiltInLanguage, Language, LanguageSet, TomlLanguage, LanguageEntryError, Version};
use crate::roi::{RawOrImport, Raw};
use crate::packet::Test;

verus! {

/// The character sequence a `Text` value holds; arbitrary for other kinds.
pub open spec fn text_of(v: TomlValue) -> Seq<char>
    recommends
        v is Text,
{
    match v {
        TomlValue::Text(s) => s@,
        _ => Seq::empty(),
    }
}

/// Builds the message `before`key`after`, quoting the key in backticks.
pub fn key_message(before: &str, key: &str, after: &str) -> (r: String)
    ensures
        r@ == before@ + "`"@ + key@ + "`"@ + after@,
{
    let mut out = str_to_string(before);
    out.append("`");
    out.append(key);
    out.append("`");
    out.append(after);
    out
}

/// Whether `es` is a well-formed `user` table: both credentials present as
/// strings, and nothing else.
pub open spec fn user_ok(es: Seq<(String, TomlValue)>) -> bool {
    &&& lookup(es, "name"@) matches Some(n) && n is Text
    &&& lookup(es, "password"@) matches Some(p) && p is Text
    &&& keys_within(es, seq!["name"@, "password"@])
}

/// Reads one user out of a `{ name, password }` table.
pub fn user_from_toml(v: &TomlValue) -> (r: Result<User, String>)
    ensures
        match *v {
            TomlValue::Table(es) => {
                &&& r is Ok <==> user_ok(es@)
                &&& r matches Ok(u) ==> {
                    &&& u.name@ == text_of(lookup(es@, "name"@)->Some_0)
                    &&& u.password@ == text_of(lookup(es@, "password"@)->Some_0)
                }
            },
            _ => r is Err,
        },
{
    let es = match v {
        TomlValue::Table(es) => es,
        _ => {
            return Err(str_to_string("expected a table of user credentials"));
        },
    };
    let allowed = vec!["name", "password"];
    proof {
        assert(allowed@.map_values(|a: &str| a@) =~= seq!["name"@, "password"@]);
    }
    if let Some(k) = check_keys(es, &allowed) {
        return Err(key_message("unknown key ", k.as_str(), " in user table"));
    }
    let name = match table_lookup(es, "name") {
        Some(TomlValue::Text(s)) => str_to_string(s.as_str()),
        _ => {
            return Err(str_to_string("a user needs a `name` string"));
        },
    };
    let password = match table_lookup(es, "password") {
        Some(TomlValue::Text(s)) => str_to_string(s.as_str()),
        _ => {
            return Err(str_to_string("a user needs a `password` string"));
        },
    };
    Ok(User { name, password })
}

/// Whether `v` is a well-formed array of user tables.
pub open spec fn user_array_ok(v: TomlValue) -> bool {
    &&& v matches TomlValue::Array(items)
    &&& forall|i: int|
        0 <= i < items@.len() ==> ((#[trigger] items@[i]) matches TomlValue::Table(es)
            && user_ok(es@))
}

/// Reads an array of user tables.
pub fn users_from_toml(v: &TomlValue) -> (r: Result<Vec<User>, String>)
    ensures
        r is Ok <==> user_array_ok(*v),
        r matches Ok(us) ==> users_rel(*v, us@),
{
    let items = match v {
        TomlValue::Array(items) => items,
        _ => {
            return Err(str_to_string("expected an array of user tables"));
        },
    };
    let mut out: Vec<User> = Vec::new();
    let mut i: usize = 0;
    while i < items.len()
        invariant
            i <= items@.len(),
            out@.len() == i,
            *v matches TomlValue::Array(x) && x@ == items@,
            forall|j: int|
                0 <= j < i ==> ((#[trigger] items@[j]) matches TomlValue::Table(es)
                    && user_ok(es@)),
            forall|j: int|
                0 <= j < i ==> ((#[trigger] items@[j]) matches TomlValue::Table(es)
                    && out@[j].name@ == text_of(lookup(es@, "name"@)->Some_0) && out@[j].password@
                    == text_of(lookup(es@, "password"@)->Some_0)),
        decreases items@.len() - i,
    {
        match user_from_toml(&items[i]) {
            Ok(u) => out.push(u),
            Err(e) => {
                proof {
                    assert(!(items@[i as int] matches TomlValue::Table(es) && user_ok(es@)));
                }
                return Err(e);
            },
        }
        i = i + 1;
    }
    Ok(out)
}

/// How a parsed user list relates to its array: one user per table, the
/// credential strings carried over.
pub open spec fn users_rel(v: TomlValue, us: Seq<User>) -> bool {
    &&& v matches TomlValue::Array(items)
    &&& us.len() == items@.len()
    &&& forall|i: int|
        0 <= i < items@.len() ==> ((#[trigger] items@[i]) matches TomlValue::Table(es) && us[i].name@
            == text_of(lookup(es@, "name"@)->Some_0) && us[i].password@ == text_of(
            lookup(es@, "password"@)->Some_0,
        ))
}

/// How a parsed accounts value relates to its table.
pub open spec fn accounts_rel(es: Seq<(String, TomlValue)>, a: Accounts) -> bool {
    &&& lookup(es, "admins"@) matches Some(av) && users_rel(av, a.admins@)
    &&& lookup(es, "competitors"@) matches Some(cv) && users_rel(cv, a.competitors@)
}

/// Whether `es` is a well-formed test table: `input` and `output` strings,
/// an optional `visible` boolean, and nothing else.
pub open spec fn test_ok(es: Seq<(String, TomlValue)>) -> bool {
    &&& lookup(es, "input"@) matches Some(n) && n is Text
    &&& lookup(es, "output"@) matches Some(p) && p is Text
    &&& match lookup(es, "visible"@) {
        Some(b) => b is Boolean,
        None => true,
    }
    &&& keys_within(es, seq!["input"@, "output"@, "visible"@])
}

/// Reads one test out of a `{ input, output, visible? }` table; `visible`
/// defaults to false.
pub fn test_from_toml(v: &TomlValue) -> (r: Result<Test, String>)
    ensures
        match *v {
            TomlValue::Table(es) => {
                &&& r is Ok <==> test_ok(es@)
                &&& r matches Ok(t) ==> {
                    &&& t.input@ == text_of(lookup(es@, "input"@)->Some_0)
                    &&& t.output@ == text_of(lookup(es@, "output"@)->Some_0)
                    &&& t.visible == (match lookup(es@, "visible"@) {
                        Some(TomlValue::Boolean(b)) => b,
                        _ => false,
                    })
                }
            },
            _ => r is Err,
        },
{
    let es = match v {
        TomlValue::Table(es) => es,
        _ => {
            return Err(str_to_string("expected a test table"));
        },
    };
    let allowed = vec!["input", "output", "visible"];
    proof {
        assert(allowed@.map_values(|a: &str| a@) =~= seq!["input"@, "output"@, "visible"@]);
    }
    if let Some(k) = check_keys(es, &allowed) {
        return Err(key_message("unknown key ", k.as_str(), " in test table"));
    }
    let input = match table_lookup(es, "input") {
        Some(TomlValue::Text(s)) => str_to_string(s.as_str()),
        _ => {
            return Err(str_to_string("a test needs an `input` string"));
        },
    };
    let output = match table_lookup(es, "output") {
        Some(TomlValue::Text(s)) => str_to_string(s.as_str()),
        _ => {
            return Err(str_to_string("a test needs an `output` string"));
        },
    };
    let visible = match table_lookup(es, "visible") {
        Some(TomlValue::Boolean(b)) => *b,
        Some(_) => {
            return Err(str_to_string("`visible` must be a boolean"));
        },
        None => default_visible(),
    };
    Ok(Test { input, output, visible })
}

fn default_visible() -> (r: bool)
    ensures
        !r,
{
    crate::default_false()
}

} // verus!

verus! {

/// The import path of a `{ import = "..." }` table, and `None` for every
/// other shape.  A table with any other key beside `import` is not an
/// import reference.
pub open spec fn import_of(v: TomlValue) -> Option<Seq<char>> {
    match v {
        TomlValue::Table(es) => if es@.len() == 1 && es@[0].0@ == "import"@ && es@[0].1 is Text {
            Some(text_of(es@[0].1))
        } else {
            None
        },
        _ => None,
    }
}

/// Recognises the `{ import = "..." }` form.
pub fn import_path_of(v: &TomlValue) -> (r: Option<String>)
    ensures
        match r {
            Some(p) => import_of(*v) matches Some(q) && p@ == q,
            None => import_of(*v) is None,
        },
{
    match v {
        TomlValue::Table(es) => {
            if es.len() == 1 {
                let (k, inner) = &es[0];
                if str_eq(k.as_str(), "import") {
                    if let TomlValue::Text(s) = inner {
                        return Some(str_to_string(s.as_str()));
                    }
                }
            }
            None
        },
        _ => None,
    }
}

/// Whether `v` is a well-formed limit: a single non-negative integer, or a
/// table holding `compile` and/or `run` non-negative integers and nothing
/// else.
pub open spec fn ccfg_ok(v: TomlValue) -> bool {
    match v {
        TomlValue::Integer(n) => n >= 0,
        TomlValue::Table(es) => {
            &&& keys_within(es@, seq!["compile"@, "run"@])
            &&& match lookup(es@, "compile"@) {
                Some(c) => c matches TomlValue::Integer(n) && n >= 0,
                None => true,
            }
            &&& match lookup(es@, "run"@) {
                Some(c) => c matches TomlValue::Integer(n) && n >= 0,
                None => true,
            }
            &&& (lookup(es@, "compile"@) is Some || lookup(es@, "run"@) is Some)
        },
        _ => false,
    }
}

/// The limit `v` describes.
pub open spec fn ccfg_of(v: TomlValue) -> CommandConfig<u64>
    recommends
        ccfg_ok(v),
{
    match v {
        TomlValue::Integer(n) => CommandConfig::Both(n as u64),
        TomlValue::Table(es) => match (lookup(es@, "compile"@), lookup(es@, "run"@)) {
            (Some(TomlValue::Integer(c)), Some(TomlValue::Integer(r))) => CommandConfig::Each {
                compile: c as u64,
                run: r as u64,
            },
            (Some(TomlValue::Integer(c)), _) => CommandConfig::Compile { compile: c as u64 },
            (_, Some(TomlValue::Integer(r))) => CommandConfig::Run { run: r as u64 },
            _ => CommandConfig::Neither,
        },
        _ => CommandConfig::Neither,
    }
}

/// Reads one limit: a bare integer applies to both steps; a table names the
/// steps it limits.
pub fn command_config_from_toml(v: &TomlValue) -> (r: Result<CommandConfig<u64>, String>)
    ensures
        r is Ok <==> ccfg_ok(*v),
        r matches Ok(c) ==> c == ccfg_of(*v),
{
    match v {
        TomlValue::Integer(n) => {
            if *n >= 0 {
                Ok(CommandConfig::Both(*n as u64))
            } else {
                Err(str_to_string("a limit must not be negative"))
            }
        },
        TomlValue::Table(es) => {
            let allowed = vec!["compile", "run"];
            proof {
                assert(allowed@.map_values(|a: &str| a@) =~= seq!["compile"@, "run"@]);
            }
            if let Some(k) = check_keys(es, &allowed) {
                return Err(key_message("unknown key ", k.as_str(), " in limit table"));
            }
            let compile: Option<u64> = match table_lookup(es, "compile") {
                Some(TomlValue::Integer(n)) => {
                    if *n >= 0 {
                        Some(*n as u64)
                    } else {
                        return Err(str_to_string("a limit must not be negative"));
                    }
                },
                Some(_) => {
                    return Err(str_to_string("`compile` must be an integer limit"));
                },
                None => None,
            };
            let run: Option<u64> = match table_lookup(es, "run") {
                Some(TomlValue::Integer(n)) => {
                    if *n >= 0 {
                        Some(*n as u64)
                    } else {
                        return Err(str_to_string("a limit must not be negative"));
                    }
                },
                Some(_) => {
                    return Err(str_to_string("`run` must be an integer limit"));
                },
                None => None,
            };
            match (compile, run) {
                (Some(compile), Some(run)) => Ok(CommandConfig::Each { compile, run }),
                (Some(compile), None) => Ok(CommandConfig::Compile { compile }),
                (None, Some(run)) => Ok(CommandConfig::Run { run }),
                (None, None) => Err(
                    str_to_string("a limit table needs `compile`, `run`, or both"),
                ),
            }
        },
        _ => Err(str_to_string("a limit is an integer or a `{ compile, run }` table")),
    }
}

/// Whether `es` is a well-formed file-copy table: `from` and `to` strings
/// and nothing else.
pub open spec fn file_copy_ok(es: Seq<(String, TomlValue)>) -> bool {
    &&& lookup(es, "from"@) matches Some(n) && n is Text
    &&& lookup(es, "to"@) matches Some(p) && p is Text
    &&& keys_within(es, seq!["from"@, "to"@])
}

/// Reads one `{ from, to }` file copy.
pub fn file_copy_from_toml(v: &TomlValue) -> (r: Result<FileCopy, String>)
    ensures
        match *v {
            TomlValue::Table(es) => {
                &&& r is Ok <==> file_copy_ok(es@)
                &&& r matches Ok(f) ==> {
                    &&& f.from@ == text_of(lookup(es@, "from"@)->Some_0)
                    &&& f.to@ == text_of(lookup(es@, "to"@)->Some_0)
                }
            },
            _ => r is Err,
        },
{
    let es = match v {
        TomlValue::Table(es) => es,
        _ => {
            return Err(str_to_string("expected a `{ from, to }` table"));
        },
    };
    let allowed = vec!["from", "to"];
    proof {
        assert(allowed@.map_values(|a: &str| a@) =~= seq!["from"@, "to"@]);
    }
    if let Some(k) = check_keys(es, &allowed) {
        return Err(key_message("unknown key ", k.as_str(), " in file-copy table"));
    }
    let from = match table_lookup(es, "from") {
        Some(TomlValue::Text(s)) => str_to_string(s.as_str()),
        _ => {
            return Err(str_to_string("a file copy needs a `from` path"));
        },
    };
    let to = match table_lookup(es, "to") {
        Some(TomlValue::Text(s)) => str_to_string(s.as_str()),
        _ => {
            return Err(str_to_string("a file copy needs a `to` path"));
        },
    };
    Ok(FileCopy { from, to })
}

/// How a parsed file-copy list relates to its array.
pub open spec fn copies_rel(v: TomlValue, fs: Seq<FileCopy>) -> bool {
    &&& v matches TomlValue::Array(items)
    &&& fs.len() == items@.len()
    &&& forall|i: int|
        0 <= i < items@.len() ==> ((#[trigger] items@[i]) matches TomlValue::Table(es) && fs[i].from@
            == text_of(lookup(es@, "from"@)->Some_0) && fs[i].to@ == text_of(
            lookup(es@, "to"@)->Some_0,
        ))
}

/// Whether `v` is a well-formed array of file-copy tables.
pub open spec fn file_copy_array_ok(v: TomlValue) -> bool {
    &&& v matches TomlValue::Array(items)
    &&& forall|i: int|
        0 <= i < items@.len() ==> ((#[trigger] items@[i]) matches TomlValue::Table(es)
            && file_copy_ok(es@))
}

/// Reads an array of file-copy tables.
pub fn file_copies_from_toml(v: &TomlValue) -> (r: Result<Vec<FileCopy>, String>)
    ensures
        r is Ok <==> file_copy_array_ok(*v),
        r matches Ok(fs) ==> copies_rel(*v, fs@),
{
    let items = match v {
        TomlValue::Array(items) => items,
        _ => {
            return Err(str_to_string("expected an array of file copies"));
        },
    };
    let mut out: Vec<FileCopy> = Vec::new();
    let mut i: usize = 0;
    while i < items.len()
        invariant
            i <= items@.len(),
            out@.len() == i,
            *v matches TomlValue::Array(x) && x@ == items@,
            forall|j: int|
                0 <= j < i ==> ((#[trigger] items@[j]) matches TomlValue::Table(es)
                    && file_copy_ok(es@)),
            forall|j: int|
                0 <= j < i ==> ((#[trigger] items@[j]) matches TomlValue::Table(es)
                    && out@[j].from@ == text_of(lookup(es@, "from"@)->Some_0) && out@[j].to@
                    == text_of(lookup(es@, "to"@)->Some_0)),
        decreases items@.len() - i,
    {
        match file_copy_from_toml(&items[i]) {
            Ok(f) => out.push(f),
            Err(e) => {
                proof {
                    assert(!(items@[i as int] matches TomlValue::Table(es) && file_copy_ok(es@)));
                }
                return Err(e);
            },
        }
        i = i + 1;
    }
    Ok(out)
}

/// Whether `es` is a well-formed test-runner table.
pub open spec fn runner_ok(es: Seq<(String, TomlValue)>) -> bool {
    &&& keys_within(
        es,
        seq!["timeout_ms"@, "trim_output"@, "copy_files"@, "max_memory"@, "max_file_size"@],
    )
    &&& match lookup(es, "timeout_ms"@) {
        Some(t) => t matches TomlValue::Integer(n) && n >= 0,
        None => true,
    }
    &&& match lookup(es, "trim_output"@) {
        Some(t) => t is Boolean,
        None => true,
    }
    &&& match lookup(es, "copy_files"@) {
        Some(t) => file_copy_array_ok(t),
        None => true,
    }
    &&& match lookup(es, "max_memory"@) {
        Some(t) => ccfg_ok(t),
        None => true,
    }
    &&& match lookup(es, "max_file_size"@) {
        Some(t) => ccfg_ok(t),
        None => true,
    }
}

/// How a parsed test runner relates to its table: every field either
/// carried over or at its default.
pub open spec fn runner_rel(es: Seq<(String, TomlValue)>, t: TestRunner) -> bool {
    &&& t.timeout == (match lookup(es, "timeout_ms"@) {
        Some(TomlValue::Integer(n)) => n as u64,
        _ => 10000u64,
    })
    &&& t.trim_output == (match lookup(es, "trim_output"@) {
        Some(TomlValue::Boolean(b)) => b,
        _ => true,
    })
    &&& (lookup(es, "max_memory"@) matches Some(m) ==> t.max_memory == ccfg_of(m))
    &&& (lookup(es, "max_memory"@) is None ==> t.max_memory is Neither)
    &&& (lookup(es, "max_file_size"@) matches Some(m) ==> t.max_file_size == ccfg_of(m))
    &&& (lookup(es, "max_file_size"@) is None ==> t.max_file_size is Neither)
    &&& (lookup(es, "copy_files"@) matches Some(cf) ==> copies_rel(cf, t.copy_files@))
    &&& (lookup(es, "copy_files"@) is None ==> t.copy_files@.len() == 0)
}

/// Reads the test-runner table; every field has a default.
pub fn test_runner_from_toml(v: &TomlValue) -> (r: Result<TestRunner, String>)
    ensures
        match *v {
            TomlValue::Table(es) => {
                &&& r is Ok <==> runner_ok(es@)
                &&& r matches Ok(t) ==> runner_rel(es@, t)
            },
            _ => r is Err,
        },
{
    let es = match v {
        TomlValue::Table(es) => es,
        _ => {
            return Err(str_to_string("expected a test-runner table"));
        },
    };
    let allowed = vec!["timeout_ms", "trim_output", "copy_files", "max_memory", "max_file_size"];
    proof {
        assert(allowed@.map_values(|a: &str| a@) =~= seq![
            "timeout_ms"@,
            "trim_output"@,
            "copy_files"@,
            "max_memory"@,
            "max_file_size"@,
        ]);
    }
    if let Some(k) = check_keys(es, &allowed) {
        return Err(key_message("unknown key ", k.as_str(), " in test-runner table"));
    }
    let timeout: u64 = match table_lookup(es, "timeout_ms") {
        Some(TomlValue::Integer(n)) => {
            if *n >= 0 {
                *n as u64
            } else {
                return Err(str_to_string("`timeout_ms` must not be negative"));
            }
        },
        Some(_) => {
            return Err(str_to_string("`timeout_ms` must be an integer"));
        },
        None => TestRunner::default_timeout(),
    };
    let trim_output = match table_lookup(es, "trim_output") {
        Some(TomlValue::Boolean(b)) => *b,
        Some(_) => {
            return Err(str_to_string("`trim_output` must be a boolean"));
        },
        None => TestRunner::default_trim_output(),
    };
    let copy_files = match table_lookup(es, "copy_files") {
        Some(t) => match file_copies_from_toml(t) {
            Ok(fs) => fs,
            Err(e) => {
                return Err(e);
            },
        },
        None => Vec::new(),
    };
    let max_memory = match table_lookup(es, "max_memory") {
        Some(t) => match command_config_from_toml(t) {
            Ok(c) => c,
            Err(e) => {
                return Err(e);
            },
        },
        None => CommandConfig::Neither,
    };
    let max_file_size = match table_lookup(es, "max_file_size") {
        Some(t) => match command_config_from_toml(t) {
            Ok(c) => c,
            Err(e) => {
                return Err(e);
            },
        },
        None => CommandConfig::Neither,
    };
    Ok(TestRunner { timeout, trim_output, copy_files, max_memory, max_file_size })
}

} // verus!

verus! {

/// Whether `v` can fill a text-valued field that may also be imported:
/// either a string in place, or an `{ import = "..." }` reference.
pub open spec fn roi_text_ok(v: TomlValue) -> bool {
    v is Text || import_of(v) is Some
}

/// How a filled text slot relates to the TOML it was read from: a string
/// stays in place, an import reference keeps its path.
pub open spec fn roi_string_rel(v: TomlValue, x: RawOrImport<String, Raw>) -> bool {
    match x {
        RawOrImport::Value(s) => v matches TomlValue::Text(t) && s@ == t@,
        RawOrImport::Import(p, _) => import_of(v) matches Some(q) && p@ == q,
    }
}

/// How a filled markup slot relates to the TOML it was read from.
pub open spec fn roi_markdown_rel(v: TomlValue, x: RawOrImport<MarkdownRenderable, Raw>) -> bool {
    match x {
        RawOrImport::Value(m) => v matches TomlValue::Text(t) && m@ == t@,
        RawOrImport::Import(p, _) => import_of(v) matches Some(q) && p@ == q,
    }
}

/// Reads a text-or-import field into a raw-mode import wrapper.
pub fn roi_string_from_toml(v: &TomlValue) -> (r: Result<RawOrImport<String, Raw>, String>)
    ensures
        r is Ok <==> roi_text_ok(*v),
        r matches Ok(x) ==> roi_string_rel(*v, x),
{
    if let Some(p) = import_path_of(v) {
        return Ok(RawOrImport::of_import(p));
    }
    match v {
        TomlValue::Text(s) => Ok(RawOrImport::of_value(str_to_string(s.as_str()))),
        _ => Err(str_to_string("expected a string or an `{ import = \"...\" }` table")),
    }
}

/// Reads a markup-text-or-import field.
pub fn roi_markdown_from_toml(v: &TomlValue) -> (r: Result<
    RawOrImport<MarkdownRenderable, Raw>,
    String,
>)
    ensures
        r is Ok <==> roi_text_ok(*v),
        r matches Ok(x) ==> roi_markdown_rel(*v, x),
{
    if let Some(p) = import_path_of(v) {
        return Ok(RawOrImport::of_import(p));
    }
    match v {
        TomlValue::Text(s) => Ok(
            RawOrImport::of_value(MarkdownRenderable::from_raw(str_to_string(s.as_str()))),
        ),
        _ => Err(str_to_string("expected markup text or an `{ import = \"...\" }` table")),
    }
}

/// Whether `es` is a well-formed setup table: optional `install` and
/// `init`, each text or an import, and nothing else.
pub open spec fn setup_ok(es: Seq<(String, TomlValue)>) -> bool {
    &&& keys_within(es, seq!["install"@, "init"@])
    &&& match lookup(es, "install"@) {
        Some(t) => roi_text_ok(t),
        None => true,
    }
    &&& match lookup(es, "init"@) {
        Some(t) => roi_text_ok(t),
        None => true,
    }
}

/// How a parsed setup relates to its table.
pub open spec fn setup_rel(es: Seq<(String, TomlValue)>, s: Setup) -> bool {
    &&& (s.install is Some <==> lookup(es, "install"@) is Some)
    &&& (s.init is Some <==> lookup(es, "init"@) is Some)
    &&& (s.install matches Some(x) ==> roi_string_rel(lookup(es, "install"@)->Some_0, x))
    &&& (s.init matches Some(x) ==> roi_string_rel(lookup(es, "init"@)->Some_0, x))
}

/// Reads the setup table.
pub fn setup_from_toml(v: &TomlValue) -> (r: Result<Setup, String>)
    ensures
        match *v {
            TomlValue::Table(es) => {
                &&& r is Ok <==> setup_ok(es@)
                &&& r matches Ok(s) ==> setup_rel(es@, s)
            },
            _ => r is Err,
        },
{
    let es = match v {
        TomlValue::Table(es) => es,
        _ => {
            return Err(str_to_string("expected a setup table"));
        },
    };
    let allowed = vec!["install", "init"];
    proof {
        assert(allowed@.map_values(|a: &str| a@) =~= seq!["install"@, "init"@]);
    }
    if let Some(k) = check_keys(es, &allowed) {
        return Err(key_message("unknown key ", k.as_str(), " in setup table"));
    }
    let install = match table_lookup(es, "install") {
        Some(t) => match roi_string_from_toml(t) {
            Ok(x) => Some(x),
            Err(e) => {
                return Err(e);
            },
        },
        None => None,
    };
    let init = match table_lookup(es, "init") {
        Some(t) => match roi_string_from_toml(t) {
            Ok(x) => Some(x),
            Err(e) => {
                return Err(e);
            },
        },
        None => None,
    };
    Ok(Setup { install, init })
}

/// Whether `v` is an array of strings.
pub open spec fn text_array_ok(v: TomlValue) -> bool {
    &&& v matches TomlValue::Array(items)
    &&& forall|i: int| 0 <= i < items@.len() ==> (#[trigger] items@[i]) is Text
}

/// Whether no two strings of the list read the same.
pub open spec fn texts_unique(ts: Seq<String>) -> bool {
    forall|i: int, j: int| 0 <= i < j < ts.len() ==> (#[trigger] ts[i])@ != (#[trigger] ts[j])@
}

/// Whether the array holds a `Text` entry reading `t`.
pub open spec fn array_has_text(v: TomlValue, t: Seq<char>) -> bool {
    v matches TomlValue::Array(items) && exists|k: int|
        0 <= k < items@.len() && ((#[trigger] items@[k]) matches TomlValue::Text(s) && s@ == t)
}

/// Whether the list holds a string reading `t`.
pub open spec fn list_has_text(ts: Seq<String>, t: Seq<char>) -> bool {
    exists|i: int| 0 <= i < ts.len() && (#[trigger] ts[i])@ == t
}

/// Whether the list already holds a string reading like `s`.
fn texts_contain(ts: &Vec<String>, s: &str) -> (r: bool)
    ensures
        r == list_has_text(ts@, s@),
{
    let mut i: usize = 0;
    while i < ts.len()
        invariant
            i <= ts@.len(),
            forall|j: int| 0 <= j < i ==> (#[trigger] ts@[j])@ != s@,
        decreases ts@.len() - i,
    {
        if str_eq(ts[i].as_str(), s) {
            proof {
                assert(0 <= i < ts@.len() && ts@[i as int]@ == s@);
            }
            return true;
        }
        i = i + 1;
    }
    false
}

/// Reads an array of strings as a set: duplicates collapse onto their
/// first occurrence, as the original set-valued field demands, and the
/// result holds exactly the strings the array holds.
pub fn texts_from_toml(v: &TomlValue) -> (r: Result<Vec<String>, String>)
    ensures
        r is Ok <==> text_array_ok(*v),
        r matches Ok(ts) ==> {
            &&& texts_unique(ts@)
            &&& forall|i: int| 0 <= i < ts@.len() ==> array_has_text(*v, (#[trigger] ts@[i])@)
            &&& *v matches TomlValue::Array(items) && forall|k: int|
                0 <= k < items@.len() ==> ((#[trigger] items@[k]) matches TomlValue::Text(s)
                    && list_has_text(ts@, s@))
        },
{
    let items = match v {
        TomlValue::Array(items) => items,
        _ => {
            return Err(str_to_string("expected an array of strings"));
        },
    };
    let mut out: Vec<String> = Vec::new();
    let mut i: usize = 0;
    while i < items.len()
        invariant
            i <= items@.len(),
            *v matches TomlValue::Array(x) && x@ == items@,
            texts_unique(out@),
            forall|j: int| 0 <= j < i ==> (#[trigger] items@[j]) is Text,
            forall|j: int| 0 <= j < out@.len() ==> array_has_text(*v, (#[trigger] out@[j])@),
            forall|k: int|
                0 <= k < i ==> ((#[trigger] items@[k]) matches TomlValue::Text(s)
                    && list_has_text(out@, s@)),
        decreases items@.len() - i,
    {
        match &items[i] {
            TomlValue::Text(s) => {
                if !texts_contain(&out, s.as_str()) {
                    let ghost out_before = out@;
                    out.push(str_to_string(s.as_str()));
                    proof {
                        assert(out@ =~= out_before.push(out@[out@.len() - 1]));
                        assert(out@[out@.len() - 1]@ == s@);
                        assert(items@[i as int] matches TomlValue::Text(t) && t@ == s@);
                        assert(array_has_text(*v, s@));
                        assert forall|a: int, b: int|
                            0 <= a < b < out@.len() implies (#[trigger] out@[a])@ != (
                        #[trigger] out@[b])@ by {
                            if b < out_before.len() {
                                assert(out_before[a]@ != out_before[b]@);
                            } else {
                                assert(!list_has_text(out_before, s@));
                                assert(out@[a] == out_before[a]);
                            }
                        }
                        assert forall|k: int|
                            0 <= k < i + 1 implies ((#[trigger] items@[k]) matches
                        TomlValue::Text(t) && list_has_text(out@, t@)) by {
                            if k < i {
                                assert(items@[k] matches TomlValue::Text(t) && list_has_text(
                                    out_before,
                                    t@,
                                ));
                                let w = choose|w: int|
                                    0 <= w < out_before.len() && (#[trigger] out_before[w])@
                                        == items@[k]->Text_0@;
                                assert(out@[w]@ == items@[k]->Text_0@);
                            } else {
                                assert(out@[out@.len() - 1]@ == s@);
                            }
                        }
                    }
                } else {
                    proof {
                        assert(items@[i as int] matches TomlValue::Text(t) && t@ == s@);
                    }
                }
            },
            _ => {
                return Err(str_to_string("expected an array of strings"));
            },
        }
        i = i + 1;
    }
    Ok(out)
}

/// Whether `es` is a well-formed problem table: a `title` string, optional
/// `languages` strings, an optional text-or-import `description`, a `tests`
/// array, and nothing else.
pub open spec fn problem_ok(es: Seq<(String, TomlValue)>) -> bool {
    &&& keys_within(es, seq!["languages"@, "title"@, "description"@, "tests"@])
    &&& lookup(es, "title"@) matches Some(t) && t is Text
    &&& match lookup(es, "languages"@) {
        Some(t) => text_array_ok(t),
        None => true,
    }
    &&& match lookup(es, "description"@) {
        Some(t) => roi_text_ok(t),
        None => true,
    }
    &&& lookup(es, "tests"@) matches Some(t) && test_array_ok(t)
}

/// How a parsed test list relates to its array.
pub open spec fn tests_rel(v: TomlValue, ts: Seq<Test>) -> bool {
    &&& v matches TomlValue::Array(items)
    &&& ts.len() == items@.len()
    &&& forall|i: int|
        0 <= i < items@.len() ==> ((#[trigger] items@[i]) matches TomlValue::Table(es) && ts[i].input@
            == text_of(lookup(es@, "input"@)->Some_0) && ts[i].output@ == text_of(
            lookup(es@, "output"@)->Some_0,
        ) && ts[i].visible == (match lookup(es@, "visible"@) {
            Some(TomlValue::Boolean(b)) => b,
            _ => false,
        }))
}

/// Whether `v` is an array of well-formed test tables.
pub open spec fn test_array_ok(v: TomlValue) -> bool {
    &&& v matches TomlValue::Array(items)
    &&& forall|i: int|
        0 <= i < items@.len() ==> ((#[trigger] items@[i]) matches TomlValue::Table(es)
            && test_ok(es@))
}

/// Reads an array of test tables.
pub fn tests_from_toml(v: &TomlValue) -> (r: Result<Vec<Test>, String>)
    ensures
        r is Ok <==> test_array_ok(*v),
        r matches Ok(ts) ==> tests_rel(*v, ts@),
{
    let items = match v {
        TomlValue::Array(items) => items,
        _ => {
            return Err(str_to_string("expected an array of tests"));
        },
    };
    let mut out: Vec<Test> = Vec::new();
    let mut i: usize = 0;
    while i < items.len()
        invariant
            i <= items@.len(),
            out@.len() == i,
            *v matches TomlValue::Array(x) && x@ == items@,
            forall|j: int|
                0 <= j < i ==> ((#[trigger] items@[j]) matches TomlValue::Table(es)
                    && test_ok(es@)),
            forall|j: int|
                0 <= j < i ==> ((#[trigger] items@[j]) matches TomlValue::Table(es)
                    && out@[j].input@ == text_of(lookup(es@, "input"@)->Some_0) && out@[j].output@
                    == text_of(lookup(es@, "output"@)->Some_0) && out@[j].visible == (match lookup(
                    es@,
                    "visible"@,
                ) {
                    Some(TomlValue::Boolean(b)) => b,
                    _ => false,
                })),
        decreases items@.len() - i,
    {
        match test_from_toml(&items[i]) {
            Ok(t) => out.push(t),
            Err(e) => {
                proof {
                    assert(!(items@[i as int] matches TomlValue::Table(es) && test_ok(es@)));
                }
                return Err(e);
            },
        }
        i = i + 1;
    }
    Ok(out)
}

/// Reads one problem table.
pub fn problem_from_toml(v: &TomlValue) -> (r: Result<Problem, String>)
    ensures
        match *v {
            TomlValue::Table(es) => {
                &&& r is Ok <==> problem_ok(es@)
                &&& r matches Ok(p) ==> problem_rel(es@, p)
            },
            _ => r is Err,
        },
{
    let es = match v {
        TomlValue::Table(es) => es,
        _ => {
            return Err(str_to_string("expected a problem table"));
        },
    };
    let allowed = vec!["languages", "title", "description", "tests"];
    proof {
        assert(allowed@.map_values(|a: &str| a@) =~= seq![
            "languages"@,
            "title"@,
            "description"@,
            "tests"@,
        ]);
    }
    if let Some(k) = check_keys(es, &allowed) {
        return Err(key_message("unknown key ", k.as_str(), " in problem table"));
    }
    let title = match table_lookup(es, "title") {
        Some(TomlValue::Text(s)) => str_to_string(s.as_str()),
        _ => {
            return Err(str_to_string("a problem needs a `title` string"));
        },
    };
    let languages = match table_lookup(es, "languages") {
        Some(t) => match texts_from_toml(t) {
            Ok(ls) => Some(ls),
            Err(e) => {
                return Err(e);
            },
        },
        None => None,
    };
    let description = match table_lookup(es, "description") {
        Some(t) => match roi_markdown_from_toml(t) {
            Ok(d) => Some(d),
            Err(e) => {
                return Err(e);
            },
        },
        None => None,
    };
    let tests = match table_lookup(es, "tests") {
        Some(t) => match tests_from_toml(t) {
            Ok(ts) => ts,
            Err(e) => {
                return Err(e);
            },
        },
        None => {
            return Err(str_to_string("a problem needs a `tests` array"));
        },
    };
    Ok(Problem { languages, title, description, tests })
}

/// How a parsed problem relates to its table.
pub open spec fn problem_rel(es: Seq<(String, TomlValue)>, p: Problem) -> bool {
    &&& p.title@ == text_of(lookup(es, "title"@)->Some_0)
    &&& (p.languages is Some <==> lookup(es, "languages"@) is Some)
    &&& (p.languages matches Some(ls) ==> (texts_unique(ls@) && (lookup(es, "languages"@) matches
        Some(lv) && forall|i: int| 0 <= i < ls@.len() ==> array_has_text(lv, (#[trigger] ls@[i])@))))
    &&& (p.description is Some <==> lookup(es, "description"@) is Some)
    &&& (p.description matches Some(d) ==> roi_markdown_rel(lookup(es, "description"@)->Some_0, d))
    &&& (lookup(es, "tests"@) matches Some(t) ==> tests_rel(t, p.tests@))
}

/// How one parsed problem slot relates to its value: an import keeps its
/// path, an in-place table its parsed problem.
pub open spec fn problem_slot_rel(v: TomlValue, x: RawOrImport<Problem>) -> bool {
    match import_of(v) {
        Some(q) => x matches RawOrImport::Import(p, _) && p@ == q,
        None => v matches TomlValue::Table(es) && (x matches RawOrImport::Value(p) && problem_rel(
            es@,
            p,
        )),
    }
}

/// Whether `v` can fill a problem slot: a problem table in place, or an
/// import reference.
pub open spec fn problem_slot_ok(v: TomlValue) -> bool {
    ||| import_of(v) is Some
    ||| (v matches TomlValue::Table(es) && problem_ok(es@))
}

/// How a parsed packet relates to its table.
pub open spec fn packet_rel(es: Seq<(String, TomlValue)>, p: Packet) -> bool {
    &&& p.title@ == text_of(lookup(es, "title"@)->Some_0)
    &&& (p.preamble is Some <==> lookup(es, "preamble"@) is Some)
    &&& (p.preamble matches Some(x) ==> roi_markdown_rel(lookup(es, "preamble"@)->Some_0, x))
    &&& (lookup(es, "problems"@) matches Some(t) ==> (t matches TomlValue::Array(items)
        && p.problems@.len() == items@.len() && forall|i: int|
        0 <= i < items@.len() ==> problem_slot_rel(#[trigger] items@[i], #[trigger] p.problems@[i])))
    &&& (lookup(es, "problems"@) is None ==> p.problems@.len() == 0)
}

/// Whether `es` is a well-formed packet table.
pub open spec fn packet_ok(es: Seq<(String, TomlValue)>) -> bool {
    &&& keys_within(es, seq!["title"@, "preamble"@, "problems"@])
    &&& lookup(es, "title"@) matches Some(t) && t is Text
    &&& match lookup(es, "preamble"@) {
        Some(t) => roi_text_ok(t),
        None => true,
    }
    &&& match lookup(es, "problems"@) {
        Some(t) => t matches TomlValue::Array(items) && forall|i: int|
            0 <= i < items@.len() ==> problem_slot_ok(#[trigger] items@[i]),
        None => true,
    }
}

/// Reads the packet table; `problems` defaults to an empty list.
pub fn packet_from_toml(v: &TomlValue) -> (r: Result<Packet, String>)
    ensures
        match *v {
            TomlValue::Table(es) => {
                &&& r is Ok <==> packet_ok(es@)
                &&& r matches Ok(p) ==> packet_rel(es@, p)
            },
            _ => r is Err,
        },
{
    let es = match v {
        TomlValue::Table(es) => es,
        _ => {
            return Err(str_to_string("expected a packet table"));
        },
    };
    let allowed = vec!["title", "preamble", "problems"];
    proof {
        assert(allowed@.map_values(|a: &str| a@) =~= seq!["title"@, "preamble"@, "problems"@]);
    }
    if let Some(k) = check_keys(es, &allowed) {
        return Err(key_message("unknown key ", k.as_str(), " in packet table"));
    }
    let title = match table_lookup(es, "title") {
        Some(TomlValue::Text(s)) => str_to_string(s.as_str()),
        _ => {
            return Err(str_to_string("a packet needs a `title` string"));
        },
    };
    let preamble = match table_lookup(es, "preamble") {
        Some(t) => match roi_markdown_from_toml(t) {
            Ok(p) => Some(p),
            Err(e) => {
                return Err(e);
            },
        },
        None => None,
    };
    let problems = match table_lookup(es, "problems") {
        Some(t) => match problems_from_toml(t) {
            Ok(ps) => ps,
            Err(e) => {
                return Err(e);
            },
        },
        None => Vec::new(),
    };
    Ok(Packet { title, preamble, problems })
}

/// Reads the problem list: each slot is a problem table or an import.
pub fn problems_from_toml(v: &TomlValue) -> (r: Result<Vec<RawOrImport<Problem>>, String>)
    ensures
        r is Ok <==> (*v matches TomlValue::Array(items) && forall|i: int|
            0 <= i < items@.len() ==> problem_slot_ok(#[trigger] items@[i])),
        r matches Ok(ps) ==> (*v matches TomlValue::Array(items) && ps@.len() == items@.len()
            && forall|i: int|
            0 <= i < items@.len() ==> problem_slot_rel(#[trigger] items@[i], #[trigger] ps@[i])),
{
    let items = match v {
        TomlValue::Array(items) => items,
        _ => {
            return Err(str_to_string("expected an array of problems"));
        },
    };
    let mut out: Vec<RawOrImport<Problem>> = Vec::new();
    let mut i: usize = 0;
    while i < items.len()
        invariant
            i <= items@.len(),
            out@.len() == i,
            *v matches TomlValue::Array(x) && x@ == items@,
            forall|j: int| 0 <= j < i ==> problem_slot_ok(#[trigger] items@[j]),
            out@.len() == i,
            forall|j: int|
                0 <= j < i ==> problem_slot_rel(#[trigger] items@[j], #[trigger] out@[j]),
        decreases items@.len() - i,
    {
        if let Some(p) = import_path_of(&items[i]) {
            out.push(RawOrImport::of_import(p));
            proof {
                assert(problem_slot_rel(items@[i as int], out@[i as int]));
            }
        } else {
            match problem_from_toml(&items[i]) {
                Ok(p) => {
                    out.push(RawOrImport::of_value(p));
                    proof {
                        assert(problem_slot_rel(items@[i as int], out@[i as int]));
                    }
                },
                Err(e) => {
                    proof {
                        assert(!problem_slot_ok(items@[i as int]));
                    }
                    return Err(e);
                },
            }
        }
        i = i + 1;
    }
    Ok(out)
}

/// Whether `es` is a well-formed accounts table: `admins` and
/// `competitors` user arrays and nothing else.
pub open spec fn accounts_ok(es: Seq<(String, TomlValue)>) -> bool {
    &&& keys_within(es, seq!["admins"@, "competitors"@])
    &&& lookup(es, "admins"@) matches Some(t) && user_array_ok(t)
    &&& lookup(es, "competitors"@) matches Some(t) && user_array_ok(t)
}

/// Reads the accounts table.
pub fn accounts_from_toml(v: &TomlValue) -> (r: Result<Accounts, String>)
    ensures
        match *v {
            TomlValue::Table(es) => {
                &&& r is Ok <==> accounts_ok(es@)
                &&& r matches Ok(a) ==> accounts_rel(es@, a)
            },
            _ => r is Err,
        },
{
    let es = match v {
        TomlValue::Table(es) => es,
        _ => {
            return Err(str_to_string("expected an accounts table"));
        },
    };
    let allowed = vec!["admins", "competitors"];
    proof {
        assert(allowed@.map_values(|a: &str| a@) =~= seq!["admins"@, "competitors"@]);
    }
    if let Some(k) = check_keys(es, &allowed) {
        return Err(key_message("unknown key ", k.as_str(), " in accounts table"));
    }
    let admins = match table_lookup(es, "admins") {
        Some(t) => match users_from_toml(t) {
            Ok(us) => us,
            Err(e) => {
                return Err(e);
            },
        },
        None => {
            return Err(str_to_string("accounts need an `admins` array"));
        },
    };
    let competitors = match table_lookup(es, "competitors") {
        Some(t) => match users_from_toml(t) {
            Ok(us) => us,
            Err(e) => {
                return Err(e);
            },
        },
        None => {
            return Err(str_to_string("accounts need a `competitors` array"));
        },
    };
    Ok(Accounts { admins, competitors })
}

} // verus!

verus! {

/// No two built-in languages share a configuration key.
pub proof fn lemma_builtin_key_injective()
    ensures
        forall|a: BuiltInLanguage, b: BuiltInLanguage|
            #[trigger] a.key_spec() == #[trigger] b.key_spec() ==> a == b,
{
    reveal_strlit("python3");
    reveal_strlit("java");
    reveal_strlit("javascript");
    reveal_strlit("rust");
    assert(BuiltInLanguage::Python3.key_spec().len() == 7);
    assert(BuiltInLanguage::Java.key_spec().len() == 4);
    assert(BuiltInLanguage::JavaScript.key_spec().len() == 10);
    assert(BuiltInLanguage::Rust.key_spec().len() == 4);
    assert(BuiltInLanguage::Python3.key_spec() != BuiltInLanguage::Java.key_spec());
    assert(BuiltInLanguage::Python3.key_spec() != BuiltInLanguage::JavaScript.key_spec());
    assert(BuiltInLanguage::Python3.key_spec() != BuiltInLanguage::Rust.key_spec());
    assert(BuiltInLanguage::Java.key_spec() != BuiltInLanguage::JavaScript.key_spec());
    assert(BuiltInLanguage::Java.key_spec()[0] != BuiltInLanguage::Rust.key_spec()[0]);
    assert(BuiltInLanguage::Java.key_spec() != BuiltInLanguage::Rust.key_spec());
    assert(BuiltInLanguage::JavaScript.key_spec() != BuiltInLanguage::Rust.key_spec());
}

/// Whether `es` is a well-formed custom-language table: `run` and
/// `source_file` strings, optional `name` and `build` strings, and nothing
/// else.
pub open spec fn custom_lang_ok(es: Seq<(String, TomlValue)>) -> bool {
    &&& keys_within(es, seq!["name"@, "build"@, "run"@, "source_file"@])
    &&& lookup(es, "run"@) matches Some(t) && t is Text
    &&& lookup(es, "source_file"@) matches Some(t) && t is Text
    &&& match lookup(es, "name"@) {
        Some(t) => t is Text,
        None => true,
    }
    &&& match lookup(es, "build"@) {
        Some(t) => t is Text,
        None => true,
    }
}

/// Whether one `key = value` language declaration is acceptable: `latest`
/// (or `*`) or a version string for a built-in language, or a custom
/// toolchain table.
pub open spec fn lang_entry_ok(key: Seq<char>, v: TomlValue) -> bool {
    match v {
        TomlValue::Text(s) => if s@ == "latest"@ || s@ == "*"@ {
            exists|l: BuiltInLanguage| #[trigger] l.key_spec() == key
        } else {
            exists|l: BuiltInLanguage|
                #[trigger] l.key_spec() == key && l.version_keys().contains(s@)
        },
        TomlValue::Table(es) => custom_lang_ok(es@),
        _ => false,
    }
}

/// The given words, each in single quotes, separated by commas.
pub open spec fn quoted_join_spec(items: Seq<Seq<char>>) -> Seq<char>
    decreases items.len(),
{
    if items.len() == 0 {
        Seq::empty()
    } else if items.len() == 1 {
        "'"@ + items[0] + "'"@
    } else {
        quoted_join_spec(items.drop_last()) + ", "@ + "'"@ + items.last() + "'"@
    }
}

/// How one language declaration relates to the language it produces: a
/// version word yields the built-in language of its key at that version;
/// a toolchain table yields a custom language with its fields, the
/// display name defaulting to the key.
pub open spec fn entry_language_rel(key: Seq<char>, v: TomlValue, l: Language) -> bool {
    match v {
        TomlValue::Text(s) => l matches Language::BuiltIn { language, version }
            && language.key_spec() == key && (if s@ == "latest"@ || s@ == "*"@ {
            version is Latest
        } else {
            version matches Version::Specific(x) && x@ == s@
        }),
        TomlValue::Table(es) => l matches Language::Custom {
            raw_name,
            name,
            build,
            run,
            source_file,
        } && raw_name@ == key && run@ == text_of(lookup(es@, "run"@)->Some_0) && source_file@
            == text_of(lookup(es@, "source_file"@)->Some_0) && name@ == (match lookup(
            es@,
            "name"@,
        ) {
            Some(TomlValue::Text(n)) => n@,
            _ => key,
        }) && (match lookup(es@, "build"@) {
            Some(TomlValue::Text(b)) => build matches Some(bb) && bb@ == b@,
            _ => build is None,
        }),
        _ => false,
    }
}

/// Whether every declaration of the table is represented in the set: some
/// member stands in each declaration's relation.
pub open spec fn entries_represented(es: Seq<(String, TomlValue)>, ls: Seq<Language>) -> bool
    decreases es,
{
    if es.len() == 0 {
        true
    } else {
        (exists|k: int|
            0 <= k < ls.len() && entry_language_rel(es[0].0@, es[0].1, #[trigger] ls[k]))
            && entries_represented(es.drop_first(), ls)
    }
}

/// Representation of a prefix extends to one more declaration once some
/// member stands in its relation.
proof fn lemma_entries_represented_snoc(
    es: Seq<(String, TomlValue)>,
    ls: Seq<Language>,
    i: int,
)
    requires
        0 <= i < es.len(),
        entries_represented(es.take(i), ls),
        exists|k: int|
            0 <= k < ls.len() && entry_language_rel(es[i].0@, es[i].1, #[trigger] ls[k]),
    ensures
        entries_represented(es.take(i + 1), ls),
    decreases i,
{
    if i == 0 {
        assert(es.take(1) =~= seq![es[0]]);
        assert(es.take(1)[0] == es[0]);
        assert(es.take(1).drop_first() =~= Seq::<(String, TomlValue)>::empty());
        assert(entries_represented(es.take(1).drop_first(), ls));
    } else {
        let t = es.drop_first();
        assert(es.take(i).drop_first() =~= t.take(i - 1));
        assert(es.take(i + 1).drop_first() =~= t.take(i));
        assert(es.take(i)[0] == es[0]);
        assert(es.take(i + 1)[0] == es[0]);
        assert(t[i - 1] == es[i]);
        lemma_entries_represented_snoc(t, ls, i - 1);
    }
}

/// Representation survives adding a member to the set.
proof fn lemma_entries_represented_widen(
    es: Seq<(String, TomlValue)>,
    ls: Seq<Language>,
    l: Language,
)
    requires
        entries_represented(es, ls),
    ensures
        entries_represented(es, ls.push(l)),
    decreases es,
{
    if es.len() > 0 {
        let k = choose|k: int|
            0 <= k < ls.len() && entry_language_rel(es[0].0@, es[0].1, #[trigger] ls[k]);
        assert(ls.push(l)[k] == ls[k]);
        lemma_entries_represented_widen(es.drop_first(), ls, l);
    }
}

/// The relation reads only views, so it carries over to any equal
/// language.
proof fn lemma_entry_rel_respects_eq(key: Seq<char>, v: TomlValue, a: Language, b: Language)
    requires
        entry_language_rel(key, v, a),
        crate::language::language_eq(b, a),
    ensures
        entry_language_rel(key, v, b),
{
}

/// Joins the given words, each in single quotes, separated by commas.
fn quoted_join(items: &Vec<&str>) -> (r: String)
    ensures
        r@ == quoted_join_spec(items@.map_values(|a: &str| a@)),
{
    let ghost views = items@.map_values(|a: &str| a@);
    let mut out = String::new();
    proof {
        assert(views.take(0) =~= Seq::<Seq<char>>::empty());
    }
    let mut i: usize = 0;
    while i < items.len()
        invariant
            i <= items@.len(),
            views == items@.map_values(|a: &str| a@),
            out@ == quoted_join_spec(views.take(i as int)),
        decreases items@.len() - i,
    {
        if i > 0 {
            out.append(", ");
        }
        out.append("'");
        out.append(items[i]);
        out.append("'");
        proof {
            assert(views.take(i as int + 1).drop_last() =~= views.take(i as int));
            assert(views.take(i as int + 1).last() == views[i as int]);
        }
        i = i + 1;
    }
    proof {
        assert(views.take(views.len() as int) =~= views);
    }
    out
}

/// The message for a key that names no built-in language.
fn unknown_language_message(key: &str) -> (r: String)
    ensures
        r@ == "Unknown built-in language: '"@ + key@ + "'. Known languages: "@
            + "'python3', 'java', 'javascript', 'rust'"@,
{
    let mut out = str_to_string("Unknown built-in language: '");
    out.append(key);
    out.append("'. Known languages: ");
    let joined = BuiltInLanguage::joined_variants();
    out.append(joined.as_str());
    out
}

/// The message for a version a built-in language's table does not hold.
fn unknown_version_message(key: &str, version: &str, known: &Vec<&'static str>) -> (r: String)
    ensures
        r@ == "Unknown "@ + key@ + " version: '"@ + version@ + "'. Known versions: "@
            + quoted_join_spec(known@.map_values(|a: &str| a@)),
{
    let mut out = str_to_string("Unknown ");
    out.append(key);
    out.append(" version: '");
    out.append(version);
    out.append("'. Known versions: ");
    let joined = quoted_join(known);
    out.append(joined.as_str());
    out
}

/// Reads one language declaration's value into its declared shape.
fn toml_language_from_value(v: &TomlValue) -> (r: Result<TomlLanguage, String>)
    ensures
        match *v {
            TomlValue::Text(s) => r matches Ok(t) && (if s@ == "latest"@ || s@ == "*"@ {
                t is Latest
            } else {
                t matches TomlLanguage::VersionName(n) && n@ == s@
            }),
            TomlValue::Table(es) => {
                &&& (r is Ok <==> custom_lang_ok(es@))
                &&& r matches Ok(t) ==> (t matches TomlLanguage::Custom {
                    name,
                    build,
                    run,
                    source_file,
                } && run@ == text_of(lookup(es@, "run"@)->Some_0) && source_file@ == text_of(
                    lookup(es@, "source_file"@)->Some_0,
                ) && (match name {
                    Some(nn) => lookup(es@, "name"@) matches Some(TomlValue::Text(nv)) && nn@
                        == nv@,
                    None => lookup(es@, "name"@) is None,
                }) && (match build {
                    Some(bb) => lookup(es@, "build"@) matches Some(TomlValue::Text(bv)) && bb@
                        == bv@,
                    None => lookup(es@, "build"@) is None,
                }))
            },
            _ => r is Err,
        },
{
    match v {
        TomlValue::Text(s) => {
            if str_eq(s.as_str(), "latest") || str_eq(s.as_str(), "*") {
                Ok(TomlLanguage::Latest)
            } else {
                Ok(TomlLanguage::VersionName(str_to_string(s.as_str())))
            }
        },
        TomlValue::Table(es) => {
            let allowed = vec!["name", "build", "run", "source_file"];
            proof {
                assert(allowed@.map_values(|a: &str| a@) =~= seq![
                    "name"@,
                    "build"@,
                    "run"@,
                    "source_file"@,
                ]);
            }
            if let Some(k) = check_keys(es, &allowed) {
                return Err(key_message("unknown key ", k.as_str(), " in language table"));
            }
            let run = match table_lookup(es, "run") {
                Some(TomlValue::Text(s)) => str_to_string(s.as_str()),
                _ => {
                    return Err(str_to_string("a custom language needs a `run` command"));
                },
            };
            let source_file = match table_lookup(es, "source_file") {
                Some(TomlValue::Text(s)) => str_to_string(s.as_str()),
                _ => {
                    return Err(str_to_string("a custom language needs a `source_file`"));
                },
            };
            let name = match table_lookup(es, "name") {
                Some(TomlValue::Text(s)) => Some(str_to_string(s.as_str())),
                Some(_) => {
                    return Err(str_to_string("a language `name` must be a string"));
                },
                None => None,
            };
            let build = match table_lookup(es, "build") {
                Some(TomlValue::Text(s)) => Some(str_to_string(s.as_str())),
                Some(_) => {
                    return Err(str_to_string("a language `build` must be a string"));
                },
                None => None,
            };
            Ok(TomlLanguage::Custom { name, build, run, source_file })
        },
        _ => Err(str_to_string("a language is a version string or a toolchain table")),
    }
}

/// Reads the `languages` table: one language per key, validated against
/// the built-in registry; equal declarations collapse to one entry.
pub fn language_set_from_toml(v: &TomlValue) -> (r: Result<LanguageSet, String>)
    ensures
        r is Ok <==> (*v matches TomlValue::Table(es) && forall|i: int|
            0 <= i < es@.len() ==> lang_entry_ok(
                (#[trigger] es@[i]).0@,
                es@[i].1,
            )),
        r matches Ok(ls) ==> ls.wf(),
        r matches Ok(ls) ==> (*v matches TomlValue::Table(es) && entries_represented(es@, ls@)),
{
    let es = match v {
        TomlValue::Table(es) => es,
        _ => {
            return Err(str_to_string("expected a table of languages"));
        },
    };
    let mut out = LanguageSet::new();
    let mut i: usize = 0;
    proof {
        assert(es@.take(0) =~= Seq::<(String, TomlValue)>::empty());
    }
    while i < es.len()
        invariant
            i <= es@.len(),
            out.wf(),
            *v matches TomlValue::Table(x) && x@ == es@,
            forall|j: int| 0 <= j < i ==> lang_entry_ok((#[trigger] es@[j]).0@, es@[j].1),
            entries_represented(es@.take(i as int), out@),
        decreases es@.len() - i,
    {
        let key = es[i].0.as_str();
        let tl = match toml_language_from_value(&es[i].1) {
            Ok(t) => t,
            Err(e) => {
                proof {
                    assert(!lang_entry_ok(es@[i as int].0@, es@[i as int].1));
                }
                return Err(e);
            },
        };
        let ghost tl_ghost = tl;
        match crate::language::language_from_entry(key, tl) {
            Ok(l) => {
                proof {
                    assert(entry_language_rel(es@[i as int].0@, es@[i as int].1, l));
                }
                let ghost out_before = out@;
                let ghost l_ghost = l;
                let added = out.insert(l);
                proof {
                    if added {
                        lemma_entries_represented_widen(
                            es@.take(i as int),
                            out_before,
                            l_ghost,
                        );
                        assert(out@[out@.len() - 1] == l_ghost);
                        lemma_entries_represented_snoc(es@, out@, i as int);
                    } else {
                        let m = choose|m: int|
                            0 <= m < out_before.len() && crate::language::language_eq(
                                #[trigger] out_before[m],
                                l_ghost,
                            );
                        lemma_entry_rel_respects_eq(
                            es@[i as int].0@,
                            es@[i as int].1,
                            l_ghost,
                            out_before[m],
                        );
                        assert(entry_language_rel(es@[i as int].0@, es@[i as int].1, out@[m]));
                        lemma_entries_represented_snoc(es@, out@, i as int);
                    }
                }
            },
            Err(LanguageEntryError::UnknownLanguage { key: k }) => {
                proof {
                    lemma_builtin_key_injective();
                    assert(!lang_entry_ok(es@[i as int].0@, es@[i as int].1));
                }
                return Err(unknown_language_message(key));
            },
            Err(LanguageEntryError::UnknownVersion { key: k, version: vv, known }) => {
                proof {
                    lemma_builtin_key_injective();
                    assert(!lang_entry_ok(es@[i as int].0@, es@[i as int].1));
                }
                return Err(unknown_version_message(k.as_str(), vv.as_str(), &known));
            },
        }
        i = i + 1;
    }
    proof {
        assert(es@.take(es@.len() as int) =~= es@);
        assert(entries_represented(es@, out@));
    }
    Ok(out)
}

} // verus!

verus! {

/// A slot's outcome, stripped to its form: the import path it still
/// carries, or the mark of a value read in place.
pub open spec fn slot_rel(v: TomlValue, form: Option<Seq<char>>) -> bool {
    match import_of(v) {
        Some(p) => form matches Some(q) && q == p,
        None => form is None,
    }
}

/// The form a filled slot took: the unresolved import path, or `None` for
/// a value read in place.
pub open spec fn roi_form<T>(x: RawOrImport<T>) -> Option<Seq<char>> {
    match x {
        RawOrImport::Value(_) => None,
        RawOrImport::Import(p, _) => Some(p@),
    }
}

/// Whether `v` can fill the languages slot: a languages table in place or
/// an import reference.
pub open spec fn languages_slot_ok(v: TomlValue) -> bool {
    ||| import_of(v) is Some
    ||| (v matches TomlValue::Table(es) && forall|i: int|
        0 <= i < es.len() ==> lang_entry_ok((#[trigger] es[i]).0@, es[i].1))
}

/// Whether `v` can fill a table-valued slot described by `ok` — stated
/// separately for each slot below, since each has its own table shape.
pub open spec fn setup_slot_ok(v: TomlValue) -> bool {
    ||| import_of(v) is Some
    ||| (v matches TomlValue::Table(es) && setup_ok(es@))
}

pub open spec fn accounts_slot_ok(v: TomlValue) -> bool {
    ||| import_of(v) is Some
    ||| (v matches TomlValue::Table(es) && accounts_ok(es@))
}

pub open spec fn packet_slot_ok(v: TomlValue) -> bool {
    ||| import_of(v) is Some
    ||| (v matches TomlValue::Table(es) && packet_ok(es@))
}

pub open spec fn runner_slot_ok(v: TomlValue) -> bool {
    ||| import_of(v) is Some
    ||| (v matches TomlValue::Table(es) && runner_ok(es@))
}

/// How a filled languages slot relates to its TOML: an import keeps its
/// path; an in-place table parses to a well-formed set representing every
/// declaration.
pub open spec fn languages_slot_rel(v: TomlValue, x: RawOrImport<LanguageSet>) -> bool {
    match import_of(v) {
        Some(q) => x matches RawOrImport::Import(p, _) && p@ == q,
        None => v matches TomlValue::Table(les) && (x matches RawOrImport::Value(ls) && ls.wf()
            && entries_represented(les@, ls@)),
    }
}

/// How a filled accounts slot relates to its TOML.
pub open spec fn accounts_slot_rel(v: TomlValue, x: RawOrImport<Accounts>) -> bool {
    match import_of(v) {
        Some(q) => x matches RawOrImport::Import(p, _) && p@ == q,
        None => v matches TomlValue::Table(aes) && (x matches RawOrImport::Value(a)
            && accounts_rel(aes@, a)),
    }
}

/// How a filled packet slot relates to its TOML.
pub open spec fn packet_slot_rel(v: TomlValue, x: RawOrImport<Packet>) -> bool {
    match import_of(v) {
        Some(q) => x matches RawOrImport::Import(p, _) && p@ == q,
        None => v matches TomlValue::Table(pes) && (x matches RawOrImport::Value(p) && packet_rel(
            pes@,
            p,
        )),
    }
}

/// How a filled test-runner slot relates to its TOML.
pub open spec fn runner_slot_rel(v: TomlValue, x: RawOrImport<TestRunner>) -> bool {
    match import_of(v) {
        Some(q) => x matches RawOrImport::Import(p, _) && p@ == q,
        None => v matches TomlValue::Table(tes) && (x matches RawOrImport::Value(t) && runner_rel(
            tes@,
            t,
        )),
    }
}

/// How a filled setup slot relates to its TOML.
pub open spec fn setup_slot_rel(v: TomlValue, x: RawOrImport<Setup>) -> bool {
    match import_of(v) {
        Some(q) => x matches RawOrImport::Import(p, _) && p@ == q,
        None => v matches TomlValue::Table(ses) && (x matches RawOrImport::Value(s) && setup_rel(
            ses@,
            s,
        )),
    }
}

/// Whether `es` is a well-formed configuration: a `languages` and a
/// `packet` slot, an optional port in range, optional setup, accounts and
/// test-runner slots, and nothing else.
pub open spec fn config_ok(es: Seq<(String, TomlValue)>) -> bool {
    &&& keys_within(
        es,
        seq!["setup"@, "port"@, "languages"@, "accounts"@, "packet"@, "test_runner"@],
    )
    &&& match lookup(es, "port"@) {
        Some(p) => p matches TomlValue::Integer(n) && 0 <= n <= 65535,
        None => true,
    }
    &&& match lookup(es, "setup"@) {
        Some(s) => setup_slot_ok(s),
        None => true,
    }
    &&& lookup(es, "languages"@) matches Some(l) && languages_slot_ok(l)
    &&& match lookup(es, "accounts"@) {
        Some(a) => accounts_slot_ok(a),
        None => true,
    }
    &&& lookup(es, "packet"@) matches Some(p) && packet_slot_ok(p)
    &&& match lookup(es, "test_runner"@) {
        Some(t) => runner_slot_ok(t),
        None => true,
    }
}

/// Reads a whole configuration out of a parsed TOML table.  The
/// fingerprint of the result is zero; the caller that parsed the text
/// computes and sets it.
pub fn config_from_toml(v: &TomlValue) -> (r: Result<Config, String>)
    ensures
        match *v {
            TomlValue::Table(es) => {
                &&& r is Ok <==> config_ok(es@)
                &&& r matches Ok(c) ==> {
                    &&& c.hash == 0
                    &&& c.port == (match lookup(es@, "port"@) {
                        Some(TomlValue::Integer(n)) => n as u16,
                        _ => 8517u16,
                    })
                    &&& (c.setup is Some <==> lookup(es@, "setup"@) is Some)
                    &&& (c.languages matches RawOrImport::Value(ls) ==> ls.wf())
                    &&& slot_rel(lookup(es@, "languages"@)->Some_0, roi_form(c.languages))
                    &&& (lookup(es@, "accounts"@) matches Some(a) ==> slot_rel(
                        a,
                        roi_form(c.accounts),
                    ))
                    &&& slot_rel(lookup(es@, "packet"@)->Some_0, roi_form(c.packet))
                    &&& (lookup(es@, "test_runner"@) matches Some(t) ==> slot_rel(
                        t,
                        roi_form(c.test_runner),
                    ))
                    &&& (lookup(es@, "accounts"@) is None ==> (c.accounts matches
                        RawOrImport::Value(a) && a.admins@.len() == 0 && a.competitors@.len()
                        == 0))
                    &&& (lookup(es@, "test_runner"@) is None ==> (c.test_runner matches
                        RawOrImport::Value(t) && t.timeout == 10000 && t.trim_output))
                    &&& (lookup(es@, "languages"@) matches Some(lv) ==> languages_slot_rel(
                        lv,
                        c.languages,
                    ))
                    &&& (lookup(es@, "accounts"@) matches Some(av) ==> accounts_slot_rel(
                        av,
                        c.accounts,
                    ))
                    &&& (lookup(es@, "packet"@) matches Some(pv) ==> packet_slot_rel(pv, c.packet))
                    &&& (lookup(es@, "test_runner"@) matches Some(tv) ==> runner_slot_rel(
                        tv,
                        c.test_runner,
                    ))
                    &&& (lookup(es@, "setup"@) matches Some(sv) ==> (c.setup matches Some(x)
                        && setup_slot_rel(sv, x)))
                }
            },
            _ => r is Err,
        },
{
    let es = match v {
        TomlValue::Table(es) => es,
        _ => {
            return Err(str_to_string("expected a configuration table"));
        },
    };
    let allowed = vec!["setup", "port", "languages", "accounts", "packet", "test_runner"];
    proof {
        assert(allowed@.map_values(|a: &str| a@) =~= seq![
            "setup"@,
            "port"@,
            "languages"@,
            "accounts"@,
            "packet"@,
            "test_runner"@,
        ]);
    }
    if let Some(k) = check_keys(es, &allowed) {
        return Err(key_message("unknown key ", k.as_str(), " in configuration"));
    }
    let port: u16 = match table_lookup(es, "port") {
        Some(TomlValue::Integer(n)) => {
            if 0 <= *n && *n <= 65535 {
                *n as u16
            } else {
                return Err(str_to_string("`port` must lie between 0 and 65535"));
            }
        },
        Some(_) => {
            return Err(str_to_string("`port` must be an integer"));
        },
        None => crate::default_port(),
    };
    let setup: Option<RawOrImport<Setup>> = match table_lookup(es, "setup") {
        Some(t) => {
            if let Some(p) = import_path_of(t) {
                Some(RawOrImport::of_import(p))
            } else {
                match setup_from_toml(t) {
                    Ok(s) => Some(RawOrImport::of_value(s)),
                    Err(e) => {
                        return Err(e);
                    },
                }
            }
        },
        None => None,
    };
    let languages: RawOrImport<LanguageSet> = match table_lookup(es, "languages") {
        Some(t) => {
            if let Some(p) = import_path_of(t) {
                RawOrImport::of_import(p)
            } else {
                match language_set_from_toml(t) {
                    Ok(ls) => RawOrImport::of_value(ls),
                    Err(e) => {
                        return Err(e);
                    },
                }
            }
        },
        None => {
            return Err(str_to_string("the configuration needs a `languages` table"));
        },
    };
    let accounts: RawOrImport<Accounts> = match table_lookup(es, "accounts") {
        Some(t) => {
            if let Some(p) = import_path_of(t) {
                RawOrImport::of_import(p)
            } else {
                match accounts_from_toml(t) {
                    Ok(a) => RawOrImport::of_value(a),
                    Err(e) => {
                        return Err(e);
                    },
                }
            }
        },
        None => RawOrImport::of_value(Accounts { admins: Vec::new(), competitors: Vec::new() }),
    };
    let packet: RawOrImport<Packet> = match table_lookup(es, "packet") {
        Some(t) => {
            if let Some(p) = import_path_of(t) {
                RawOrImport::of_import(p)
            } else {
                match packet_from_toml(t) {
                    Ok(p) => RawOrImport::of_value(p),
                    Err(e) => {
                        return Err(e);
                    },
                }
            }
        },
        None => {
            return Err(str_to_string("the configuration needs a `packet` table"));
        },
    };
    let test_runner: RawOrImport<TestRunner> = match table_lookup(es, "test_runner") {
        Some(t) => {
            if let Some(p) = import_path_of(t) {
                RawOrImport::of_import(p)
            } else {
                match test_runner_from_toml(t) {
                    Ok(tr) => RawOrImport::of_value(tr),
                    Err(e) => {
                        return Err(e);
                    },
                }
            }
        },
        None => RawOrImport::of_value(TestRunner::default()),
    };
    Ok(Config { hash: 0, setup, port, languages, accounts, packet, test_runner })
}

} // verus!

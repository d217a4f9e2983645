//! Configuration for hosting a programming competition: the languages made
//! available, the accounts granted access, the packet of problems, and the
//! test-runner limits, read from a TOML file; plus the renderer that turns
//! problem markup into HTML or into a content tree for typesetting.

pub mod fingerprint;
pub mod from_toml;
pub mod language;
pub mod packet;
pub mod render;
pub mod roi;
pub mod text;
pub mod toml_data;

use vstd::prelude::*;

use language::LanguageSet;
use packet::Packet;
use roi::RawOrImport;

verus! {

/// The default for boolean fields the configuration leaves out.
pub fn default_false() -> (r: bool)
    ensures
        !r,
{
    false
}

/// The port the server is hosted on when the configuration names none.
pub fn default_port() -> (r: u16)
    ensures
        r == 8517,
{
    8517
}

/// Authentication details for one user, competitor or administrator.
#[derive(Debug, Clone)]
pub struct User {
    pub name: String,
    pub password: String,
}

/// The accounts granted access to the server.
#[derive(Debug, Clone)]
pub struct Accounts {
    /// Administrators in charge of managing the competition.
    pub admins: Vec<User>,
    /// Competitors participating in the competition.
    pub competitors: Vec<User>,
}

/// Commands run while setting up the container and starting the server.
#[derive(Debug, Clone)]
pub struct Setup {
    /// Commands run when building the container, so dependencies are
    /// installed.
    pub install: Option<RawOrImport<String, roi::Raw>>,
    /// Commands run before starting the server, so dependencies are enabled.
    pub init: Option<RawOrImport<String, roi::Raw>>,
}

/// One file copied into the directory a test runs in.
#[derive(Debug, Clone)]
pub struct FileCopy {
    /// Source path, relative to the directory the server runs in.
    pub from: String,
    /// Destination path, relative to the directory the test runs in.
    pub to: String,
}

/// A limit that may apply to the compile step, the run step, both, or
/// neither, with `Both` sharing one value between the two steps.
#[derive(Debug, Clone)]
pub enum CommandConfig<T> {
    Neither,
    Both(T),
    Compile { compile: T },
    Run { run: T },
    Each { compile: T, run: T },
}

impl<T> CommandConfig<T> {
    /// The value that applies to the compile step, if any.
    pub fn compile(&self) -> (r: Option<&T>)
        ensures
            match *self {
                CommandConfig::Neither => r is None,
                CommandConfig::Both(ref t) => r matches Some(v) && v == t,
                CommandConfig::Compile { compile: ref t } => r matches Some(v) && v == t,
                CommandConfig::Run { .. } => r is None,
                CommandConfig::Each { compile: ref t, .. } => r matches Some(v) && v == t,
            },
    {
        match self {
            CommandConfig::Neither => None,
            CommandConfig::Both(t) => Some(t),
            CommandConfig::Compile { compile } => Some(compile),
            CommandConfig::Run { .. } => None,
            CommandConfig::Each { compile, .. } => Some(compile),
        }
    }

    /// The value that applies to the run step, if any.
    pub fn run(&self) -> (r: Option<&T>)
        ensures
            match *self {
                CommandConfig::Neither => r is None,
                CommandConfig::Both(ref t) => r matches Some(v) && v == t,
                CommandConfig::Compile { .. } => r is None,
                CommandConfig::Run { run: ref t } => r matches Some(v) && v == t,
                CommandConfig::Each { run: ref t, .. } => r matches Some(v) && v == t,
            },
    {
        match self {
            CommandConfig::Neither => None,
            CommandConfig::Both(t) => Some(t),
            CommandConfig::Compile { .. } => None,
            CommandConfig::Run { run } => Some(run),
            CommandConfig::Each { run, .. } => Some(run),
        }
    }
}

/// Limits and behaviour of the test runner.
#[derive(Debug, Clone)]
pub struct TestRunner {
    /// How long a test may run before it is cancelled and marked failed,
    /// in milliseconds.
    pub timeout: u64,
    /// Whether output is trimmed of surrounding whitespace before it is
    /// compared with the expected output.
    pub trim_output: bool,
    /// Files copied into the test directory.
    pub copy_files: Vec<FileCopy>,
    /// Memory the tested process may use, in MiB.
    pub max_memory: CommandConfig<u64>,
    /// Largest file the tested process may create, in MiB.
    pub max_file_size: CommandConfig<u64>,
}

impl TestRunner {
    /// Ten seconds, in milliseconds.
    pub fn default_timeout() -> (r: u64)
        ensures
            r == 10000,
    {
        10000
    }

    pub fn default_trim_output() -> (r: bool)
        ensures
            r,
    {
        true
    }
}

impl Default for TestRunner {
    fn default() -> (r: TestRunner)
        ensures
            r.timeout == 10000,
            r.trim_output,
            r.copy_files@.len() == 0,
            r.max_memory is Neither,
            r.max_file_size is Neither,
    {
        TestRunner {
            timeout: TestRunner::default_timeout(),
            trim_output: TestRunner::default_trim_output(),
            copy_files: Vec::new(),
            max_memory: CommandConfig::Neither,
            max_file_size: CommandConfig::Neither,
        }
    }
}

/// Why a configuration file could not be read.
#[derive(Debug)]
pub enum ConfigReadError {
    /// The file could not be read at all; carries the reader's message.
    ReadError(String),
    /// The text is not a well-formed configuration; carries the file name
    /// where one was given, a message, and, where known, the byte span of
    /// the offending text.
    MalformedData { file: Option<String>, message: String, span: Option<(usize, usize)> },
}

/// The complete configuration of one competition server.
#[derive(Debug, Clone)]
pub struct Config {
    /// A fingerprint of the parsed configuration, set when the
    /// configuration is read from text; see [`Config::hash`].
    pub hash: u64,
    /// Container setup and server start-up commands.
    pub setup: Option<RawOrImport<Setup>>,
    /// The port the server is hosted on.
    pub port: u16,
    /// The languages available on the server.
    pub languages: RawOrImport<LanguageSet>,
    /// The accounts granted access to the server.
    pub accounts: RawOrImport<Accounts>,
    /// The packet of this competition.
    pub packet: RawOrImport<Packet>,
    /// Test-runner limits and behaviour.
    pub test_runner: RawOrImport<TestRunner>,
}

/// The digit characters of the base-36 encoding: `a`..`z` then `0`..`9`.
pub open spec fn base36_digit(n: int) -> char {
    "abcdefghijklmnopqrstuvwxyz0123456789"@[n]
}

/// The base-36 encoding of `h`, least significant digit first; always at
/// least one digit long.
pub open spec fn base36_seq(h: nat) -> Seq<char>
    decreases h,
{
    if h / 36 == 0 {
        seq![base36_digit((h % 36) as int)]
    } else {
        seq![base36_digit((h % 36) as int)] + base36_seq(h / 36)
    }
}

impl Config {
    /// The stored fingerprint value.
    pub open spec fn hash_key(self) -> u64 {
        self.hash
    }

    /// The fingerprint as a short lower-case string: the base-36 digits of
    /// the stored value, least significant first.
    pub fn hash(&self) -> (r: String)
        ensures
            r@ == base36_seq(self.hash_key() as nat),
    {
        base36_string(self.hash)
    }
}

/// Renders `h` in base 36, least significant digit first; never empty.
pub fn base36_string(h: u64) -> (r: String)
    ensures
        r@ == base36_seq(h as nat),
{
    let alphabet = "abcdefghijklmnopqrstuvwxyz0123456789";
    proof {
        reveal_strlit("abcdefghijklmnopqrstuvwxyz0123456789");
    }
    let ghost h0 = h as nat;
    let mut cur = h;
    let mut out = String::new();
    proof {
        assert(out@ + base36_seq(cur as nat) =~= base36_seq(h0));
    }
    loop
        invariant
            alphabet@ == "abcdefghijklmnopqrstuvwxyz0123456789"@,
            alphabet@.len() == 36,
            h0 == h as nat,
            base36_seq(h0) == out@ + base36_seq(cur as nat),
        decreases cur,
    {
        let n = (cur % 36) as usize;
        let digit = alphabet.substring_char(n, n + 1);
        let ghost out_before = out@;
        let ghost h_before = cur as nat;
        out.append(digit);
        cur = cur / 36;
        proof {
            assert(digit@ =~= seq![base36_digit((h_before % 36) as int)]);
            if h_before / 36 == 0 {
                assert(base36_seq(h_before) =~= digit@);
            } else {
                assert(base36_seq(h_before) =~= digit@ + base36_seq(h_before / 36));
            }
            assert(out@ == out_before + digit@);
        }
        if cur == 0 {
            proof {
                assert(base36_seq(h_before) =~= digit@);
                assert(out@ =~= out_before + digit@);
                assert(out@ == base36_seq(h0));
            }
            return out;
        }
        proof {
            assert(base36_seq(h0) == out@ + base36_seq(cur as nat));
        }
    }
}

impl Default for Config {
    fn default() -> (r: Config)
        ensures
            r.hash_key() == 3141592653589793238u64,
            r.setup is None,
            r.port == 8517,
            r.languages matches RawOrImport::Value(l) && l@.len() == 0,
            r.accounts matches RawOrImport::Value(a) && a.admins@.len() == 0
                && a.competitors@.len() == 0,
            r.packet matches RawOrImport::Value(p) && p.title@.len() == 0 && p.preamble is None
                && p.problems@.len() == 0,
            r.test_runner matches RawOrImport::Value(t) && t.timeout == 10000 && t.trim_output,
    {
        Config {
            hash: 3141592653589793238u64,
            setup: None,
            port: default_port(),
            languages: RawOrImport::of_value(LanguageSet::new()),
            accounts: RawOrImport::of_value(
                Accounts { admins: Vec::new(), competitors: Vec::new() },
            ),
            packet: RawOrImport::of_value(
                Packet { title: String::new(), preamble: None, problems: Vec::new() },
            ),
            test_runner: RawOrImport::of_value(TestRunner::default()),
        }
    }
}

impl Config {
    /// Reads a configuration from TOML text.  `file_name`, where given, is
    /// carried into the error for reporting.  On success the fingerprint of
    /// the parsed configuration is computed and stored.
    pub fn from_str(content: &str, file_name: Option<&str>) -> (r: Result<Config, ConfigReadError>)
        ensures
            r matches Ok(c) ==> {
                &&& c.hash == fingerprint::fingerprint_of(c)
                &&& (c.languages matches RawOrImport::Value(ls) ==> ls.wf())
            },
    {
        let value = match toml_data::toml_text_to_value(content) {
            Ok(v) => v,
            Err(toml_data::TomlReadError::Syntax { message, span }) => {
                return Err(
                    ConfigReadError::MalformedData {
                        file: copy_name(file_name),
                        message,
                        span,
                    },
                );
            },
            Err(toml_data::TomlReadError::UnsupportedValue) => {
                return Err(
                    ConfigReadError::MalformedData {
                        file: copy_name(file_name),
                        message: text::str_to_string(
                            "the configuration holds a value of an unsupported kind",
                        ),
                        span: None,
                    },
                );
            },
            Err(toml_data::TomlReadError::TooDeep) => {
                return Err(
                    ConfigReadError::MalformedData {
                        file: copy_name(file_name),
                        message: text::str_to_string("the configuration is nested too deeply"),
                        span: None,
                    },
                );
            },
        };
        let mut config = match from_toml::config_from_toml(&value) {
            Ok(c) => c,
            Err(message) => {
                return Err(
                    ConfigReadError::MalformedData {
                        file: copy_name(file_name),
                        message,
                        span: None,
                    },
                );
            },
        };
        let ghost before = config;
        config.hash = fingerprint::config_fingerprint(&config);
        proof {
            assert(fingerprint::canon_config(config) == fingerprint::canon_config(before));
        }
        Ok(config)
    }

    /// Reads a configuration from any reader, then parses it as
    /// [`Config::from_str`] does.
    pub fn read<R: std::io::Read>(reader: &mut R, file_name: Option<&str>) -> (r: Result<
        Config,
        ConfigReadError,
    >)
        ensures
            r matches Ok(c) ==> {
                &&& c.hash == fingerprint::fingerprint_of(c)
                &&& (c.languages matches RawOrImport::Value(ls) ==> ls.wf())
            },
    {
        let content = match read_to_string(reader) {
            Ok(s) => s,
            Err(message) => {
                return Err(ConfigReadError::ReadError(message));
            },
        };
        Config::from_str(content.as_str(), file_name)
    }
}

/// Copies an optional borrowed name into an owned one.
fn copy_name(name: Option<&str>) -> (r: Option<String>)
    ensures
        match r {
            Some(s) => name matches Some(n) && s@ == n@,
            None => name is None,
        },
{
    match name {
        Some(n) => Some(text::str_to_string(n)),
        None => None,
    }
}

/// Relies on `std::io::Read::read_to_string`: reads the whole stream into a
/// string, or reports the reader's error message.
#[verifier::external_body]
fn read_to_string<R: std::io::Read>(reader: &mut R) -> (r: Result<String, String>) {
    let mut buf = String::new();
    match reader.read_to_string(&mut buf) {
        Ok(_) => Ok(buf),
        Err(e) => Err(e.to_string()),
    }
}

} // verus!

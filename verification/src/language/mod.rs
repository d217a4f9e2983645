//! The registry of built-in language toolchains and user-defined languages.
//!
//! Each built-in language carries a fixed table of versions; every version
//! names the commands used to build, run, install and initialise a solution.

mod language_set;
pub use language_set::LanguageSet;
pub use language_set::TomlLanguage;
pub use language_set::language_from_entry;
pub use language_set::LanguageEntryError;

use vstd::prelude::*;
use vstd::std_specs::cmp::PartialEqSpec;
use crate::text::str_eq;

verus! {

/// A language whose toolchain the crate knows about.
#[derive(Debug, Copy, Clone, PartialEq, Eq, Structural, Hash)]
pub enum BuiltInLanguage {
    Python3,
    Java,
    JavaScript,
    Rust,
}

/// A requested toolchain version: either the newest one, or a named one.
#[derive(Debug, Clone)]
pub enum Version {
    Latest,
    Specific(String),
}

impl PartialEq for Version {
    fn eq(&self, other: &Version) -> (r: bool) {
        match (self, other) {
            (Version::Latest, Version::Latest) => true,
            (Version::Specific(a), Version::Specific(b)) => str_eq(a.as_str(), b.as_str()),
            _ => false,
        }
    }
}

/// What `==` on `Version` means: same variant, and equal version names.
pub open spec fn version_eq(a: Version, b: Version) -> bool {
    match a {
        Version::Latest => b is Latest,
        Version::Specific(x) => match b {
            Version::Specific(y) => x@ == y@,
            _ => false,
        },
    }
}

impl vstd::std_specs::cmp::PartialEqSpecImpl for Version {
    open spec fn obeys_eq_spec() -> bool {
        true
    }

    open spec fn eq_spec(&self, other: &Version) -> bool {
        version_eq(*self, *other)
    }
}

impl BuiltInLanguage {
    /// The identifier the configuration format uses for this language.
    pub open spec fn key_spec(self) -> Seq<char> {
        match self {
            BuiltInLanguage::Python3 => "python3"@,
            BuiltInLanguage::Java => "java"@,
            BuiltInLanguage::JavaScript => "javascript"@,
            BuiltInLanguage::Rust => "rust"@,
        }
    }

    /// The human-readable name of this language.
    pub open spec fn name_spec(self) -> Seq<char> {
        match self {
            BuiltInLanguage::Python3 => "Python3"@,
            BuiltInLanguage::Java => "Java"@,
            BuiltInLanguage::JavaScript => "JavaScript"@,
            BuiltInLanguage::Rust => "Rust"@,
        }
    }

    /// The version keys of this language's table, oldest first.
    pub open spec fn version_keys(self) -> Seq<Seq<char>> {
        match self {
            BuiltInLanguage::Python3 => seq!["latest"@],
            BuiltInLanguage::Java => seq!["8"@, "11"@, "21"@],
            BuiltInLanguage::JavaScript => seq!["latest"@],
            BuiltInLanguage::Rust => seq!["latest"@],
        }
    }

    /// Whether `v` names a version that this language's table holds.
    /// `Latest` always does.
    pub open spec fn valid_version(self, v: Version) -> bool {
        match v {
            Version::Latest => true,
            Version::Specific(s) => self.version_keys().contains(s@),
        }
    }

    pub fn as_str(self) -> (r: &'static str)
        ensures
            r@ == self.key_spec(),
    {
        match self {
            BuiltInLanguage::Python3 => "python3",
            BuiltInLanguage::Java => "java",
            BuiltInLanguage::JavaScript => "javascript",
            BuiltInLanguage::Rust => "rust",
        }
    }

    pub fn name(self) -> (r: &'static str)
        ensures
            r@ == self.name_spec(),
    {
        match self {
            BuiltInLanguage::Python3 => "Python3",
            BuiltInLanguage::Java => "Java",
            BuiltInLanguage::JavaScript => "JavaScript",
            BuiltInLanguage::Rust => "Rust",
        }
    }

    /// The comma-separated quoted list of all built-in language keys.
    pub fn joined_variants() -> (r: String)
        ensures
            r@ == "'python3', 'java', 'javascript', 'rust'"@,
    {
        String::from_str("'python3', 'java', 'javascript', 'rust'")
    }

    /// Checks whether `version` is available for this language; on failure
    /// reports the known version keys, oldest first.
    pub fn has_version(self, version: &Version) -> (r: Result<(), Vec<&'static str>>)
        ensures
            r is Ok <==> self.valid_version(*version),
            r matches Err(ks) ==> ks@.map_values(|k: &'static str| k@) == self.version_keys(),
    {
        match version {
            Version::Latest => Ok(()),
            Version::Specific(v) => {
                if self.contains_version(v.as_str()) {
                    Ok(())
                } else {
                    Err(self.version_key_list())
                }
            },
        }
    }

    /// Whether `v` is one of this language's version keys.
    pub fn contains_version(self, v: &str) -> (r: bool)
        ensures
            r == self.version_keys().contains(v@),
    {
        match self {
            BuiltInLanguage::Java => {
                let r8 = str_eq(v, "8");
                let r11 = str_eq(v, "11");
                let r21 = str_eq(v, "21");
                proof {
                    let ks = self.version_keys();
                    if r8 {
                        assert(ks[0] == v@);
                    } else if r11 {
                        assert(ks[1] == v@);
                    } else if r21 {
                        assert(ks[2] == v@);
                    } else {
                        assert forall|i: int| 0 <= i < ks.len() implies ks[i] != v@ by {
                            assert(ks[0] == "8"@ && ks[1] == "11"@ && ks[2] == "21"@);
                        }
                    }
                }
                r8 || r11 || r21
            },
            _ => {
                let r = str_eq(v, "latest");
                proof {
                    let ks = self.version_keys();
                    if r {
                        assert(ks[0] == v@);
                    } else {
                        assert forall|i: int| 0 <= i < ks.len() implies ks[i] != v@ by {
                            assert(ks[0] == "latest"@);
                        }
                    }
                }
                r
            },
        }
    }

    /// This language's version keys, oldest first.
    pub fn version_key_list(self) -> (r: Vec<&'static str>)
        ensures
            r@.map_values(|k: &'static str| k@) == self.version_keys(),
    {
        let r: Vec<&'static str> = match self {
            BuiltInLanguage::Python3 => vec!["latest"],
            BuiltInLanguage::Java => vec!["8", "11", "21"],
            BuiltInLanguage::JavaScript => vec!["latest"],
            BuiltInLanguage::Rust => vec!["latest"],
        };
        proof {
            assert(r@.map_values(|k: &'static str| k@) =~= self.version_keys());
        }
        r
    }

    /// The file name a competitor's solution is stored under.
    pub open spec fn source_file_spec(self) -> Seq<char> {
        match self {
            BuiltInLanguage::Python3 => "solution.py"@,
            BuiltInLanguage::Java => "Solution.java"@,
            BuiltInLanguage::JavaScript => "solution.js"@,
            BuiltInLanguage::Rust => "solution.rs"@,
        }
    }

    pub fn source_file(self) -> (r: &'static str)
        ensures
            r@ == self.source_file_spec(),
    {
        match self {
            BuiltInLanguage::Python3 => "solution.py",
            BuiltInLanguage::Java => "Solution.java",
            BuiltInLanguage::JavaScript => "solution.js",
            BuiltInLanguage::Rust => "solution.rs",
        }
    }

    /// The build command of every version of this language, or `None` where
    /// the language needs no build step.  All versions of one language share
    /// their build and run commands.
    pub open spec fn build_command_spec(self) -> Option<Seq<char>> {
        match self {
            BuiltInLanguage::Python3 => None,
            BuiltInLanguage::Java => Some("javac Solution.java"@),
            BuiltInLanguage::JavaScript => None,
            BuiltInLanguage::Rust => Some("rustc -o solution solution.rs"@),
        }
    }

    pub fn build_command(self, version: &Version) -> (r: Option<&'static str>)
        requires
            self.valid_version(*version),
        ensures
            match self.build_command_spec() {
                Some(c) => r matches Some(s) && s@ == c,
                None => r is None,
            },
    {
        match self {
            BuiltInLanguage::Python3 => None,
            BuiltInLanguage::Java => Some("javac Solution.java"),
            BuiltInLanguage::JavaScript => None,
            BuiltInLanguage::Rust => Some("rustc -o solution solution.rs"),
        }
    }

    /// The run command; shared by all versions of one language.
    pub open spec fn run_command_spec(self) -> Seq<char> {
        match self {
            BuiltInLanguage::Python3 => "python3 ./solution.py"@,
            BuiltInLanguage::Java => "java Solution"@,
            BuiltInLanguage::JavaScript => "nodejs solution.js"@,
            BuiltInLanguage::Rust => "./solution"@,
        }
    }

    pub fn run_command(self, version: &Version) -> (r: &'static str)
        requires
            self.valid_version(*version),
        ensures
            r@ == self.run_command_spec(),
    {
        match self {
            BuiltInLanguage::Python3 => "python3 ./solution.py",
            BuiltInLanguage::Java => "java Solution",
            BuiltInLanguage::JavaScript => "nodejs solution.js",
            BuiltInLanguage::Rust => "./solution",
        }
    }

    /// The install command of the version that `v` names (java's differs by
    /// version; `Latest` means the newest entry of the table).
    pub open spec fn install_command_spec(self, v: Version) -> Option<Seq<char>> {
        match self {
            BuiltInLanguage::Python3 => Some("dnf install python3"@),
            BuiltInLanguage::Java => match v {
                Version::Specific(s) => if s@ == "8"@ {
                    Some("dnf install java-1.8.0-openjdk-devel"@)
                } else if s@ == "11"@ {
                    Some("dnf install java-11-openjdk-devel"@)
                } else {
                    Some("dnf install java-21-openjdk-devel"@)
                },
                Version::Latest => Some("dnf install java-21-openjdk-devel"@),
            },
            BuiltInLanguage::JavaScript => Some("dnf install nodejs20"@),
            BuiltInLanguage::Rust => Some("dnf install rust"@),
        }
    }

    pub fn install_command(self, version: &Version) -> (r: Option<&'static str>)
        requires
            self.valid_version(*version),
        ensures
            match self.install_command_spec(*version) {
                Some(c) => r matches Some(s) && s@ == c,
                None => r is None,
            },
    {
        match self {
            BuiltInLanguage::Python3 => Some("dnf install python3"),
            BuiltInLanguage::Java => match version {
                Version::Specific(s) => {
                    if str_eq(s.as_str(), "8") {
                        Some("dnf install java-1.8.0-openjdk-devel")
                    } else if str_eq(s.as_str(), "11") {
                        Some("dnf install java-11-openjdk-devel")
                    } else {
                        Some("dnf install java-21-openjdk-devel")
                    }
                },
                Version::Latest => Some("dnf install java-21-openjdk-devel"),
            },
            BuiltInLanguage::JavaScript => Some("dnf install nodejs20"),
            BuiltInLanguage::Rust => Some("dnf install rust"),
        }
    }

    /// No built-in language currently carries an init command.
    pub fn init_command(self, version: &Version) -> (r: Option<&'static str>)
        requires
            self.valid_version(*version),
        ensures
            r is None,
    {
        match self {
            BuiltInLanguage::Python3 => None,
            BuiltInLanguage::Java => None,
            BuiltInLanguage::JavaScript => None,
            BuiltInLanguage::Rust => None,
        }
    }

    /// Looks a built-in language up by its configuration key.
    pub fn from_key(s: &str) -> (r: Option<BuiltInLanguage>)
        ensures
            match r {
                Some(l) => l.key_spec() == s@,
                None => forall|l: BuiltInLanguage| l.key_spec() != s@,
            },
    {
        if str_eq(s, "python3") {
            Some(BuiltInLanguage::Python3)
        } else if str_eq(s, "java") {
            Some(BuiltInLanguage::Java)
        } else if str_eq(s, "javascript") {
            Some(BuiltInLanguage::JavaScript)
        } else if str_eq(s, "rust") {
            Some(BuiltInLanguage::Rust)
        } else {
            proof {
                assert(forall|l: BuiltInLanguage| l.key_spec() != s@) by {
                    assert(BuiltInLanguage::Python3.key_spec() != s@);
                    assert(BuiltInLanguage::Java.key_spec() != s@);
                    assert(BuiltInLanguage::JavaScript.key_spec() != s@);
                    assert(BuiltInLanguage::Rust.key_spec() != s@);
                }
            }
            None
        }
    }
}

/// A language made available to competitors: either a built-in toolchain at
/// a chosen version, or a fully user-described custom toolchain.
#[derive(Debug, Clone)]
pub enum Language {
    BuiltIn { language: BuiltInLanguage, version: Version },
    Custom {
        raw_name: String,
        name: String,
        build: Option<String>,
        run: String,
        source_file: String,
    },
}

impl PartialEq for Language {
    fn eq(&self, other: &Language) -> (r: bool) {
        match (self, other) {
            (
                Language::BuiltIn { language: l1, version: v1 },
                Language::BuiltIn { language: l2, version: v2 },
            ) => *l1 == *l2 && v1.eq(v2),
            (
                Language::Custom { raw_name: r1, name: n1, build: b1, run: u1, source_file: s1 },
                Language::Custom { raw_name: r2, name: n2, build: b2, run: u2, source_file: s2 },
            ) => {
                let builds_eq = match (b1, b2) {
                    (Some(x), Some(y)) => str_eq(x.as_str(), y.as_str()),
                    (None, None) => true,
                    _ => false,
                };
                str_eq(r1.as_str(), r2.as_str()) && str_eq(n1.as_str(), n2.as_str()) && builds_eq
                    && str_eq(u1.as_str(), u2.as_str()) && str_eq(s1.as_str(), s2.as_str())
            },
            _ => false,
        }
    }
}

/// What `==` on `Language` means: same variant, and fieldwise equal contents.
pub open spec fn language_eq(a: Language, b: Language) -> bool {
    match (a, b) {
        (
            Language::BuiltIn { language: l1, version: v1 },
            Language::BuiltIn { language: l2, version: v2 },
        ) => l1 == l2 && version_eq(v1, v2),
        (
            Language::Custom { raw_name: r1, name: n1, build: b1, run: u1, source_file: s1 },
            Language::Custom { raw_name: r2, name: n2, build: b2, run: u2, source_file: s2 },
        ) => r1@ == r2@ && n1@ == n2@ && u1@ == u2@ && s1@ == s2@ && match (b1, b2) {
            (Some(x), Some(y)) => x@ == y@,
            (None, None) => true,
            _ => false,
        },
        _ => false,
    }
}

impl vstd::std_specs::cmp::PartialEqSpecImpl for Language {
    open spec fn obeys_eq_spec() -> bool {
        true
    }

    open spec fn eq_spec(&self, other: &Language) -> bool {
        language_eq(*self, *other)
    }
}

impl Language {
    /// A language is well formed when a built-in one carries a version its
    /// table holds.
    pub open spec fn wf(self) -> bool {
        match self {
            Language::BuiltIn { language, version } => language.valid_version(version),
            Language::Custom { .. } => true,
        }
    }

    /// The configuration key this language was declared under.
    pub open spec fn raw_name_spec(self) -> Seq<char> {
        match self {
            Language::BuiltIn { language, .. } => language.key_spec(),
            Language::Custom { raw_name, .. } => raw_name@,
        }
    }

    pub fn raw_name(&self) -> (r: &str)
        ensures
            r@ == self.raw_name_spec(),
    {
        match self {
            Language::BuiltIn { language, .. } => language.as_str(),
            Language::Custom { raw_name, .. } => raw_name.as_str(),
        }
    }

    pub open spec fn name_spec(self) -> Seq<char> {
        match self {
            Language::BuiltIn { language, .. } => language.name_spec(),
            Language::Custom { name, .. } => name@,
        }
    }

    pub fn name(&self) -> (r: &str)
        ensures
            r@ == self.name_spec(),
    {
        match self {
            Language::BuiltIn { language, .. } => language.name(),
            Language::Custom { name, .. } => name.as_str(),
        }
    }

    pub open spec fn source_file_spec(self) -> Seq<char> {
        match self {
            Language::BuiltIn { language, .. } => language.source_file_spec(),
            Language::Custom { source_file, .. } => source_file@,
        }
    }

    pub fn source_file(&self) -> (r: &str)
        ensures
            r@ == self.source_file_spec(),
    {
        match self {
            Language::BuiltIn { language, .. } => language.source_file(),
            Language::Custom { source_file, .. } => source_file.as_str(),
        }
    }

    pub open spec fn build_command_spec(self) -> Option<Seq<char>> {
        match self {
            Language::BuiltIn { language, .. } => language.build_command_spec(),
            Language::Custom { build, .. } => match build {
                Some(b) => Some(b@),
                None => None,
            },
        }
    }

    pub fn build_command(&self) -> (r: Option<&str>)
        requires
            self.wf(),
        ensures
            match self.build_command_spec() {
                Some(c) => r matches Some(s) && s@ == c,
                None => r is None,
            },
    {
        match self {
            Language::BuiltIn { language, version } => language.build_command(version),
            Language::Custom { build, .. } => match build {
                Some(b) => Some(b.as_str()),
                None => None,
            },
        }
    }

    pub open spec fn run_command_spec(self) -> Seq<char> {
        match self {
            Language::BuiltIn { language, .. } => language.run_command_spec(),
            Language::Custom { run, .. } => run@,
        }
    }

    pub fn run_command(&self) -> (r: &str)
        requires
            self.wf(),
        ensures
            r@ == self.run_command_spec(),
    {
        match self {
            Language::BuiltIn { language, version } => language.run_command(version),
            Language::Custom { run, .. } => run.as_str(),
        }
    }

    pub open spec fn install_command_spec(self) -> Option<Seq<char>> {
        match self {
            Language::BuiltIn { language, version } => language.install_command_spec(version),
            Language::Custom { .. } => None,
        }
    }

    pub fn install_command(&self) -> (r: Option<&str>)
        requires
            self.wf(),
        ensures
            match self.install_command_spec() {
                Some(c) => r matches Some(s) && s@ == c,
                None => r is None,
            },
    {
        match self {
            Language::BuiltIn { language, version } => language.install_command(version),
            Language::Custom { .. } => None,
        }
    }

    /// Custom languages carry no init command, and no built-in language
    /// currently has one either.
    pub fn init_command(&self) -> (r: Option<&str>)
        requires
            self.wf(),
        ensures
            r is None,
    {
        match self {
            Language::BuiltIn { language, version } => language.init_command(version),
            Language::Custom { .. } => None,
        }
    }
}

} // verus!

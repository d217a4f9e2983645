use vstd::prelude::*;
use crate::text::str_eq;
use super::{BuiltInLanguage, Language, Version, language_eq};

verus! {

/// The set of languages a competition makes available, in declaration order,
/// with no language listed twice.
#[derive(Debug, Clone)]
pub struct LanguageSet {
    inner: Vec<Language>,
}

impl LanguageSet {
    /// Every member is well formed and no two members are equal.
    pub closed spec fn view(self) -> Seq<Language> {
        self.inner@
    }

    pub open spec fn wf(self) -> bool {
        &&& forall|i: int| 0 <= i < self@.len() ==> (#[trigger] self@[i]).wf()
        &&& forall|i: int, j: int| 0 <= i < j < self@.len() ==> !language_eq(self@[i], self@[j])
    }

    pub fn new() -> (r: LanguageSet)
        ensures
            r.wf(),
            r@ =~= Seq::<Language>::empty(),
    {
        LanguageSet { inner: Vec::new() }
    }

    pub fn len(&self) -> (r: usize)
        ensures
            r == self@.len(),
    {
        self.inner.len()
    }

    pub fn get(&self, i: usize) -> (r: &Language)
        requires
            i < self@.len(),
        ensures
            *r == self@[i as int],
    {
        &self.inner[i]
    }

    /// Whether the set already holds a language equal to `l`.
    pub fn contains(&self, l: &Language) -> (r: bool)
        ensures
            r == exists|i: int| 0 <= i < self@.len() && language_eq(#[trigger] self@[i], *l),
    {
        let mut i: usize = 0;
        while i < self.inner.len()
            invariant
                i <= self@.len(),
                forall|j: int| 0 <= j < i ==> !language_eq(#[trigger] self@[j], *l),
            decreases self@.len() - i,
        {
            if self.inner[i].eq(l) {
                proof {
                    assert(0 <= i < self@.len() && language_eq(self@[i as int], *l));
                }
                return true;
            }
            i = i + 1;
        }
        false
    }

    /// Adds `l` unless an equal language is already present; keeps
    /// declaration order.
    pub fn insert(&mut self, l: Language) -> (added: bool)
        requires
            old(self).wf(),
            l.wf(),
        ensures
            final(self).wf(),
            added ==> final(self)@ == old(self)@.push(l),
            !added ==> final(self)@ == old(self)@,
            !added ==> exists|i: int|
                0 <= i < old(self)@.len() && language_eq(#[trigger] old(self)@[i], l),
    {
        if self.contains(&l) {
            false
        } else {
            let ghost before = self@;
            self.inner.push(l);
            proof {
                assert(self@ == before.push(l));
                assert forall|i: int, j: int| 0 <= i < j < self@.len() implies !language_eq(
                    self@[i],
                    self@[j],
                ) by {
                    if j < before.len() {
                        assert(!language_eq(before[i], before[j]));
                    } else {
                        assert(!language_eq(before[i], l));
                    }
                }
                assert forall|i: int| 0 <= i < self@.len() implies (#[trigger] self@[i]).wf() by {
                    if i < before.len() {
                        assert(before[i].wf());
                    }
                }
            }
            true
        }
    }

    /// Finds the first language declared under the key `raw_name`: the
    /// returned language is the set's earliest member with that key.
    pub fn get_by_str(&self, raw_name: &str) -> (r: Option<&Language>)
        ensures
            match r {
                Some(l) => {
                    &&& exists|i: int|
                        0 <= i < self@.len() && #[trigger] self@[i] == *l && (forall|j: int|
                            0 <= j < i ==> (#[trigger] self@[j]).raw_name_spec() != raw_name@)
                    &&& l.raw_name_spec() == raw_name@
                },
                None => forall|i: int|
                    0 <= i < self@.len() ==> (#[trigger] self@[i]).raw_name_spec() != raw_name@,
            },
    {
        let mut i: usize = 0;
        while i < self.inner.len()
            invariant
                i <= self@.len(),
                forall|j: int| 0 <= j < i ==> (#[trigger] self@[j]).raw_name_spec() != raw_name@,
            decreases self@.len() - i,
        {
            if str_eq(self.inner[i].raw_name(), raw_name) {
                proof {
                    assert(0 <= i < self@.len() && self@[i as int].raw_name_spec() == raw_name@);
                    assert(self@[i as int] == self@[i as int] && (forall|j: int|
                        0 <= j < i ==> (#[trigger] self@[j]).raw_name_spec() != raw_name@));
                }
                return Some(&self.inner[i]);
            }
            i = i + 1;
        }
        None
    }
}

/// The shape a language declaration takes in the configuration file: the
/// word `latest` (or `*`), a bare version string, or a full custom toolchain.
#[derive(Debug, Clone, PartialEq, Eq)]
pub enum TomlLanguage {
    Latest,
    VersionName(String),
    Custom {
        name: Option<String>,
        build: Option<String>,
        run: String,
        source_file: String,
    },
}

/// Why a language declaration was rejected.
#[derive(Debug, Clone, PartialEq, Eq)]
pub enum LanguageEntryError {
    /// The key names no built-in language; carries the key.
    UnknownLanguage { key: String },
    /// The key is built in but the version is not in its table; carries the
    /// key, the requested version and the known version keys.
    UnknownVersion { key: String, version: String, known: Vec<&'static str> },
}

/// Turns one `key = value` declaration of the `languages` table into a
/// `Language`, validating built-in names and versions exactly as the
/// configuration format demands.
pub fn language_from_entry(key: &str, value: TomlLanguage) -> (r: Result<
    Language,
    LanguageEntryError,
>)
    ensures
        match value {
            TomlLanguage::Latest => match r {
                Ok(l) => {
                    &&& l matches Language::BuiltIn { language, version }
                    &&& language.key_spec() == key@
                    &&& version is Latest
                },
                Err(e) => {
                    &&& (forall|l: BuiltInLanguage| l.key_spec() != key@)
                    &&& e matches LanguageEntryError::UnknownLanguage { key: k } && k@ == key@
                },
            },
            TomlLanguage::VersionName(v) => match r {
                Ok(l) => {
                    &&& l matches Language::BuiltIn { language, version }
                    &&& language.key_spec() == key@
                    &&& version matches Version::Specific(s) && s@ == v@
                    &&& language.version_keys().contains(v@)
                },
                Err(e) => match e {
                    LanguageEntryError::UnknownLanguage { key: k } => {
                        &&& (forall|l: BuiltInLanguage| l.key_spec() != key@)
                        &&& k@ == key@
                    },
                    LanguageEntryError::UnknownVersion { key: k, version: vv, known } => {
                        &&& exists|l: BuiltInLanguage|
                            l.key_spec() == key@ && !(#[trigger] l.version_keys()).contains(v@)
                        &&& k@ == key@
                        &&& vv@ == v@
                    },
                },
            },
            TomlLanguage::Custom { name, build, run, source_file } => match r {
                Ok(l) => {
                    &&& l matches Language::Custom {
                        raw_name: rn,
                        name: n,
                        build: b,
                        run: ru,
                        source_file: sf,
                    }
                    &&& rn@ == key@
                    &&& n@ == (match name {
                        Some(nn) => nn@,
                        None => key@,
                    })
                    &&& (match (b, build) {
                        (Some(x), Some(y)) => x@ == y@,
                        (None, None) => true,
                        _ => false,
                    })
                    &&& ru@ == run@
                    &&& sf@ == source_file@
                },
                Err(_) => false,
            },
        },
{
    match value {
        TomlLanguage::Latest => match BuiltInLanguage::from_key(key) {
            Some(language) => Ok(Language::BuiltIn { language, version: Version::Latest }),
            None => Err(LanguageEntryError::UnknownLanguage { key: key.to_owned() }),
        },
        TomlLanguage::VersionName(v) => match BuiltInLanguage::from_key(key) {
            Some(language) => {
                if language.contains_version(v.as_str()) {
                    Ok(Language::BuiltIn { language, version: Version::Specific(v) })
                } else {
                    Err(LanguageEntryError::UnknownVersion {
                        key: key.to_owned(),
                        version: v,
                        known: language.version_key_list(),
                    })
                }
            },
            None => Err(LanguageEntryError::UnknownLanguage { key: key.to_owned() }),
        },
        TomlLanguage::Custom { name, build, run, source_file } => {
            let chosen_name = match name {
                Some(n) => n,
                None => key.to_owned(),
            };
            Ok(Language::Custom {
                raw_name: key.to_owned(),
                name: chosen_name,
                build,
                run,
                source_file,
            })
        },
    }
}

} // verus!

verus! {

/// How one language serializes: a built-in becomes its version word
/// (`latest`, or the version name); a custom toolchain becomes its table,
/// its display name written out.
pub open spec fn language_toml_rel(l: Language, v: crate::toml_data::TomlValue) -> bool {
    match l {
        Language::BuiltIn { language, version } => match version {
            Version::Latest => v matches crate::toml_data::TomlValue::Text(s) && s@ == "latest"@,
            Version::Specific(x) => v matches crate::toml_data::TomlValue::Text(s) && s@ == x@,
        },
        Language::Custom { raw_name, name, build, run, source_file } => {
            &&& v matches crate::toml_data::TomlValue::Table(es)
            &&& crate::toml_data::keys_within(
                es@,
                seq!["name"@, "build"@, "run"@, "source_file"@],
            )
            &&& crate::toml_data::lookup(es@, "name"@) matches Some(
                crate::toml_data::TomlValue::Text(n),
            ) && n@ == name@
            &&& crate::toml_data::lookup(es@, "run"@) matches Some(
                crate::toml_data::TomlValue::Text(r),
            ) && r@ == run@
            &&& crate::toml_data::lookup(es@, "source_file"@) matches Some(
                crate::toml_data::TomlValue::Text(sf),
            ) && sf@ == source_file@
            &&& match build {
                Some(b) => crate::toml_data::lookup(es@, "build"@) matches Some(
                    crate::toml_data::TomlValue::Text(bb),
                ) && bb@ == b@,
                None => crate::toml_data::lookup(es@, "build"@) is None,
            }
        },
    }
}

impl LanguageSet {
    /// Serializes the set back into its table form, one entry per
    /// language in declaration order, keyed by each language's raw name.
    pub fn to_toml(&self) -> (r: crate::toml_data::TomlValue)
        ensures
            r matches crate::toml_data::TomlValue::Table(es) && es@.len() == self@.len() && forall|
                i: int,
            |
                0 <= i < es@.len() ==> ((#[trigger] es@[i]).0@ == self@[i].raw_name_spec()
                    && language_toml_rel(self@[i], es@[i].1)),
    {
        let mut out: Vec<(String, crate::toml_data::TomlValue)> = Vec::new();
        let mut i: usize = 0;
        while i < self.inner.len()
            invariant
                i <= self@.len(),
                out@.len() == i,
                forall|j: int|
                    0 <= j < i ==> ((#[trigger] out@[j]).0@ == self@[j].raw_name_spec()
                        && language_toml_rel(self@[j], out@[j].1)),
            decreases self@.len() - i,
        {
            let entry = match &self.inner[i] {
                Language::BuiltIn { language, version } => {
                    let key = crate::text::str_to_string(language.as_str());
                    let value = match version {
                        Version::Latest => crate::toml_data::TomlValue::Text(
                            crate::text::str_to_string("latest"),
                        ),
                        Version::Specific(v) => crate::toml_data::TomlValue::Text(
                            crate::text::str_to_string(v.as_str()),
                        ),
                    };
                    (key, value)
                },
                Language::Custom { raw_name, name, build, run, source_file } => {
                    let key = crate::text::str_to_string(raw_name.as_str());
                    let mut fields: Vec<(String, crate::toml_data::TomlValue)> = Vec::new();
                    fields.push(
                        (
                            crate::text::str_to_string("name"),
                            crate::toml_data::TomlValue::Text(
                                crate::text::str_to_string(name.as_str()),
                            ),
                        ),
                    );
                    match build {
                        Some(b) => {
                            fields.push(
                                (
                                    crate::text::str_to_string("build"),
                                    crate::toml_data::TomlValue::Text(
                                        crate::text::str_to_string(b.as_str()),
                                    ),
                                ),
                            );
                        },
                        None => {},
                    }
                    fields.push(
                        (
                            crate::text::str_to_string("run"),
                            crate::toml_data::TomlValue::Text(
                                crate::text::str_to_string(run.as_str()),
                            ),
                        ),
                    );
                    fields.push(
                        (
                            crate::text::str_to_string("source_file"),
                            crate::toml_data::TomlValue::Text(
                                crate::text::str_to_string(source_file.as_str()),
                            ),
                        ),
                    );
                    proof {
                        reveal_strlit("name");
                        reveal_strlit("build");
                        reveal_strlit("run");
                        reveal_strlit("source_file");
                        let fs = fields@;
                        assert(fs[0].0@ == "name"@);
                        if build is Some {
                            assert(fs.len() == 4);
                            assert(fs[1].0@ == "build"@);
                            assert(fs[2].0@ == "run"@);
                            assert(fs[3].0@ == "source_file"@);
                            crate::toml_data::lemma_lookup_at(fs, "name"@, 0);
                            crate::toml_data::lemma_lookup_at(fs, "build"@, 1);
                            crate::toml_data::lemma_lookup_at(fs, "run"@, 2);
                            crate::toml_data::lemma_lookup_at(fs, "source_file"@, 3);
                            assert(crate::toml_data::keys_within(
                                fs,
                                seq!["name"@, "build"@, "run"@, "source_file"@],
                            ));
                        } else {
                            assert(fs.len() == 3);
                            assert(fs[1].0@ == "run"@);
                            assert(fs[2].0@ == "source_file"@);
                            crate::toml_data::lemma_lookup_at(fs, "name"@, 0);
                            crate::toml_data::lemma_lookup_none(fs, "build"@);
                            crate::toml_data::lemma_lookup_at(fs, "run"@, 1);
                            crate::toml_data::lemma_lookup_at(fs, "source_file"@, 2);
                            assert(crate::toml_data::keys_within(
                                fs,
                                seq!["name"@, "build"@, "run"@, "source_file"@],
                            ));
                        }
                    }
                    (key, crate::toml_data::TomlValue::Table(fields))
                },
            };
            out.push(entry);
            proof {
                assert(language_toml_rel(self@[i as int], out@[i as int].1));
            }
            i = i + 1;
        }
        crate::toml_data::TomlValue::Table(out)
    }
}

/// A well-formed set's serialization is accepted back by the reader: every
/// entry it writes satisfies the reader's acceptance condition.
pub proof fn lemma_language_set_round_trip(l: Language, v: crate::toml_data::TomlValue)
    requires
        l.wf(),
        language_toml_rel(l, v),
    ensures
        crate::from_toml::lang_entry_ok(l.raw_name_spec(), v),
{
    reveal_strlit("latest");
    reveal_strlit("*");
    match l {
        Language::BuiltIn { language, version } => match version {
            Version::Latest => {
                assert(exists|b: BuiltInLanguage| #[trigger] b.key_spec() == l.raw_name_spec())
                    by {
                    assert(language.key_spec() == l.raw_name_spec());
                }
            },
            Version::Specific(x) => {
                if x@ == "latest"@ || x@ == "*"@ {
                    assert(exists|b: BuiltInLanguage|
                        #[trigger] b.key_spec() == l.raw_name_spec()) by {
                        assert(language.key_spec() == l.raw_name_spec());
                    }
                } else {
                    assert(exists|b: BuiltInLanguage|
                        #[trigger] b.key_spec() == l.raw_name_spec()
                            && b.version_keys().contains(x@)) by {
                        assert(language.key_spec() == l.raw_name_spec()
                            && language.version_keys().contains(x@));
                    }
                }
            },
        },
        Language::Custom { .. } => {},
    }
}

} // verus!

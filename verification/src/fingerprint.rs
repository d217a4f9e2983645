//! The configuration fingerprint: a canonical, whitespace-independent
//! rendering of the parsed configuration, hashed with xxh3.  Two texts that
//! parse to the same configuration always get the same fingerprint.

use vstd::prelude::*;
use crate::{Accounts, CommandConfig, Config, FileCopy, Setup, TestRunner, User};
use crate::{base36_seq, base36_string};
use crate::language::{Language, LanguageSet, Version};
use crate::packet::{Packet, Problem, Test};
use crate::render::markdown::MarkdownRenderable;
use crate::roi::{Raw, RawOrImport};

verus! {

/// What `xxhash_rust::xxh3::xxh3_64` returns for the UTF-8 bytes of a
/// string with these characters.
pub uninterp spec fn xxh3_str_of(s: Seq<char>) -> u64;

/// Relies on `xxhash_rust::xxh3::xxh3_64`: an unseeded, pure hash of the
/// string's UTF-8 bytes, so a function of its characters alone.
#[verifier::external_body]
fn xxh3_str(s: &str) -> (r: u64)
    ensures
        r == xxh3_str_of(s@),
{
    xxhash_rust::xxh3::xxh3_64(s.as_bytes())
}

/// A string, rendered as its base-36 length, `:`, and its characters.
pub open spec fn canon_str(s: Seq<char>) -> Seq<char> {
    base36_seq(s.len()) + ":"@ + s
}

/// A number, rendered in base 36 with a closing `,`.
pub open spec fn canon_u64(x: u64) -> Seq<char> {
    base36_seq(x as nat) + ","@
}

pub open spec fn canon_bool(b: bool) -> Seq<char> {
    if b {
        "1"@
    } else {
        "0"@
    }
}

/// The items of `s` rendered by `f`, one after the other.
pub open spec fn canon_list<A>(s: Seq<A>, f: spec_fn(A) -> Seq<char>) -> Seq<char>
    decreases s.len(),
{
    if s.len() == 0 {
        Seq::empty()
    } else {
        f(s[0]) + canon_list(s.drop_first(), f)
    }
}

/// A list: its length, then its items.
pub open spec fn canon_vec<A>(s: Seq<A>, f: spec_fn(A) -> Seq<char>) -> Seq<char> {
    canon_u64(s.len() as u64) + canon_list(s, f)
}

pub proof fn lemma_canon_list_snoc<A>(s: Seq<A>, f: spec_fn(A) -> Seq<char>, i: int)
    requires
        0 <= i < s.len(),
    ensures
        canon_list(s.take(i + 1), f) == canon_list(s.take(i), f) + f(s[i]),
    decreases i,
{
    if i == 0 {
        assert(s.take(1) =~= seq![s[0]]);
        assert(s.take(1)[0] == s[0]);
        assert(s.take(1).drop_first() =~= Seq::<A>::empty());
        assert(canon_list(s.take(1).drop_first(), f) == Seq::<char>::empty());
        assert(canon_list(s.take(1), f) == f(s[0]) + Seq::<char>::empty());
        assert(f(s[0]) + Seq::<char>::empty() =~= f(s[0]));
        assert(s.take(0) =~= Seq::<A>::empty());
        assert(canon_list(s.take(0), f) + f(s[0]) =~= f(s[0]));
    } else {
        let t = s.drop_first();
        lemma_canon_list_snoc(t, f, i - 1);
        assert(s.take(i + 1).drop_first() =~= t.take(i));
        assert(s.take(i).drop_first() =~= t.take(i - 1));
        assert(s.take(i + 1)[0] == s[0]);
        assert(s.take(i)[0] == s[0]);
        assert(canon_list(s.take(i + 1), f) == f(s[0]) + canon_list(t.take(i), f));
        assert(t[i - 1] == s[i]);
        assert(canon_list(s.take(i + 1), f) == f(s[0]) + (canon_list(t.take(i - 1), f) + f(s[i])));
        assert(canon_list(s.take(i), f) == f(s[0]) + canon_list(t.take(i - 1), f));
        assert(f(s[0]) + (canon_list(t.take(i - 1), f) + f(s[i])) =~= (f(s[0]) + canon_list(
            t.take(i - 1),
            f,
        )) + f(s[i]));
    }
}

pub open spec fn canon_user(u: User) -> Seq<char> {
    canon_str(u.name@) + canon_str(u.password@)
}

pub open spec fn canon_accounts(a: Accounts) -> Seq<char> {
    canon_vec(a.admins@, |u: User| canon_user(u)) + canon_vec(
        a.competitors@,
        |u: User| canon_user(u),
    )
}

pub open spec fn canon_opt_str(o: Option<Seq<char>>) -> Seq<char> {
    match o {
        Some(s) => "s"@ + canon_str(s),
        None => "n"@,
    }
}

/// A text value that may instead be an import path: `v` marks a value in
/// place, `i` an import.
pub open spec fn canon_roi_text(value_or_path: Result<Seq<char>, Seq<char>>) -> Seq<char> {
    match value_or_path {
        Ok(s) => "v"@ + canon_str(s),
        Err(p) => "i"@ + canon_str(p),
    }
}

pub open spec fn canon_roi_string(x: RawOrImport<String, Raw>) -> Seq<char> {
    match x {
        RawOrImport::Value(s) => canon_roi_text(Ok(s@)),
        RawOrImport::Import(p, _) => canon_roi_text(Err(p@)),
    }
}

pub open spec fn canon_roi_md(x: RawOrImport<MarkdownRenderable, Raw>) -> Seq<char> {
    match x {
        RawOrImport::Value(m) => canon_roi_text(Ok(m@)),
        RawOrImport::Import(p, _) => canon_roi_text(Err(p@)),
    }
}

pub open spec fn canon_setup(s: Setup) -> Seq<char> {
    (match s.install {
        Some(x) => "s"@ + canon_roi_string(x),
        None => "n"@,
    }) + (match s.init {
        Some(x) => "s"@ + canon_roi_string(x),
        None => "n"@,
    })
}

pub open spec fn canon_ccfg(c: CommandConfig<u64>) -> Seq<char> {
    match c {
        CommandConfig::Neither => "N"@,
        CommandConfig::Both(t) => "B"@ + canon_u64(t),
        CommandConfig::Compile { compile } => "C"@ + canon_u64(compile),
        CommandConfig::Run { run } => "R"@ + canon_u64(run),
        CommandConfig::Each { compile, run } => "E"@ + canon_u64(compile) + canon_u64(run),
    }
}

pub open spec fn canon_file_copy(f: FileCopy) -> Seq<char> {
    canon_str(f.from@) + canon_str(f.to@)
}

pub open spec fn canon_runner(t: TestRunner) -> Seq<char> {
    canon_u64(t.timeout) + canon_bool(t.trim_output) + canon_vec(
        t.copy_files@,
        |f: FileCopy| canon_file_copy(f),
    ) + canon_ccfg(t.max_memory) + canon_ccfg(t.max_file_size)
}

pub open spec fn canon_version(v: Version) -> Seq<char> {
    match v {
        Version::Latest => "L"@,
        Version::Specific(s) => "S"@ + canon_str(s@),
    }
}

pub open spec fn canon_language(l: Language) -> Seq<char> {
    match l {
        Language::BuiltIn { language, version } => "b"@ + canon_str(language.key_spec())
            + canon_version(version),
        Language::Custom { raw_name, name, build, run, source_file } => "c"@ + canon_str(raw_name@)
            + canon_str(name@) + canon_opt_str(
            match build {
                Some(b) => Some(b@),
                None => None,
            },
        ) + canon_str(run@) + canon_str(source_file@),
    }
}

pub open spec fn canon_langset(ls: LanguageSet) -> Seq<char> {
    canon_vec(ls@, |l: Language| canon_language(l))
}

pub open spec fn canon_test(t: Test) -> Seq<char> {
    canon_str(t.input@) + canon_str(t.output@) + canon_bool(t.visible)
}

pub open spec fn canon_problem(p: Problem) -> Seq<char> {
    (match p.languages {
        Some(ls) => "s"@ + canon_vec(ls@, |s: String| canon_str(s@)),
        None => "n"@,
    }) + canon_str(p.title@) + (match p.description {
        Some(d) => "s"@ + canon_roi_md(d),
        None => "n"@,
    }) + canon_vec(p.tests@, |t: Test| canon_test(t))
}

pub open spec fn canon_roi_problem(x: RawOrImport<Problem>) -> Seq<char> {
    match x {
        RawOrImport::Value(p) => "v"@ + canon_problem(p),
        RawOrImport::Import(p, _) => "i"@ + canon_str(p@),
    }
}

pub open spec fn canon_packet(p: Packet) -> Seq<char> {
    canon_str(p.title@) + (match p.preamble {
        Some(x) => "s"@ + canon_roi_md(x),
        None => "n"@,
    }) + canon_vec(p.problems@, |x: RawOrImport<Problem>| canon_roi_problem(x))
}

/// The setup slot's rendering.
pub open spec fn canon_cfg_setup(x: Option<RawOrImport<Setup>>) -> Seq<char> {
    match x {
        Some(RawOrImport::Value(s)) => "sv"@ + canon_setup(s),
        Some(RawOrImport::Import(p, _)) => "si"@ + canon_str(p@),
        None => "n"@,
    }
}

pub open spec fn canon_cfg_languages(x: RawOrImport<LanguageSet>) -> Seq<char> {
    match x {
        RawOrImport::Value(ls) => "v"@ + canon_langset(ls),
        RawOrImport::Import(p, _) => "i"@ + canon_str(p@),
    }
}

pub open spec fn canon_cfg_accounts(x: RawOrImport<Accounts>) -> Seq<char> {
    match x {
        RawOrImport::Value(a) => "v"@ + canon_accounts(a),
        RawOrImport::Import(p, _) => "i"@ + canon_str(p@),
    }
}

pub open spec fn canon_cfg_packet(x: RawOrImport<Packet>) -> Seq<char> {
    match x {
        RawOrImport::Value(p) => "v"@ + canon_packet(p),
        RawOrImport::Import(p, _) => "i"@ + canon_str(p@),
    }
}

pub open spec fn canon_cfg_runner(x: RawOrImport<TestRunner>) -> Seq<char> {
    match x {
        RawOrImport::Value(t) => "v"@ + canon_runner(t),
        RawOrImport::Import(p, _) => "i"@ + canon_str(p@),
    }
}

/// The canonical rendering of a configuration: every field in a fixed
/// order, lengths marked, the fingerprint field itself left out.
pub open spec fn canon_config(c: Config) -> Seq<char> {
    canon_u64(c.port as u64) + canon_cfg_setup(c.setup) + canon_cfg_languages(c.languages)
        + canon_cfg_accounts(c.accounts) + canon_cfg_packet(c.packet) + canon_cfg_runner(
        c.test_runner,
    )
}

/// The fingerprint value of a configuration.
pub open spec fn fingerprint_of(c: Config) -> u64 {
    xxh3_str_of(canon_config(c))
}

} // verus!

verus! {

fn push_canon_str(out: &mut String, s: &str)
    ensures
        final(out)@ == old(out)@ + canon_str(s@),
{
    let n = s.unicode_len();
    let len36 = base36_string(n as u64);
    out.append(len36.as_str());
    out.append(":");
    out.append(s);
}

fn push_canon_u64(out: &mut String, x: u64)
    ensures
        final(out)@ == old(out)@ + canon_u64(x),
{
    let d = base36_string(x);
    out.append(d.as_str());
    out.append(",");
}

fn push_canon_bool(out: &mut String, b: bool)
    ensures
        final(out)@ == old(out)@ + canon_bool(b),
{
    if b {
        out.append("1");
    } else {
        out.append("0");
    }
}

fn push_canon_user(out: &mut String, u: &User)
    ensures
        final(out)@ == old(out)@ + canon_user(*u),
{
    push_canon_str(out, u.name.as_str());
    push_canon_str(out, u.password.as_str());
}

fn push_canon_users(out: &mut String, us: &Vec<User>)
    ensures
        final(out)@ == old(out)@ + canon_vec(us@, |u: User| canon_user(u)),
{
    let ghost f = |u: User| canon_user(u);
    push_canon_u64(out, us.len() as u64);
    let ghost start = out@;
    let mut i: usize = 0;
    proof {
        assert(us@.take(0) =~= Seq::<User>::empty());
    }
    while i < us.len()
        invariant
            i <= us@.len(),
            f == (|u: User| canon_user(u)),
            out@ == start + canon_list(us@.take(i as int), f),
        decreases us@.len() - i,
    {
        push_canon_user(out, &us[i]);
        proof {
            lemma_canon_list_snoc(us@, f, i as int);
        }
        i = i + 1;
    }
    proof {
        assert(us@.take(us@.len() as int) =~= us@);
    }
}

fn push_canon_roi_string(out: &mut String, x: &RawOrImport<String, Raw>)
    ensures
        final(out)@ == old(out)@ + canon_roi_string(*x),
{
    match x {
        RawOrImport::Value(s) => {
            out.append("v");
            push_canon_str(out, s.as_str());
        },
        RawOrImport::Import(p, _) => {
            out.append("i");
            push_canon_str(out, p.as_str());
        },
    }
}

fn push_canon_roi_md(out: &mut String, x: &RawOrImport<MarkdownRenderable, Raw>)
    ensures
        final(out)@ == old(out)@ + canon_roi_md(*x),
{
    match x {
        RawOrImport::Value(m) => {
            out.append("v");
            push_canon_str(out, m.raw());
        },
        RawOrImport::Import(p, _) => {
            out.append("i");
            push_canon_str(out, p.as_str());
        },
    }
}

fn push_canon_setup(out: &mut String, s: &Setup)
    ensures
        final(out)@ == old(out)@ + canon_setup(*s),
{
    match &s.install {
        Some(x) => {
            out.append("s");
            push_canon_roi_string(out, x);
        },
        None => {
            out.append("n");
        },
    }
    match &s.init {
        Some(x) => {
            out.append("s");
            push_canon_roi_string(out, x);
        },
        None => {
            out.append("n");
        },
    }
}

fn push_canon_ccfg(out: &mut String, c: &CommandConfig<u64>)
    ensures
        final(out)@ == old(out)@ + canon_ccfg(*c),
{
    match c {
        CommandConfig::Neither => {
            out.append("N");
        },
        CommandConfig::Both(t) => {
            out.append("B");
            push_canon_u64(out, *t);
        },
        CommandConfig::Compile { compile } => {
            out.append("C");
            push_canon_u64(out, *compile);
        },
        CommandConfig::Run { run } => {
            out.append("R");
            push_canon_u64(out, *run);
        },
        CommandConfig::Each { compile, run } => {
            out.append("E");
            push_canon_u64(out, *compile);
            push_canon_u64(out, *run);
        },
    }
}

fn push_canon_file_copies(out: &mut String, fs: &Vec<FileCopy>)
    ensures
        final(out)@ == old(out)@ + canon_vec(fs@, |f: FileCopy| canon_file_copy(f)),
{
    let ghost f = |x: FileCopy| canon_file_copy(x);
    push_canon_u64(out, fs.len() as u64);
    let ghost start = out@;
    let mut i: usize = 0;
    proof {
        assert(fs@.take(0) =~= Seq::<FileCopy>::empty());
    }
    while i < fs.len()
        invariant
            i <= fs@.len(),
            f == (|x: FileCopy| canon_file_copy(x)),
            out@ == start + canon_list(fs@.take(i as int), f),
        decreases fs@.len() - i,
    {
        push_canon_str(out, fs[i].from.as_str());
        push_canon_str(out, fs[i].to.as_str());
        proof {
            lemma_canon_list_snoc(fs@, f, i as int);
        }
        i = i + 1;
    }
    proof {
        assert(fs@.take(fs@.len() as int) =~= fs@);
    }
}

fn push_canon_runner(out: &mut String, t: &TestRunner)
    ensures
        final(out)@ == old(out)@ + canon_runner(*t),
{
    push_canon_u64(out, t.timeout);
    push_canon_bool(out, t.trim_output);
    push_canon_file_copies(out, &t.copy_files);
    push_canon_ccfg(out, &t.max_memory);
    push_canon_ccfg(out, &t.max_file_size);
}

fn push_canon_language(out: &mut String, l: &Language)
    ensures
        final(out)@ == old(out)@ + canon_language(*l),
{
    match l {
        Language::BuiltIn { language, version } => {
            out.append("b");
            push_canon_str(out, language.as_str());
            match version {
                Version::Latest => {
                    out.append("L");
                },
                Version::Specific(s) => {
                    out.append("S");
                    push_canon_str(out, s.as_str());
                },
            }
        },
        Language::Custom { raw_name, name, build, run, source_file } => {
            out.append("c");
            push_canon_str(out, raw_name.as_str());
            push_canon_str(out, name.as_str());
            match build {
                Some(b) => {
                    out.append("s");
                    push_canon_str(out, b.as_str());
                },
                None => {
                    out.append("n");
                },
            }
            push_canon_str(out, run.as_str());
            push_canon_str(out, source_file.as_str());
        },
    }
}

fn push_canon_langset(out: &mut String, ls: &LanguageSet)
    ensures
        final(out)@ == old(out)@ + canon_langset(*ls),
{
    let ghost f = |l: Language| canon_language(l);
    push_canon_u64(out, ls.len() as u64);
    let ghost start = out@;
    let mut i: usize = 0;
    proof {
        assert(ls@.take(0) =~= Seq::<Language>::empty());
    }
    while i < ls.len()
        invariant
            i <= ls@.len(),
            f == (|l: Language| canon_language(l)),
            out@ == start + canon_list(ls@.take(i as int), f),
        decreases ls@.len() - i,
    {
        push_canon_language(out, ls.get(i));
        proof {
            lemma_canon_list_snoc(ls@, f, i as int);
        }
        i = i + 1;
    }
    proof {
        assert(ls@.take(ls@.len() as int) =~= ls@);
    }
}

fn push_canon_test(out: &mut String, t: &Test)
    ensures
        final(out)@ == old(out)@ + canon_test(*t),
{
    push_canon_str(out, t.input.as_str());
    push_canon_str(out, t.output.as_str());
    push_canon_bool(out, t.visible);
}

fn push_canon_tests(out: &mut String, ts: &Vec<Test>)
    ensures
        final(out)@ == old(out)@ + canon_vec(ts@, |t: Test| canon_test(t)),
{
    let ghost f = |t: Test| canon_test(t);
    push_canon_u64(out, ts.len() as u64);
    let ghost start = out@;
    let mut i: usize = 0;
    proof {
        assert(ts@.take(0) =~= Seq::<Test>::empty());
    }
    while i < ts.len()
        invariant
            i <= ts@.len(),
            f == (|t: Test| canon_test(t)),
            out@ == start + canon_list(ts@.take(i as int), f),
        decreases ts@.len() - i,
    {
        push_canon_test(out, &ts[i]);
        proof {
            lemma_canon_list_snoc(ts@, f, i as int);
        }
        i = i + 1;
    }
    proof {
        assert(ts@.take(ts@.len() as int) =~= ts@);
    }
}

fn push_canon_texts(out: &mut String, ss: &Vec<String>)
    ensures
        final(out)@ == old(out)@ + canon_vec(ss@, |s: String| canon_str(s@)),
{
    let ghost f = |s: String| canon_str(s@);
    push_canon_u64(out, ss.len() as u64);
    let ghost start = out@;
    let mut i: usize = 0;
    proof {
        assert(ss@.take(0) =~= Seq::<String>::empty());
    }
    while i < ss.len()
        invariant
            i <= ss@.len(),
            f == (|s: String| canon_str(s@)),
            out@ == start + canon_list(ss@.take(i as int), f),
        decreases ss@.len() - i,
    {
        push_canon_str(out, ss[i].as_str());
        proof {
            lemma_canon_list_snoc(ss@, f, i as int);
        }
        i = i + 1;
    }
    proof {
        assert(ss@.take(ss@.len() as int) =~= ss@);
    }
}

fn push_canon_problem(out: &mut String, p: &Problem)
    ensures
        final(out)@ == old(out)@ + canon_problem(*p),
{
    match &p.languages {
        Some(ls) => {
            out.append("s");
            push_canon_texts(out, ls);
        },
        None => {
            out.append("n");
        },
    }
    push_canon_str(out, p.title.as_str());
    match &p.description {
        Some(d) => {
            out.append("s");
            push_canon_roi_md(out, d);
        },
        None => {
            out.append("n");
        },
    }
    push_canon_tests(out, &p.tests);
}

fn push_canon_problems(out: &mut String, ps: &Vec<RawOrImport<Problem>>)
    ensures
        final(out)@ == old(out)@ + canon_vec(ps@, |x: RawOrImport<Problem>| canon_roi_problem(x)),
{
    let ghost f = |x: RawOrImport<Problem>| canon_roi_problem(x);
    push_canon_u64(out, ps.len() as u64);
    let ghost start = out@;
    let mut i: usize = 0;
    proof {
        assert(ps@.take(0) =~= Seq::<RawOrImport<Problem>>::empty());
    }
    while i < ps.len()
        invariant
            i <= ps@.len(),
            f == (|x: RawOrImport<Problem>| canon_roi_problem(x)),
            out@ == start + canon_list(ps@.take(i as int), f),
        decreases ps@.len() - i,
    {
        match &ps[i] {
            RawOrImport::Value(p) => {
                out.append("v");
                push_canon_problem(out, p);
            },
            RawOrImport::Import(p, _) => {
                out.append("i");
                push_canon_str(out, p.as_str());
            },
        }
        proof {
            lemma_canon_list_snoc(ps@, f, i as int);
        }
        i = i + 1;
    }
    proof {
        assert(ps@.take(ps@.len() as int) =~= ps@);
    }
}

fn push_canon_packet(out: &mut String, p: &Packet)
    ensures
        final(out)@ == old(out)@ + canon_packet(*p),
{
    push_canon_str(out, p.title.as_str());
    match &p.preamble {
        Some(x) => {
            out.append("s");
            push_canon_roi_md(out, x);
        },
        None => {
            out.append("n");
        },
    }
    push_canon_problems(out, &p.problems);
}

fn push_canon_accounts(out: &mut String, a: &Accounts)
    ensures
        final(out)@ == old(out)@ + canon_accounts(*a),
{
    push_canon_users(out, &a.admins);
    push_canon_users(out, &a.competitors);
}

fn push_cfg_setup(out: &mut String, x: &Option<RawOrImport<Setup>>)
    ensures
        final(out)@ == old(out)@ + canon_cfg_setup(*x),
{
    match x {
        Some(RawOrImport::Value(s)) => {
            out.append("sv");
            push_canon_setup(out, s);
        },
        Some(RawOrImport::Import(p, _)) => {
            out.append("si");
            push_canon_str(out, p.as_str());
        },
        None => {
            out.append("n");
        },
    }
}

fn push_cfg_languages(out: &mut String, x: &RawOrImport<LanguageSet>)
    ensures
        final(out)@ == old(out)@ + canon_cfg_languages(*x),
{
    match x {
        RawOrImport::Value(ls) => {
            out.append("v");
            push_canon_langset(out, ls);
        },
        RawOrImport::Import(p, _) => {
            out.append("i");
            push_canon_str(out, p.as_str());
        },
    }
}

fn push_cfg_accounts(out: &mut String, x: &RawOrImport<Accounts>)
    ensures
        final(out)@ == old(out)@ + canon_cfg_accounts(*x),
{
    match x {
        RawOrImport::Value(a) => {
            out.append("v");
            push_canon_accounts(out, a);
        },
        RawOrImport::Import(p, _) => {
            out.append("i");
            push_canon_str(out, p.as_str());
        },
    }
}

fn push_cfg_packet(out: &mut String, x: &RawOrImport<Packet>)
    ensures
        final(out)@ == old(out)@ + canon_cfg_packet(*x),
{
    match x {
        RawOrImport::Value(p) => {
            out.append("v");
            push_canon_packet(out, p);
        },
        RawOrImport::Import(p, _) => {
            out.append("i");
            push_canon_str(out, p.as_str());
        },
    }
}

fn push_cfg_runner(out: &mut String, x: &RawOrImport<TestRunner>)
    ensures
        final(out)@ == old(out)@ + canon_cfg_runner(*x),
{
    match x {
        RawOrImport::Value(t) => {
            out.append("v");
            push_canon_runner(out, t);
        },
        RawOrImport::Import(p, _) => {
            out.append("i");
            push_canon_str(out, p.as_str());
        },
    }
}

/// The canonical rendering of `c`, as a string.
pub fn config_canon_string(c: &Config) -> (r: String)
    ensures
        r@ == canon_config(*c),
{
    let mut out = String::new();
    push_canon_u64(&mut out, c.port as u64);
    push_cfg_setup(&mut out, &c.setup);
    push_cfg_languages(&mut out, &c.languages);
    push_cfg_accounts(&mut out, &c.accounts);
    push_cfg_packet(&mut out, &c.packet);
    push_cfg_runner(&mut out, &c.test_runner);
    out
}

/// The fingerprint of `c`: the xxh3 hash of its canonical rendering.
pub fn config_fingerprint(c: &Config) -> (r: u64)
    ensures
        r == fingerprint_of(*c),
{
    let canon = config_canon_string(c);
    xxh3_str(canon.as_str())
}

} // verus!

verus! {

/// The fingerprint is a function of the parsed configuration alone: two
/// configurations with the same canonical rendering — in particular, two
/// parses of texts that differ only in comments, ordering or whitespace —
/// carry the same fingerprint.
pub proof fn lemma_fingerprint_canonical(a: Config, b: Config)
    requires
        canon_config(a) == canon_config(b),
    ensures
        fingerprint_of(a) == fingerprint_of(b),
{
}

} // verus!

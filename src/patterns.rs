//! Regular expressions (the `regex` crate) and path globs (the `globset`
//! crate), compiled once and kept together with the pattern they came from.
use vstd::prelude::*;

verus! {

/// `regex::Regex`, a compiled regular expression, carried as an opaque value.
#[verifier::external_type_specification]
#[verifier::external_body]
pub struct ExRegex(regex::Regex);

/// `globset::GlobSet`, compiled globs, carried as an opaque value.
#[verifier::external_type_specification]
#[verifier::external_body]
pub struct ExGlobSet(globset::GlobSet);

/// Whether `regex::Regex::new` accepts the pattern.
pub uninterp spec fn regex_valid(pattern: Seq<char>) -> bool;

/// Whether the pattern matches somewhere in the text (`regex::Regex::is_match`).
pub uninterp spec fn regex_match(pattern: Seq<char>, text: Seq<char>) -> bool;

/// The groups of the leftmost-first match (`regex::Regex::captures`), group 0
/// being the whole match; `None` for a group that took no part in it.
pub uninterp spec fn regex_groups(pattern: Seq<char>, text: Seq<char>) -> Option<Seq<Option<Seq<char>>>>;

/// The name of each group, by index (`regex::Regex::capture_names`).
pub uninterp spec fn regex_group_names(pattern: Seq<char>) -> Seq<Option<Seq<char>>>;

/// Whether `globset::Glob::new` accepts the pattern and a `GlobSet` of it
/// builds (its regex stays within globset's size limit).
pub uninterp spec fn glob_valid(pattern: Seq<char>) -> bool;

/// Whether the whole path matches the glob (`globset::GlobSet::is_match`).
pub uninterp spec fn glob_match(pattern: Seq<char>, path: Seq<char>) -> bool;

pub open spec fn opt_view(o: Option<String>) -> Option<Seq<char>> {
    match o {
        Some(s) => Some(s@),
        None => None,
    }
}

pub open spec fn opts_view(v: Seq<Option<String>>) -> Seq<Option<Seq<char>>> {
    v.map_values(|o: Option<String>| opt_view(o))
}

/// A regular expression with the pattern it was compiled from.
pub struct CompiledRegex {
    pattern: String,
    re: regex::Regex,
}

impl CompiledRegex {
    pub closed spec fn pattern(&self) -> Seq<char> {
        self.pattern@
    }
}

/// Relies on `regex::Regex::new`: it compiles exactly the valid patterns.
#[verifier::external_body]
pub(crate) fn compile_regex(pattern: &str) -> (r: Option<CompiledRegex>)
    ensures
        r.is_some() == regex_valid(pattern@),
        r matches Some(c) ==> c.pattern() == pattern@,
{
    regex::Regex::new(pattern).ok().map(|re| CompiledRegex { pattern: pattern.to_string(), re })
}

/// Relies on `regex::Regex::is_match`: whether the regex matches anywhere in `text`.
#[verifier::external_body]
pub(crate) fn regex_is_match(c: &CompiledRegex, text: &str) -> (r: bool)
    ensures
        r == regex_match(c.pattern(), text@),
{
    c.re.is_match(text)
}

/// Relies on `regex::Regex::captures`: the groups of the first match, which
/// exists exactly when `is_match` holds.
#[verifier::external_body]
pub(crate) fn regex_captures(c: &CompiledRegex, text: &str) -> (r: Option<Vec<Option<String>>>)
    ensures
        r.is_some() == regex_match(c.pattern(), text@),
        r matches Some(g) ==> regex_groups(c.pattern(), text@) == Some(opts_view(g@)),
{
    c.re.captures(text).map(|caps| caps.iter().map(|m| m.map(|m| m.as_str().to_string())).collect())
}

/// Relies on `regex::Regex::capture_names`: the name of each group, by index.
#[verifier::external_body]
pub(crate) fn regex_capture_names(c: &CompiledRegex) -> (r: Vec<Option<String>>)
    ensures
        opts_view(r@) == regex_group_names(c.pattern()),
{
    c.re.capture_names().map(|n| n.map(|n| n.to_string())).collect()
}

/// A compiled path glob with the pattern it was compiled from.
pub struct CompiledGlob {
    pattern: String,
    set: globset::GlobSet,
}

impl CompiledGlob {
    pub closed spec fn pattern(&self) -> Seq<char> {
        self.pattern@
    }
}

/// Relies on `globset::Glob::new` and `GlobSetBuilder::build` (which reports
/// a regex over the size limit as an error): it compiles exactly the valid
/// globs.
#[verifier::external_body]
pub(crate) fn compile_glob(pattern: &str) -> (r: Option<CompiledGlob>)
    ensures
        r.is_some() == glob_valid(pattern@),
        r matches Some(c) ==> c.pattern() == pattern@,
{
    let glob = globset::Glob::new(pattern).ok()?;
    let set = globset::GlobSetBuilder::new().add(glob).build().ok()?;
    Some(CompiledGlob { pattern: pattern.to_string(), set })
}

/// Relies on `globset::GlobSet::is_match`: whether the whole path matches the
/// set's one glob.
#[verifier::external_body]
pub(crate) fn glob_is_match(c: &CompiledGlob, path: &str) -> (r: bool)
    ensures
        r == glob_match(c.pattern(), path@),
{
    c.set.is_match(path)
}

/// Whether `pattern` is a valid regular expression.
pub fn is_valid_regex(pattern: &str) -> (r: bool)
    ensures
        r == regex_valid(pattern@),
{
    compile_regex(pattern).is_some()
}

/// Whether `pattern` is a valid glob.
pub fn is_valid_glob(pattern: &str) -> (r: bool)
    ensures
        r == glob_valid(pattern@),
{
    compile_glob(pattern).is_some()
}

/// Compiles `pattern` and tests it against `text`; an invalid pattern matches
/// nothing.
pub fn regex_test(pattern: &str, text: &str) -> (r: bool)
    ensures
        r == (regex_valid(pattern@) && regex_match(pattern@, text@)),
{
    match compile_regex(pattern) {
        Some(c) => regex_is_match(&c, text),
        None => false,
    }
}

} // verus!

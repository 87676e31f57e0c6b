//! Choosing the files to analyze: every tracked path that no blacklist
//! pattern matches.
use crate::config::project::ProjectFileConfig;
use vstd::prelude::*;

verus! {

/// Whether the regular expression `pattern` compiles.
pub uninterp spec fn regex_compiles(pattern: Seq<char>) -> bool;

/// Whether the regular expression `pattern` matches somewhere in `text`.
pub uninterp spec fn regex_finds(pattern: Seq<char>, text: Seq<char>) -> bool;

#[verifier::external_type_specification]
#[verifier::external_body]
pub struct ExRegex(regex::Regex);

#[verifier::external_type_specification]
#[verifier::external_body]
pub struct ExRegexError(regex::Error);

/// Relies on `regex::Regex::new`: it returns `Ok` exactly for the patterns
/// that compile, which depends on the pattern alone.
#[verifier::external_body]
fn compile_regex(pattern: &str) -> (r: Result<regex::Regex, regex::Error>)
    ensures
        r is Ok <==> regex_compiles(pattern@),
{
    regex::Regex::new(pattern)
}

/// A compiled path pattern together with its source text.
pub struct Pattern {
    source: String,
    regex: regex::Regex,
}

/// A pattern that does not compile.
pub struct PatternError {
    pub pattern: String,
}

impl View for Pattern {
    type V = Seq<char>;

    closed spec fn view(&self) -> Seq<char> {
        self.source@
    }
}

/// Relies on `regex::Regex::is_match`: whether the regex matches somewhere in
/// `text`. The regex of a `Pattern` is only ever compiled from its `source`
/// (by `Pattern::new`), so the answer is that of the pattern's text.
#[verifier::external_body]
fn pattern_is_match(p: &Pattern, text: &str) -> (r: bool)
    ensures
        r == regex_finds(p@, text@),
{
    p.regex.is_match(text)
}

impl Pattern {
    /// Compiles `source`; fails exactly where it is no valid regular
    /// expression.
    pub fn new(source: &str) -> (r: Result<Pattern, PatternError>)
        ensures
            r is Ok <==> regex_compiles(source@),
            r matches Ok(p) ==> p@ == source@,
            r matches Err(e) ==> e.pattern@ == source@,
    {
        match compile_regex(source) {
            Ok(regex) => Ok(Pattern { source: String::from_str(source), regex }),
            Err(_) => Err(PatternError { pattern: String::from_str(source) }),
        }
    }

    /// The text the pattern was compiled from.
    pub fn as_str(&self) -> (r: &str)
        ensures
            r@ == self@,
    {
        self.source.as_str()
    }

    /// Whether the pattern matches somewhere in `text`.
    pub fn is_match(&self, text: &str) -> (r: bool)
        ensures
            r == regex_finds(self@, text@),
    {
        pattern_is_match(self, text)
    }
}

/// Some pattern of `patterns` matches `path`.
pub open spec fn blacklisted(patterns: Seq<Pattern>, path: Seq<char>) -> bool {
    exists|i: int| 0 <= i < patterns.len() && regex_finds(#[trigger] patterns[i]@, path)
}

/// The paths of `files` that no pattern matches, in their order.
pub open spec fn selected(files: Seq<String>, patterns: Seq<Pattern>) -> Seq<String>
    decreases files.len(),
{
    if files.len() == 0 {
        Seq::empty()
    } else if blacklisted(patterns, files.last()@) {
        selected(files.drop_last(), patterns)
    } else {
        selected(files.drop_last(), patterns).push(files.last())
    }
}

/// Whether some pattern of `patterns` matches `path`.
pub fn is_blacklisted(patterns: &Vec<Pattern>, path: &str) -> (r: bool)
    ensures
        r == blacklisted(patterns@, path@),
{
    let mut i: usize = 0;
    while i < patterns.len()
        invariant
            i <= patterns@.len(),
            forall|j: int| 0 <= j < i ==> !regex_finds(#[trigger] patterns@[j]@, path@),
        decreases patterns@.len() - i,
    {
        if patterns[i].is_match(path) {
            assert(regex_finds(patterns@[i as int]@, path@));
            return true;
        }
        i = i + 1;
    }
    false
}

/// The tracked paths to analyze: those of `files` that no pattern of the
/// blacklist matches, in their order.
pub fn select_files(files: &Vec<String>, project_file_config: &ProjectFileConfig) -> (r: Vec<
    String,
>)
    ensures
        r@ == selected(files@, project_file_config.blacklist@),
{
    let patterns = &project_file_config.blacklist;
    let mut out: Vec<String> = Vec::new();
    let mut i: usize = 0;
    while i < files.len()
        invariant
            i <= files@.len(),
            patterns == &project_file_config.blacklist,
            out@ == selected(files@.subrange(0, i as int), patterns@),
        decreases files@.len() - i,
    {
        let ghost sub = files@.subrange(0, i + 1);
        assert(sub.drop_last() =~= files@.subrange(0, i as int));
        if !is_blacklisted(patterns, files[i].as_str()) {
            out.push(files[i].clone());
        }
        i = i + 1;
    }
    assert(files@.subrange(0, files@.len() as int) =~= files@);
    out
}

/// With an empty blacklist every path is selected, in its order.
pub proof fn lemma_selected_no_patterns(files: Seq<String>)
    ensures
        selected(files, Seq::empty()) == files,
    decreases files.len(),
{
    if files.len() > 0 {
        lemma_selected_no_patterns(files.drop_last());
        assert(files.drop_last().push(files.last()) =~= files);
    }
}

/// A path is selected exactly when it is among the files and no pattern
/// matches it.
pub proof fn lemma_selected_members(files: Seq<String>, patterns: Seq<Pattern>, f: String)
    ensures
        selected(files, patterns).contains(f) <==> (files.contains(f) && !blacklisted(
            patterns,
            f@,
        )),
    decreases files.len(),
{
    if files.len() > 0 {
        let init = files.drop_last();
        lemma_selected_members(init, patterns, f);
        assert(files =~= init.push(files.last()));
        if files.contains(f) && f != files.last() {
            let i = choose|i: int| 0 <= i < files.len() && files[i] == f;
            assert(init[i] == f);
        }
        if init.contains(f) {
            let i = choose|i: int| 0 <= i < init.len() && init[i] == f;
            assert(files[i] == f);
        }
        if !blacklisted(patterns, files.last()@) {
            let s = selected(init, patterns);
            assert(s.push(files.last())[s.len() as int] == files.last());
            if s.push(files.last()).contains(f) && f != files.last() {
                let i = choose|i: int| 0 <= i < s.len() + 1 && s.push(files.last())[i] == f;
                assert(s[i] == f);
            }
            if s.contains(f) {
                let i = choose|i: int| 0 <= i < s.len() && s[i] == f;
                assert(s.push(files.last())[i] == f);
            }
        }
        assert(files[files.len() - 1] == files.last());
    }
}

} // verus!

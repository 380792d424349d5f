//! Compiled regular expressions, known by the text they were compiled from.

use crate::text::texts;
use regex::Regex;
use vstd::prelude::*;

verus! {

/// The type `regex::Regex`, carried as an opaque value.
#[verifier::external_type_specification]
#[verifier::external_body]
pub struct ExRegex(regex::Regex);

/// The type `regex::Error`, carried as an opaque value.
#[verifier::external_type_specification]
#[verifier::external_body]
pub struct ExRegexError(regex::Error);

/// What `Regex::new` compiles a pattern to; `None` where it rejects the pattern.
pub uninterp spec fn compiled_regex(pattern: Seq<char>) -> Option<regex::Regex>;

/// Whether the expression that `Regex::new` compiles from `pattern` matches
/// anywhere in `text`.
pub uninterp spec fn regex_is_match(pattern: Seq<char>, text: Seq<char>) -> bool;

/// The groups of the first match in `text` of the expression that `Regex::new`
/// compiles from `pattern`, by their index. A group that took no part in the match
/// is `None`; without a match there are no groups at all.
pub uninterp spec fn regex_captures(pattern: Seq<char>, text: Seq<char>) -> Option<
    Seq<Option<Seq<char>>>,
>;

/// The text of an optional string.
pub open spec fn opt_text(s: Option<String>) -> Option<Seq<char>> {
    match s {
        Some(t) => Some(t@),
        None => None,
    }
}

/// The texts of the groups of a match.
pub open spec fn group_texts(groups: Option<Vec<Option<String>>>) -> Option<
    Seq<Option<Seq<char>>>,
> {
    match groups {
        Some(v) => Some(v@.map_values(|g: Option<String>| opt_text(g))),
        None => None,
    }
}

/// `Regex::new`. What it returns depends on the pattern alone.
#[verifier::external_body]
fn new_regex(pattern: &str) -> (r: Result<Regex, regex::Error>)
    ensures
        match r {
            Ok(re) => compiled_regex(pattern@) == Some(re),
            Err(_) => compiled_regex(pattern@) is None,
        },
{
    Regex::new(pattern)
}

/// A pattern that `Regex::new` rejected.
#[derive(Debug)]
pub struct PatternError {
    pub pattern: String,
}

/// A regular expression together with the text it was compiled from, which is its view.
pub struct Pattern {
    source: String,
    regex: Regex,
}

impl View for Pattern {
    type V = Seq<char>;

    closed spec fn view(&self) -> Seq<char> {
        self.source@
    }
}

impl Pattern {
    #[verifier::type_invariant]
    spec fn compiled_from_source(&self) -> bool {
        compiled_regex(self.source@) == Some(self.regex)
    }

    /// Compiles a pattern, with the default options of `Regex::new`.
    pub fn new(source: &str) -> (r: Result<Pattern, PatternError>)
        ensures
            match r {
                Ok(p) => compiled_regex(source@) is Some && p@ == source@,
                Err(e) => compiled_regex(source@) is None && e.pattern@ == source@,
            },
    {
        match new_regex(source) {
            Ok(regex) => Ok(Pattern { source: source.to_owned(), regex }),
            Err(_) => Err(PatternError { pattern: source.to_owned() }),
        }
    }

    /// `Regex::is_match`: whether the expression matches anywhere in `text`. The
    /// expression was made by `Regex::new`, so that its text settles the answer.
    #[verifier::external_body]
    pub(crate) fn is_match(&self, text: &str) -> (r: bool)
        ensures
            r == regex_is_match(self@, text@),
    {
        self.regex.is_match(text)
    }

    /// `Regex::captures`: the groups of the first match in `text`, which there are
    /// exactly where the expression matches.
    #[verifier::external_body]
    pub(crate) fn captures(&self, text: &str) -> (r: Option<Vec<Option<String>>>)
        ensures
            group_texts(r) == regex_captures(self@, text@),
            r is Some == regex_is_match(self@, text@),
    {
        let groups = self.regex.captures(text)?;
        Some(groups.iter().map(|g| g.map(|m| m.as_str().to_owned())).collect())
    }
}

/// The first pattern of a list that does not compile.
pub open spec fn first_rejected(patterns: Seq<Seq<char>>) -> Option<Seq<char>>
    decreases patterns.len(),
{
    if patterns.len() == 0 {
        None
    } else if compiled_regex(patterns[0]) is None {
        Some(patterns[0])
    } else {
        first_rejected(patterns.drop_first())
    }
}

/// The first rejected pattern of two lists is that of the first, if it has one.
pub proof fn lemma_first_rejected_concat(a: Seq<Seq<char>>, b: Seq<Seq<char>>)
    ensures
        first_rejected(a + b) == match first_rejected(a) {
            Some(p) => Some(p),
            None => first_rejected(b),
        },
    decreases a.len(),
{
    if a.len() == 0 {
        assert(a + b == b);
    } else {
        assert((a + b).drop_first() == a.drop_first() + b);
        lemma_first_rejected_concat(a.drop_first(), b);
    }
}

/// The texts that a list of patterns was compiled from.
pub open spec fn sources(v: Seq<Pattern>) -> Seq<Seq<char>> {
    v.map_values(|p: Pattern| p@)
}

/// Compiles a list of patterns, up to the first that is rejected.
pub fn compile_all(list: &Vec<&str>) -> (r: Result<Vec<Pattern>, PatternError>)
    ensures
        match r {
            Ok(v) => first_rejected(texts(list@)) is None && sources(v@) == texts(list@),
            Err(e) => first_rejected(texts(list@)) == Some(e.pattern@),
        },
{
    let ghost all = texts(list@);
    let mut v: Vec<Pattern> = Vec::new();
    let mut i: usize = 0;
    assert(all.skip(0) == all);
    while i < list.len()
        invariant
            i <= list@.len(),
            all == texts(list@),
            sources(v@) == all.take(i as int),
            first_rejected(all) == first_rejected(all.skip(i as int)),
        decreases list@.len() - i,
    {
        assert(all.skip(i as int).drop_first() == all.skip(i + 1));
        assert(all.skip(i as int)[0] == list@[i as int]@);
        let ghost before = sources(v@);
        match Pattern::new(list[i]) {
            Ok(p) => {
                v.push(p);
            },
            Err(e) => {
                return Err(e);
            },
        }
        assert(sources(v@) == before.push(all[i as int]));
        assert(all.take(i + 1) == before.push(all[i as int]));
        i += 1;
    }
    assert(all.take(i as int) == all);
    Ok(v)
}

} // verus!

//! The pattern-matching engine, behind a narrow trusted interface.
//!
//! Matching is delegated to the `regex` crate and never reimplemented here.
//! Both compilation and matching are deterministic functions of the pattern
//! text and the path, so their outcomes are given names — [`regex_valid`]
//! and [`regex_captures`] — that the contracts of the rest of the library
//! are stated over. A [`CompiledPattern`] pairs the compiled matcher with
//! the text it was compiled from; the `regex` field is only ever produced
//! by [`regex_new`], which compiles exactly the text stored beside it.

use vstd::prelude::*;

use crate::errors::PatternCompileError;

verus! {

#[verifier::external_type_specification]
#[verifier::external_body]
pub struct ExRegex(regex::Regex);

#[verifier::external_type_specification]
#[verifier::external_body]
pub struct ExRegexError(regex::Error);

/// Whether the `regex` crate accepts `pattern` as a regular expression.
/// Names the success of `regex::Regex::new`, which depends on the pattern
/// text alone.
pub uninterp spec fn regex_valid(pattern: Seq<char>) -> bool;

/// The outcome of matching the compiled form of `pattern` against `path`:
/// `None` when the path does not match, otherwise one pair per capture
/// group (the whole-pattern match excluded), in left-to-right order of the
/// group's opening parenthesis, each pair holding the group's name (`None`
/// for a positional group) and the substring the group captured (empty for
/// a group that took no part in the match). Names the combined result of
/// `regex::Regex::captures` and the capture-group accessors, which depends
/// on the pattern text and the path alone.
pub uninterp spec fn regex_captures(pattern: Seq<char>, path: Seq<char>) -> Option<
    Seq<(Option<Seq<char>>, Seq<char>)>,
>;

/// Does the compiled form of `pattern` match `path`?
pub open spec fn pattern_matches(pattern: Seq<char>, path: Seq<char>) -> bool {
    regex_captures(pattern, path) is Some
}

/// The capture pairs of a successful match (empty if there is no match).
pub open spec fn capture_pairs(pattern: Seq<char>, path: Seq<char>) -> Seq<
    (Option<Seq<char>>, Seq<char>),
> {
    match regex_captures(pattern, path) {
        Some(pairs) => pairs,
        None => Seq::empty(),
    }
}

/// The captured substrings of a successful match, without their names.
pub open spec fn capture_values(pattern: Seq<char>, path: Seq<char>) -> Seq<Seq<char>> {
    capture_pairs(pattern, path).map_values(|p: (Option<Seq<char>>, Seq<char>)| p.1)
}

/// A pattern compiled for matching, together with the text it was compiled
/// from. Its view is that text.
pub struct CompiledPattern {
    pattern: String,
    regex: regex::Regex,
}

impl View for CompiledPattern {
    type V = Seq<char>;

    closed spec fn view(&self) -> Seq<char> {
        self.pattern@
    }
}

/// Relies on `regex::Regex::new`: it accepts or rejects a pattern by its
/// text alone, and the matcher it returns is kept beside exactly that text.
#[verifier::external_body]
fn regex_new(pattern: &str) -> (r: Result<CompiledPattern, regex::Error>)
    ensures
        r is Ok <==> regex_valid(pattern@),
        r matches Ok(cp) ==> cp@ == pattern@,
{
    match regex::Regex::new(pattern) {
        Ok(regex) => Ok(CompiledPattern { pattern: pattern.to_owned(), regex }),
        Err(e) => Err(e),
    }
}

/// Extract the captures of `re` matched against `path`: `None` when the
/// path does not match, otherwise one `(name, value)` pair per capture
/// group in left-to-right order, the whole-pattern match excluded. A group
/// that took no part in the match yields an empty value.
///
/// Relies on `regex::Regex::captures`, `Regex::capture_names`,
/// `Captures::name`, `Captures::get` and `Match::as_str`: together they
/// report, as a function of the pattern text and the path alone, whether
/// the path matches and what each group captured. `capture_names` yields
/// the groups in index order starting with the unnamed whole-pattern group,
/// and `name`/`get` return the named and positional group's span.
#[verifier::external_body]
pub fn get_owned_captures(re: &CompiledPattern, path: &str) -> (r: Option<
    Vec<(Option<String>, String)>,
>)
    ensures
        r.deep_view() == regex_captures(re@, path@),
{
    re.regex.captures(path).map(|caps| {
        re.regex.capture_names().enumerate().skip(1).map(|(i, name)| {
            let m = match name {
                Some(n) => caps.name(n),
                None => caps.get(i),
            };
            let value = m.map_or(String::new(), |m| m.as_str().to_owned());
            (name.map(|n| n.to_owned()), value)
        }).collect()
    })
}

impl CompiledPattern {
    /// Compile a pattern, failing exactly when the regular-expression
    /// engine rejects its text.
    pub fn compile(pattern: &str) -> (r: Result<CompiledPattern, PatternCompileError>)
        ensures
            r is Ok <==> regex_valid(pattern@),
            r matches Ok(cp) ==> cp@ == pattern@,
    {
        match regex_new(pattern) {
            Ok(cp) => Ok(cp),
            Err(_) => Err(PatternCompileError),
        }
    }

    /// The text this pattern was compiled from.
    pub fn as_str(&self) -> (r: &str)
        ensures
            r@ == self@,
    {
        self.pattern.as_str()
    }
}

/// The captured substrings of `re` matched against `path`, in group order
/// and without their names: `None` exactly when the path does not match.
pub fn get_capture_values(re: &CompiledPattern, path: &str) -> (r: Option<Vec<String>>)
    ensures
        r is Some <==> pattern_matches(re@, path@),
        r matches Some(v) ==> v.deep_view() == capture_values(re@, path@),
{
    match get_owned_captures(re, path) {
        None => None,
        Some(pairs) => {
            let ghost target = capture_values(re@, path@);
            let mut vals: Vec<String> = Vec::new();
            let mut i: usize = 0;
            while i < pairs.len()
                invariant
                    0 <= i <= pairs@.len(),
                    pairs.deep_view() == capture_pairs(re@, path@),
                    target == capture_values(re@, path@),
                    vals@.len() == i,
                    forall|j: int| 0 <= j < i ==> vals@[j]@ == target[j],
                decreases pairs@.len() - i,
            {
                let p = &pairs[i];
                vals.push(p.1.clone());
                proof {
                    assert(pairs.deep_view()[i as int] == pairs@[i as int].deep_view());
                    assert(target[i as int] == capture_pairs(re@, path@)[i as int].1);
                }
                i = i + 1;
            }
            proof {
                assert(vals.deep_view() =~= target);
            }
            Some(vals)
        },
    }
}

} // verus!

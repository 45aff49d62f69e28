//! Normalization of route patterns.
//!
//! A pattern is accepted when, after trimming surrounding whitespace, it
//! starts with `/` (a rooted path) or `^` (an already-anchored expression).
//! Normalization strips a pre-existing leading anchor, a pre-existing
//! trailing anchor (either a bare `$` or the `/?$` suffix that normalization
//! itself appends) and trailing slashes, then re-anchors the remaining core:
//! `^` in front, `/?$` behind, so the compiled pattern matches the path with
//! or without a trailing slash. The empty core normalizes to `^/$`.
//! Normalizing an already-normalized pattern returns it unchanged
//! ([`lemma_normalize_idempotent`]).

use vstd::prelude::*;
use vstd::string::StrSliceExecFns;
use vstd::string::StringExecFns;

use crate::errors::InvalidPatternError;

verus! {

/// The characters trimmed from the ends of a pattern: the Unicode
/// white-space characters.
pub open spec fn is_space_char(c: char) -> bool {
    ||| c == '\t' || c == '\n' || c == '\u{0b}' || c == '\u{0c}' || c == '\r' || c == ' '
    ||| c == '\u{85}' || c == '\u{a0}' || c == '\u{1680}'
    ||| c == '\u{2000}' || c == '\u{2001}' || c == '\u{2002}' || c == '\u{2003}'
    ||| c == '\u{2004}' || c == '\u{2005}' || c == '\u{2006}' || c == '\u{2007}'
    ||| c == '\u{2008}' || c == '\u{2009}' || c == '\u{200a}'
    ||| c == '\u{2028}' || c == '\u{2029}' || c == '\u{202f}' || c == '\u{205f}'
    ||| c == '\u{3000}'
}

/// `s` without its leading whitespace.
pub open spec fn trim_start_spec(s: Seq<char>) -> Seq<char>
    decreases s.len(),
{
    if s.len() > 0 && is_space_char(s[0]) {
        trim_start_spec(s.drop_first())
    } else {
        s
    }
}

/// `s` without its trailing whitespace.
pub open spec fn trim_end_spec(s: Seq<char>) -> Seq<char>
    decreases s.len(),
{
    if s.len() > 0 && is_space_char(s.last()) {
        trim_end_spec(s.drop_last())
    } else {
        s
    }
}

/// `s` without surrounding whitespace.
pub open spec fn trim_spec(s: Seq<char>) -> Seq<char> {
    trim_end_spec(trim_start_spec(s))
}

/// `s` without its leading run of `ch`.
pub open spec fn strip_start(s: Seq<char>, ch: char) -> Seq<char>
    decreases s.len(),
{
    if s.len() > 0 && s[0] == ch {
        strip_start(s.drop_first(), ch)
    } else {
        s
    }
}

/// `s` without its trailing run of `ch`.
pub open spec fn strip_end(s: Seq<char>, ch: char) -> Seq<char>
    decreases s.len(),
{
    if s.len() > 0 && s.last() == ch {
        strip_end(s.drop_last(), ch)
    } else {
        s
    }
}

/// Does `s` end with the `/?$` suffix that normalization appends?
pub open spec fn has_opt_slash_anchor(s: Seq<char>) -> bool {
    &&& s.len() >= 3
    &&& s[s.len() - 3] == '/'
    &&& s[s.len() - 2] == '?'
    &&& s[s.len() - 1] == '$'
}

/// `s` without a pre-existing trailing anchor: the whole `/?$` suffix when
/// present, otherwise any trailing run of `$`.
pub open spec fn strip_end_anchor(s: Seq<char>) -> Seq<char> {
    if has_opt_slash_anchor(s) {
        s.subrange(0, s.len() - 3)
    } else {
        strip_end(s, '$')
    }
}

/// The core of a pattern: trimmed, with leading anchor, trailing anchor and
/// trailing slashes removed.
pub open spec fn pattern_core(s: Seq<char>) -> Seq<char> {
    strip_end(strip_end_anchor(strip_start(trim_spec(s), '^')), '/')
}

/// A pattern is rooted when its trimmed form starts with `/` or `^`.
pub open spec fn pattern_rooted(s: Seq<char>) -> bool {
    &&& trim_spec(s).len() > 0
    &&& (trim_spec(s)[0] == '/' || trim_spec(s)[0] == '^')
}

/// The normalized form of a pattern: its core re-anchored at both ends.
pub open spec fn normalize_spec(s: Seq<char>) -> Seq<char> {
    let core = pattern_core(s);
    if core.len() == 0 {
        seq!['^', '/', '$']
    } else {
        seq!['^'] + core + seq!['/', '?', '$']
    }
}

fn is_space(c: char) -> (r: bool)
    ensures
        r == is_space_char(c),
{
    (c == '\t' || c == '\n' || c == '\u{0b}' || c == '\u{0c}' || c == '\r' || c == ' ')
        || (c == '\u{85}' || c == '\u{a0}' || c == '\u{1680}')
        || (c == '\u{2000}' || c == '\u{2001}' || c == '\u{2002}' || c == '\u{2003}')
        || (c == '\u{2004}' || c == '\u{2005}' || c == '\u{2006}' || c == '\u{2007}')
        || (c == '\u{2008}' || c == '\u{2009}' || c == '\u{200a}')
        || (c == '\u{2028}' || c == '\u{2029}' || c == '\u{202f}' || c == '\u{205f}')
        || c == '\u{3000}'
}

/// `trim_start_spec` drops exactly the leading run of whitespace.
proof fn lemma_trim_start_index(s: Seq<char>, k: int)
    requires
        0 <= k <= s.len(),
        forall|j: int| 0 <= j < k ==> is_space_char(s[j]),
        k == s.len() || !is_space_char(s[k]),
    ensures
        trim_start_spec(s) == s.subrange(k, s.len() as int),
    decreases k,
{
    if k == 0 {
        assert(s.subrange(0, s.len() as int) =~= s);
    } else {
        assert(is_space_char(s[0]));
        let d = s.drop_first();
        assert forall|j: int| 0 <= j < k - 1 implies is_space_char(d[j]) by {
            assert(d[j] == s[j + 1]);
        }
        lemma_trim_start_index(d, k - 1);
        assert(d.subrange(k - 1, d.len() as int) =~= s.subrange(k, s.len() as int));
    }
}

/// `trim_end_spec` drops exactly the trailing run of whitespace.
proof fn lemma_trim_end_index(s: Seq<char>, k: int)
    requires
        0 <= k <= s.len(),
        forall|j: int| k <= j < s.len() ==> is_space_char(s[j]),
        k == 0 || !is_space_char(s[k - 1]),
    ensures
        trim_end_spec(s) == s.subrange(0, k),
    decreases s.len() - k,
{
    if k == s.len() {
        assert(s.subrange(0, s.len() as int) =~= s);
    } else {
        assert(is_space_char(s.last()));
        let d = s.drop_last();
        lemma_trim_end_index(d, k);
        assert(d.subrange(0, k) =~= s.subrange(0, k));
    }
}

/// `strip_start` drops exactly the leading run of `ch`.
proof fn lemma_strip_start_index(s: Seq<char>, ch: char, k: int)
    requires
        0 <= k <= s.len(),
        forall|j: int| 0 <= j < k ==> s[j] == ch,
        k == s.len() || s[k] != ch,
    ensures
        strip_start(s, ch) == s.subrange(k, s.len() as int),
    decreases k,
{
    if k == 0 {
        assert(s.subrange(0, s.len() as int) =~= s);
    } else {
        let d = s.drop_first();
        assert forall|j: int| 0 <= j < k - 1 implies d[j] == ch by {
            assert(d[j] == s[j + 1]);
        }
        lemma_strip_start_index(d, ch, k - 1);
        assert(d.subrange(k - 1, d.len() as int) =~= s.subrange(k, s.len() as int));
    }
}

/// `strip_end` drops exactly the trailing run of `ch`.
proof fn lemma_strip_end_index(s: Seq<char>, ch: char, k: int)
    requires
        0 <= k <= s.len(),
        forall|j: int| k <= j < s.len() ==> s[j] == ch,
        k == 0 || s[k - 1] != ch,
    ensures
        strip_end(s, ch) == s.subrange(0, k),
    decreases s.len() - k,
{
    if k == s.len() {
        assert(s.subrange(0, s.len() as int) =~= s);
    } else {
        let d = s.drop_last();
        lemma_strip_end_index(d, ch, k);
        assert(d.subrange(0, k) =~= s.subrange(0, k));
    }
}

/// `strip_end` returns a prefix of its input whose last character, if any,
/// is not `ch`; such a prefix is left unchanged by another `strip_end`.
proof fn lemma_strip_end_props(s: Seq<char>, ch: char)
    ensures
        strip_end(s, ch).len() <= s.len(),
        strip_end(s, ch) == s.subrange(0, strip_end(s, ch).len() as int),
        strip_end(s, ch).len() == 0 || strip_end(s, ch).last() != ch,
    decreases s.len(),
{
    if s.len() > 0 && s.last() == ch {
        let d = s.drop_last();
        lemma_strip_end_props(d, ch);
        assert(d.subrange(0, strip_end(d, ch).len() as int) =~= s.subrange(
            0,
            strip_end(d, ch).len() as int,
        ));
    } else {
        assert(s.subrange(0, s.len() as int) =~= s);
    }
}

/// `strip_start` returns a suffix of its input whose first character, if
/// any, is not `ch`.
proof fn lemma_strip_start_props(s: Seq<char>, ch: char)
    ensures
        strip_start(s, ch).len() <= s.len(),
        strip_start(s, ch) == s.subrange(
            s.len() - strip_start(s, ch).len(),
            s.len() as int,
        ),
        strip_start(s, ch).len() == 0 || strip_start(s, ch)[0] != ch,
    decreases s.len(),
{
    if s.len() > 0 && s[0] == ch {
        let d = s.drop_first();
        lemma_strip_start_props(d, ch);
        assert(d.subrange(d.len() - strip_start(d, ch).len(), d.len() as int) =~= s.subrange(
            s.len() - strip_start(d, ch).len(),
            s.len() as int,
        ));
    } else {
        assert(s.subrange(0, s.len() as int) =~= s);
    }
}

/// The core of a pattern never starts with `^` and never ends with `/`,
/// so stripping trailing slashes from it changes nothing.
proof fn lemma_core_props(s: Seq<char>)
    ensures
        pattern_core(s).len() > 0 ==> pattern_core(s)[0] != '^',
        pattern_core(s).len() == 0 || pattern_core(s).last() != '/',
{
    let t = trim_spec(s);
    let u = strip_start(t, '^');
    let v = strip_end_anchor(u);
    let c = strip_end(v, '/');
    lemma_strip_start_props(t, '^');
    lemma_strip_end_props(v, '/');
    if c.len() > 0 {
        // c is a prefix of v, and v is a prefix of u, so c[0] == u[0] != '^'.
        if has_opt_slash_anchor(u) {
            assert(v[0] == u[0]);
        } else {
            lemma_strip_end_props(u, '$');
            assert(v[0] == u[0]);
        }
        assert(c[0] == v[0]);
    }
}

/// Law: normalization is idempotent. The normalized form of any pattern is
/// itself a rooted pattern, and normalizing it again returns it unchanged.
pub proof fn lemma_normalize_idempotent(s: Seq<char>)
    ensures
        pattern_rooted(normalize_spec(s)),
        normalize_spec(normalize_spec(s)) == normalize_spec(s),
{
    let c = pattern_core(s);
    let r = normalize_spec(s);
    lemma_core_props(s);
    if c.len() == 0 {
        assert(r =~= seq!['^', '/', '$']);
        assert(r[0] == '^' && r.last() == '$');
        assert(trim_start_spec(r) == r);
        assert(trim_end_spec(r) == r);
        assert(trim_spec(r) == r);
        // strip the leading anchor: "^/$" loses its caret
        let u = r.drop_first();
        assert(u =~= seq!['/', '$']);
        assert(strip_start(r, '^') == strip_start(u, '^'));
        assert(strip_start(u, '^') == u);
        // no "/?$" suffix (too short), so trailing dollars go one by one
        assert(!has_opt_slash_anchor(u));
        assert(u.drop_last() =~= seq!['/']);
        assert(strip_end(u, '$') == strip_end(seq!['/'], '$'));
        assert(strip_end(seq!['/'], '$') == seq!['/']);
        assert(seq!['/'].drop_last() =~= Seq::<char>::empty());
        assert(strip_end(seq!['/'], '/') == strip_end(Seq::<char>::empty(), '/'));
        assert(strip_end(Seq::<char>::empty(), '/') == Seq::<char>::empty());
        assert(pattern_core(r) =~= Seq::<char>::empty());
        assert(normalize_spec(r) == r);
    } else {
        let tail = seq!['/', '?', '$'];
        assert(r == seq!['^'] + c + tail);
        assert(r.len() == c.len() + 4);
        assert(r[0] == '^');
        assert(r.last() == '$');
        assert(trim_start_spec(r) == r);
        assert(trim_end_spec(r) == r);
        assert(trim_spec(r) == r);
        // strip the leading anchor: exactly the one prepended caret goes
        let u = c + tail;
        assert(r.drop_first() =~= u);
        assert(u[0] == c[0] && c[0] != '^');
        assert(strip_start(r, '^') == strip_start(u, '^'));
        assert(strip_start(u, '^') == u);
        // the trailing anchor is the appended "/?$" suffix
        assert(u[u.len() - 3] == '/' && u[u.len() - 2] == '?' && u[u.len() - 1] == '$');
        assert(has_opt_slash_anchor(u));
        assert(u.subrange(0, u.len() - 3) =~= c);
        assert(strip_end_anchor(u) == c);
        // the core has no trailing slash to strip
        assert(strip_end(c, '/') == c);
        assert(pattern_core(r) == c);
        assert(normalize_spec(r) == r);
    }
}

/// Normalize a route pattern.
///
/// Succeeds exactly on rooted patterns (those whose trimmed form starts
/// with `/` or `^`) and returns their normalized form, `^<core>/?$`, or
/// `^/$` when the core is empty.
#[verifier::rlimit(60)]
pub fn normalize_pattern(pattern: &str) -> (r: Result<String, InvalidPatternError>)
    ensures
        r is Ok <==> pattern_rooted(pattern@),
        r matches Ok(ns) ==> ns@ == normalize_spec(pattern@),
{
    let ghost s = pattern@;
    let n = pattern.unicode_len();

    let mut lo: usize = 0;
    while lo < n && is_space(pattern.get_char(lo))
        invariant
            pattern@ == s,
            0 <= lo <= n,
            n == s.len(),
            forall|j: int| 0 <= j < lo ==> is_space_char(s[j]),
        decreases n - lo,
    {
        lo = lo + 1;
    }
    proof {
        lemma_trim_start_index(s, lo as int);
    }
    if lo == n {
        // all whitespace: the trimmed pattern is empty, hence not rooted
        proof {
            assert(trim_start_spec(s) =~= Seq::<char>::empty());
            assert(trim_spec(s).len() == 0);
        }
        return Err(InvalidPatternError);
    }

    let mut hi: usize = n;
    while hi > lo && is_space(pattern.get_char(hi - 1))
        invariant
            pattern@ == s,
            lo <= hi <= n,
            n == s.len(),
            forall|j: int| hi <= j < n ==> is_space_char(s[j]),
        decreases hi,
    {
        hi = hi - 1;
    }
    proof {
        // hi cannot have reached lo: s[lo] is not whitespace
        assert(hi > lo);
        let ts = s.subrange(lo as int, n as int);
        assert forall|j: int| hi - lo <= j < ts.len() implies is_space_char(ts[j]) by {
            assert(ts[j] == s[j + lo]);
        }
        lemma_trim_end_index(ts, hi - lo);
        assert(trim_spec(s) =~= s.subrange(lo as int, hi as int));
    }
    let ghost t = s.subrange(lo as int, hi as int);

    let c0 = pattern.get_char(lo);
    if c0 != '/' && c0 != '^' {
        proof {
            assert(trim_spec(s)[0] == s[lo as int]);
        }
        return Err(InvalidPatternError);
    }
    proof {
        assert(pattern_rooted(s));
    }

    let mut lo2: usize = lo;
    while lo2 < hi && pattern.get_char(lo2) == '^'
        invariant
            pattern@ == s,
            lo <= lo2 <= hi <= n,
            n == s.len(),
            forall|j: int| lo <= j < lo2 ==> s[j] == '^',
        decreases hi - lo2,
    {
        lo2 = lo2 + 1;
    }
    proof {
        assert forall|j: int| 0 <= j < lo2 - lo implies t[j] == '^' by {
            assert(t[j] == s[j + lo]);
        }
        lemma_strip_start_index(t, '^', lo2 - lo);
        assert(strip_start(t, '^') =~= s.subrange(lo2 as int, hi as int));
    }
    let ghost u = s.subrange(lo2 as int, hi as int);

    let mut hi2: usize = hi;
    if hi - lo2 >= 3 && pattern.get_char(hi - 3) == '/' && pattern.get_char(hi - 2) == '?'
        && pattern.get_char(hi - 1) == '$' {
        hi2 = hi - 3;
        proof {
            assert(has_opt_slash_anchor(u));
            assert(u.subrange(0, u.len() - 3) =~= s.subrange(lo2 as int, hi2 as int));
        }
    } else {
        proof {
            assert(!has_opt_slash_anchor(u));
        }
        while hi2 > lo2 && pattern.get_char(hi2 - 1) == '$'
            invariant
                pattern@ == s,
                lo2 <= hi2 <= hi <= n,
                n == s.len(),
                forall|j: int| hi2 <= j < hi ==> s[j] == '$',
            decreases hi2,
        {
            hi2 = hi2 - 1;
        }
        proof {
            assert forall|j: int| hi2 - lo2 <= j < u.len() implies u[j] == '$' by {
                assert(u[j] == s[j + lo2]);
            }
            lemma_strip_end_index(u, '$', hi2 - lo2);
            assert(strip_end(u, '$') =~= s.subrange(lo2 as int, hi2 as int));
        }
    }
    proof {
        assert(strip_end_anchor(u) =~= s.subrange(lo2 as int, hi2 as int));
    }
    let ghost v = s.subrange(lo2 as int, hi2 as int);

    let mut hi3: usize = hi2;
    while hi3 > lo2 && pattern.get_char(hi3 - 1) == '/'
        invariant
            pattern@ == s,
            lo2 <= hi3 <= hi2 <= n,
            n == s.len(),
            forall|j: int| hi3 <= j < hi2 ==> s[j] == '/',
        decreases hi3,
    {
        hi3 = hi3 - 1;
    }
    proof {
        assert forall|j: int| hi3 - lo2 <= j < v.len() implies v[j] == '/' by {
            assert(v[j] == s[j + lo2]);
        }
        lemma_strip_end_index(v, '/', hi3 - lo2);
        assert(pattern_core(s) =~= s.subrange(lo2 as int, hi3 as int));
    }

    if lo2 == hi3 {
        let out = String::from_str("^/$");
        proof {
            reveal_strlit("^/$");
            assert(pattern_core(s).len() == 0);
            assert(out@ =~= normalize_spec(s));
        }
        Ok(out)
    } else {
        let core_str = pattern.substring_char(lo2, hi3);
        let mut out = String::from_str("^");
        out.append(core_str);
        out.append("/?$");
        proof {
            reveal_strlit("^");
            reveal_strlit("/?$");
            assert(out@ =~= normalize_spec(s));
        }
        Ok(out)
    }
}

} // verus!

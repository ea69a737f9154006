//! Turning arbitrary names into JavaScript identifiers.
use vstd::prelude::*;

use crate::text::{chars_of, string_of};

verus! {

/// A character that may start an identifier here: an ASCII letter, `$` or `_`.
pub open spec fn is_ident_start(c: char) -> bool {
    ('a' <= c && c <= 'z') || ('A' <= c && c <= 'Z') || c == '$' || c == '_'
}

/// A character kept as it is: an ASCII letter, an ASCII digit or `$`.
pub open spec fn is_ident_alnum(c: char) -> bool {
    ('a' <= c && c <= 'z') || ('A' <= c && c <= 'Z') || ('0' <= c && c <= '9') || c == '$'
}

/// `s`, with `_` put in front where it starts with a character that cannot
/// start an identifier (`^([^a-zA-Z$_])` replaced by `_$1`).
pub open spec fn with_ident_start(s: Seq<char>) -> Seq<char> {
    if s.len() > 0 && !is_ident_start(s[0]) {
        seq!['_'] + s
    } else {
        s
    }
}

/// `s`, with every maximal run of characters other than letters, digits and
/// `$` replaced by one `_` (`[^a-zA-Z0-9$]+` replaced by `_`).
pub open spec fn collapse_runs(s: Seq<char>) -> Seq<char>
    decreases s.len(),
{
    if s.len() == 0 {
        s
    } else {
        let p = collapse_runs(s.drop_last());
        let c = s.last();
        if is_ident_alnum(c) {
            p.push(c)
        } else if s.len() >= 2 && !is_ident_alnum(s[s.len() - 2]) {
            p
        } else {
            p.push('_')
        }
    }
}

/// The identifier made of `s`.
pub open spec fn spec_to_identifier(s: Seq<char>) -> Seq<char> {
    collapse_runs(with_ident_start(s))
}

fn ident_start(c: char) -> (r: bool)
    ensures
        r == is_ident_start(c),
{
    ('a' <= c && c <= 'z') || ('A' <= c && c <= 'Z') || c == '$' || c == '_'
}

fn ident_alnum(c: char) -> (r: bool)
    ensures
        r == is_ident_alnum(c),
{
    ('a' <= c && c <= 'z') || ('A' <= c && c <= 'Z') || ('0' <= c && c <= '9') || c == '$'
}

/// The identifier made of `v`: `_` in front where `v` starts with a character
/// that cannot start an identifier, then each run of characters other than
/// ASCII letters, digits and `$` replaced by one `_`.
pub fn to_identifier(v: &str) -> (r: String)
    ensures
        r@ == spec_to_identifier(v@),
{
    let chars = chars_of(v);
    let mut s: Vec<char> = Vec::new();
    if chars.len() > 0 && !ident_start(chars[0]) {
        s.push('_');
    }
    let ghost pre = s@;
    for i in 0..chars.len()
        invariant
            chars@ == v@,
            s@ == pre + chars@.take(i as int),
    {
        s.push(chars[i]);
        assert(chars@.take(i + 1) =~= chars@.take(i as int).push(chars@[i as int]));
    }
    assert(chars@.take(chars@.len() as int) =~= chars@);
    assert(s@ =~= with_ident_start(v@));
    let mut out: Vec<char> = Vec::new();
    let mut i: usize = 0;
    while i < s.len()
        invariant
            i <= s@.len(),
            out@ == collapse_runs(s@.take(i as int)),
        decreases s@.len() - i,
    {
        let c = s[i];
        let ghost t = s@.take(i + 1);
        assert(t.drop_last() =~= s@.take(i as int));
        assert(t.last() == c);
        if ident_alnum(c) {
            out.push(c);
        } else if i >= 1 && !ident_alnum(s[i - 1]) {
            assert(t[t.len() - 2] == s@[i - 1]);
        } else {
            out.push('_');
        }
        i = i + 1;
    }
    assert(s@.take(s@.len() as int) =~= s@);
    string_of(&out)
}

/// A character that can stand in an identifier made here.
pub open spec fn is_ident_char(c: char) -> bool {
    is_ident_alnum(c) || c == '_'
}

proof fn lemma_collapse_runs_chars(s: Seq<char>)
    ensures
        forall|i: int| 0 <= i < collapse_runs(s).len() ==> is_ident_char(#[trigger] collapse_runs(s)[i]),
        s.len() > 0 ==> collapse_runs(s).len() > 0,
        s.len() > 0 ==> collapse_runs(s)[0] == if is_ident_alnum(s[0]) { s[0] } else { '_' },
    decreases s.len(),
{
    if s.len() > 0 {
        lemma_collapse_runs_chars(s.drop_last());
        let p = collapse_runs(s.drop_last());
        if s.len() == 1 {
            assert(s.drop_last().len() == 0);
            assert(p.len() == 0);
        } else {
            assert(s.drop_last()[0] == s[0]);
            assert(p.len() > 0);
            assert(p.push('_')[0] == p[0]);
            assert(p.push(s.last())[0] == p[0]);
        }
    }
}

/// What `to_identifier` makes is an identifier: it holds only ASCII letters,
/// digits, `$` and `_`, does not start with a digit, and is empty only where
/// the name is.
pub proof fn lemma_to_identifier_is_identifier(s: Seq<char>)
    ensures
        forall|i: int|
            0 <= i < spec_to_identifier(s).len() ==> is_ident_char(#[trigger] spec_to_identifier(s)[i]),
        spec_to_identifier(s).len() > 0 <==> s.len() > 0,
        s.len() > 0 ==> is_ident_start(spec_to_identifier(s)[0]),
{
    lemma_collapse_runs_chars(with_ident_start(s));
    if s.len() == 0 {
        assert(with_ident_start(s).len() == 0);
    }
}

/// No two underscores stand next to each other in `t`.
pub open spec fn no_double_underscore(t: Seq<char>) -> bool {
    forall|i: int| 0 <= i < t.len() - 1 ==> !(#[trigger] t[i] == '_' && t[i + 1] == '_')
}

proof fn lemma_collapse_runs_shape(s: Seq<char>)
    ensures
        no_double_underscore(collapse_runs(s)),
        forall|i: int| 0 <= i < collapse_runs(s).len() ==> is_ident_char(#[trigger] collapse_runs(s)[i]),
        collapse_runs(s).len() > 0 <==> s.len() > 0,
        s.len() > 0 ==> (collapse_runs(s).last() == '_' <==> !is_ident_alnum(s.last())),
    decreases s.len(),
{
    if s.len() > 0 {
        let p = collapse_runs(s.drop_last());
        lemma_collapse_runs_shape(s.drop_last());
        let c = s.last();
        if is_ident_alnum(c) {
            let r = p.push(c);
            assert forall|i: int| 0 <= i < r.len() - 1 implies !(#[trigger] r[i] == '_' && r[i + 1] == '_') by {
                if i < p.len() - 1 {
                    assert(r[i] == p[i] && r[i + 1] == p[i + 1]);
                }
            }
        } else if s.len() >= 2 && !is_ident_alnum(s[s.len() - 2]) {
            assert(s.drop_last().last() == s[s.len() - 2]);
        } else {
            let r = p.push('_');
            if s.len() >= 2 {
                assert(s.drop_last().last() == s[s.len() - 2]);
            }
            assert forall|i: int| 0 <= i < r.len() - 1 implies !(#[trigger] r[i] == '_' && r[i + 1] == '_') by {
                if i < p.len() - 1 {
                    assert(r[i] == p[i] && r[i + 1] == p[i + 1]);
                } else {
                    assert(r[i] == p.last());
                }
            }
        }
    }
}

proof fn lemma_collapse_runs_fixed(t: Seq<char>)
    requires
        forall|i: int| 0 <= i < t.len() ==> is_ident_char(#[trigger] t[i]),
        no_double_underscore(t),
    ensures
        collapse_runs(t) == t,
    decreases t.len(),
{
    if t.len() > 0 {
        let d = t.drop_last();
        assert forall|i: int| 0 <= i < d.len() implies is_ident_char(#[trigger] d[i]) by {
            assert(d[i] == t[i]);
        }
        assert forall|i: int| 0 <= i < d.len() - 1 implies !(#[trigger] d[i] == '_' && d[i + 1] == '_') by {
            assert(d[i] == t[i] && d[i + 1] == t[i + 1]);
        }
        lemma_collapse_runs_fixed(d);
        assert(is_ident_char(t[t.len() - 1]));
        if !is_ident_alnum(t.last()) && t.len() >= 2 {
            assert(is_ident_char(t[t.len() - 2]));
            assert(!(t[t.len() - 2] == '_' && t[t.len() - 1] == '_'));
        }
        assert(d.push(t.last()) =~= t);
    }
}

/// Making an identifier of an identifier made here changes nothing.
pub proof fn lemma_to_identifier_idempotent(s: Seq<char>)
    ensures
        spec_to_identifier(spec_to_identifier(s)) == spec_to_identifier(s),
{
    let t = spec_to_identifier(s);
    lemma_collapse_runs_shape(with_ident_start(s));
    lemma_to_identifier_is_identifier(s);
    assert(with_ident_start(t) == t);
    lemma_collapse_runs_fixed(t);
}

/// A name that is already an identifier is kept as it is: where it starts
/// with an ASCII letter (either case), `$` or `_`, holds only ASCII letters
/// (either case), digits, `$` and `_`, and has no two `_` in a row,
/// `to_identifier` gives it back unchanged.
pub proof fn lemma_identifier_kept(s: Seq<char>)
    requires
        s.len() > 0 ==> (('a' <= s[0] && s[0] <= 'z') || ('A' <= s[0] && s[0] <= 'Z') || s[0] == '$' || s[0]
            == '_'),
        forall|i: int|
            0 <= i < s.len() ==> (('a' <= #[trigger] s[i] && s[i] <= 'z') || ('A' <= s[i] && s[i] <= 'Z') || (
            '0' <= s[i] && s[i] <= '9') || s[i] == '$' || s[i] == '_'),
        forall|i: int| 0 <= i < s.len() - 1 ==> !(#[trigger] s[i] == '_' && s[i + 1] == '_'),
    ensures
        spec_to_identifier(s) == s,
{
    assert forall|i: int| 0 <= i < s.len() implies is_ident_char(#[trigger] s[i]) by {}
    assert(with_ident_start(s) == s);
    lemma_collapse_runs_fixed(s);
}

} // verus!

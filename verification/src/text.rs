//! Character-level text helpers: conversion between strings and character
//! vectors, decimal formatting, search and replace.

use vstd::prelude::*;

verus! {

/// Appends one character to a string (`String::push`).
/// Claimed: the string's characters afterwards are the old ones followed by `c`.
#[verifier::external_body]
pub(crate) fn push_char(s: &mut String, c: char)
    ensures
        final(s)@ == old(s)@.push(c),
{
    s.push(c);
}

/// The characters of a string, in order.
pub fn chars_of(s: &str) -> (v: Vec<char>)
    ensures
        v@ == s@,
{
    let mut v: Vec<char> = Vec::new();
    for c in it: s.chars()
        invariant
            it.seq() == s@,
            v@ == it.seq().take(it.index() as int),
    {
        v.push(c);
    }
    v
}

/// The string made of `v[lo..hi]`.
pub fn string_from_range(v: &Vec<char>, lo: usize, hi: usize) -> (s: String)
    requires
        lo <= hi <= v.len(),
    ensures
        s@ == v@.subrange(lo as int, hi as int),
{
    let mut s = String::new();
    let mut i = lo;
    while i < hi
        invariant
            lo <= i <= hi <= v.len(),
            s@ == v@.subrange(lo as int, i as int),
        decreases hi - i,
    {
        push_char(&mut s, v[i]);
        assert(v@.subrange(lo as int, i + 1) == v@.subrange(lo as int, i as int).push(v@[i as int]));
        i = i + 1;
    }
    s
}

/// The character of a decimal digit `d < 10`.
pub open spec fn digit_char(d: nat) -> char {
    (48 + d) as char
}

/// The decimal notation of `n`, without sign or leading zeros.
pub open spec fn decimal_spec(n: nat) -> Seq<char>
    decreases n,
{
    if n < 10 {
        seq![digit_char(n)]
    } else {
        decimal_spec(n / 10).push(digit_char(n % 10))
    }
}

fn digit(d: u64) -> (c: char)
    requires
        d < 10,
    ensures
        c == digit_char(d as nat),
{
    ((48u8 + d as u8) as char)
}

/// The decimal notation of `n` (what `n.to_string()` gives).
pub fn decimal(n: u64) -> (s: String)
    ensures
        s@ == decimal_spec(n as nat),
    decreases n,
{
    if n < 10 {
        let mut s = String::new();
        push_char(&mut s, digit(n));
        s
    } else {
        let mut s = decimal(n / 10);
        push_char(&mut s, digit(n % 10));
        s
    }
}


/// `pat` occurs in `s` at position `i`.
pub open spec fn occurs_at(s: Seq<char>, i: int, pat: Seq<char>) -> bool {
    0 <= i && i + pat.len() <= s.len() && s.subrange(i, i + pat.len()) == pat
}

/// `s` with every occurrence of the non-empty `pat` replaced by `rep`, the
/// occurrences taken from left to right without overlap (as `str::replace`).
pub open spec fn replace_spec(s: Seq<char>, pat: Seq<char>, rep: Seq<char>) -> Seq<char>
    decreases s.len(),
{
    if s.len() == 0 || pat.len() == 0 {
        s
    } else if occurs_at(s, 0, pat) {
        rep + replace_spec(s.skip(pat.len() as int), pat, rep)
    } else {
        seq![s[0]] + replace_spec(s.skip(1), pat, rep)
    }
}

fn occurs_at_exec(v: &Vec<char>, i: usize, p: &Vec<char>) -> (b: bool)
    requires
        i <= v.len(),
    ensures
        b == occurs_at(v@, i as int, p@),
{
    if p.len() > v.len() - i {
        return false;
    }
    let mut k: usize = 0;
    while k < p.len()
        invariant
            i + p.len() <= v.len(),
            k <= p.len(),
            forall|j: int| 0 <= j < k ==> v@[i + j] == p@[j],
        decreases p.len() - k,
    {
        if v[i + k] != p[k] {
            assert(v@.subrange(i as int, i + p@.len())[k as int] != p@[k as int]);
            return false;
        }
        k = k + 1;
    }
    assert(v@.subrange(i as int, i + p@.len()) =~= p@);
    true
}

/// `s` with every occurrence of `pat` replaced by `rep` (`str::replace`).
pub fn replace_all(s: &str, pat: &str, rep: &str) -> (r: String)
    requires
        pat@.len() > 0,
    ensures
        r@ == replace_spec(s@, pat@, rep@),
{
    let v = chars_of(s);
    let p = chars_of(pat);
    let mut out = String::new();
    let mut i: usize = 0;
    assert(v@.skip(0) =~= v@);
    while i < v.len()
        invariant
            i <= v.len(),
            p@.len() > 0,
            p@ == pat@,
            v@ == s@,
            out@ + replace_spec(v@.skip(i as int), p@, rep@) == replace_spec(v@, p@, rep@),
        decreases v.len() - i,
    {
        let ghost rest = v@.skip(i as int);
        if occurs_at_exec(&v, i, &p) {
            assert(rest.subrange(0, p@.len() as int) =~= v@.subrange(i as int, i + p@.len()));
            assert(rest.skip(p@.len() as int) =~= v@.skip(i + p@.len()));
            out.append(rep);
            i = i + p.len();
        } else {
            proof {
                if i + p@.len() <= v@.len() {
                    assert(rest.subrange(0, p@.len() as int) =~= v@.subrange(i as int, i + p@.len()));
                }
            }
            assert(rest.skip(1) =~= v@.skip(i + 1));
            push_char(&mut out, v[i]);
            assert(out@ + replace_spec(v@.skip(i + 1), p@, rep@) =~= (out@.drop_last() + (seq![v@[i as int]] + replace_spec(rest.skip(1), p@, rep@))));
            i = i + 1;
        }
    }
    assert(v@.skip(i as int) =~= Seq::<char>::empty());
    assert(out@ + Seq::<char>::empty() =~= out@);
    out
}

/// Whether two strings hold the same characters.
pub fn str_eq(a: &str, b: &str) -> (r: bool)
    ensures
        r == (a@ == b@),
{
    let x = a.to_owned();
    let y = b.to_owned();
    x == y
}

/// A template with each placeholder, in turn, replaced by its value: the
/// result of one replacement is the input of the next.
pub open spec fn fill_spec(template: Seq<char>, fields: Seq<(Seq<char>, Seq<char>)>) -> Seq<char>
    decreases fields.len(),
{
    if fields.len() == 0 {
        template
    } else {
        replace_spec(fill_spec(template, fields.drop_last()), fields.last().0, fields.last().1)
    }
}

/// Replaces each placeholder of `fields` in turn by its value.
pub fn fill_template(template: &str, fields: &Vec<(String, String)>) -> (r: String)
    ensures
        r@ == fill_spec(template@, fields@.map_values(|f: (String, String)| (f.0@, f.1@))),
{
    let ghost fv = fields@.map_values(|f: (String, String)| (f.0@, f.1@));
    let mut out = template.to_owned();
    let mut i: usize = 0;
    assert(fv.take(0) =~= Seq::<(Seq<char>, Seq<char>)>::empty());
    while i < fields.len()
        invariant
            i <= fields.len(),
            fv == fields@.map_values(|f: (String, String)| (f.0@, f.1@)),
            out@ == fill_spec(template@, fv.take(i as int)),
        decreases fields.len() - i,
    {
        assert(fv.take(i + 1).drop_last() =~= fv.take(i as int));
        assert(fv.take(i + 1).last() == fv[i as int]);
        let pat = fields[i].0.as_str();
        if !pat.is_empty() {
            out = replace_all(out.as_str(), pat, fields[i].1.as_str());
        }
        i = i + 1;
    }
    assert(fv.take(i as int) =~= fv);
    out
}

/// Replacing a single character `c` leaves only characters that were in `s`
/// (other than `c`) or are in `rep`.
pub proof fn lemma_replace_char(s: Seq<char>, c: char, rep: Seq<char>, x: char)
    requires
        x != c || !rep.contains(c),
    ensures
        replace_spec(s, seq![c], rep).contains(x) ==> (s.contains(x) && x != c) || rep.contains(x),
    decreases s.len(),
{
    let r = replace_spec(s, seq![c], rep);
    if s.len() > 0 && r.contains(x) {
        let j = choose|j: int| 0 <= j < r.len() && r[j] == x;
        if occurs_at(s, 0, seq![c]) {
            assert(s[0] == s.subrange(0, 1)[0]);
            let t = s.skip(1);
            lemma_replace_char(t, c, rep, x);
            if j >= rep.len() {
                let rr = replace_spec(t, seq![c], rep);
                assert(rr[j - rep.len()] == x);
                assert(rr.contains(x));
                if t.contains(x) {
                    let m = choose|m: int| 0 <= m < t.len() && t[m] == x;
                    assert(s[m + 1] == x);
                }
            } else {
                assert(rep[j] == x);
            }
        } else {
            let t = s.skip(1);
            lemma_replace_char(t, c, rep, x);
            if s[0] == c {
                assert(s.subrange(0, 1) =~= seq![c]);
            }
            if j == 0 {
                assert(s[0] == x);
            } else {
                let rr = replace_spec(t, seq![c], rep);
                assert(rr[j - 1] == x);
                assert(rr.contains(x));
                if t.contains(x) {
                    let m = choose|m: int| 0 <= m < t.len() && t[m] == x;
                    assert(s[m + 1] == x);
                }
            }
        }
    }
}

/// Law: a decimal notation is non-empty, made of the digits `0` to `9`, and
/// starts with `0` only for zero itself.
pub proof fn law_decimal_digits(n: nat)
    ensures
        decimal_spec(n).len() > 0,
        forall|i: int| 0 <= i < decimal_spec(n).len() ==> '0' <= #[trigger] decimal_spec(n)[i] <= '9',
        decimal_spec(n)[0] == '0' ==> n == 0,
    decreases n,
{
    if n >= 10 {
        law_decimal_digits(n / 10);
        let d = decimal_spec(n / 10);
        assert forall|i: int| 0 <= i < decimal_spec(n).len() implies '0' <= #[trigger] decimal_spec(n)[i] <= '9' by {
            if i < d.len() {
                assert(decimal_spec(n)[i] == d[i]);
            }
        }
        assert(decimal_spec(n)[0] == d[0]);
    }
}

/// Law: different numbers have different decimal notations.
pub proof fn law_decimal_injective(a: nat, b: nat)
    requires
        decimal_spec(a) == decimal_spec(b),
    ensures
        a == b,
    decreases a,
{
    if a < 10 && b < 10 {
        assert(decimal_spec(a)[0] == digit_char(a));
        assert(decimal_spec(b)[0] == digit_char(b));
    } else if a < 10 {
        law_decimal_digits(b / 10);
    } else if b < 10 {
        law_decimal_digits(a / 10);
    } else {
        let da = decimal_spec(a / 10);
        let db = decimal_spec(b / 10);
        assert(decimal_spec(a).last() == digit_char(a % 10));
        assert(decimal_spec(b).last() == digit_char(b % 10));
        assert(decimal_spec(a).drop_last() =~= da);
        assert(decimal_spec(b).drop_last() =~= db);
        law_decimal_injective(a / 10, b / 10);
    }
}

} // verus!

//! Request URLs: the path, the query string and percent-decoding.

use vstd::prelude::*;
use crate::text::{chars_of, string_from_range};
use crate::unicode::{decode_utf8_lossy, hex_digit, hex_value, push_utf8, utf8_char_spec, utf8_lossy};

verus! {

/// The bytes that percent-decoding makes of `s`: `+` is a space, `%XY` with
/// two hexadecimal digits is the byte `0xXY`, a `%` not followed by two
/// hexadecimal digits is a `?` (and the up to two characters after it are
/// dropped), and every other character is its UTF-8 encoding.
pub open spec fn percent_decode_bytes(s: Seq<char>) -> Seq<u8>
    decreases s.len(),
{
    if s.len() == 0 {
        Seq::empty()
    } else if s[0] == '+' {
        seq![32u8] + percent_decode_bytes(s.skip(1))
    } else if s[0] == '%' {
        if s.len() < 3 {
            seq![63u8]
        } else {
            let b: u8 = match (hex_value(s[1]), hex_value(s[2])) {
                (Some(h), Some(l)) => (h * 16 + l) as u8,
                _ => 63u8,
            };
            seq![b] + percent_decode_bytes(s.skip(3))
        }
    } else {
        utf8_char_spec(s[0]) + percent_decode_bytes(s.skip(1))
    }
}

/// A URL query component decoded: the bytes of `percent_decode_bytes`, read
/// as UTF-8 with each invalid sequence replaced.
pub open spec fn url_decode_spec(s: Seq<char>) -> Seq<char> {
    utf8_lossy(percent_decode_bytes(s))
}

/// `value` is what `raw` decodes to whenever the bytes that `raw` stands for
/// are the UTF-8 encoding of some text: it is then that text.
pub open spec fn decodes_to(raw: Seq<char>, value: Seq<char>) -> bool {
    forall|t: Seq<char>| #[trigger] crate::unicode::utf8_spec(t) == percent_decode_bytes(raw) ==> value == t
}

/// Simple URL percent-decode. Decodes %XX sequences as UTF-8 bytes, + to space.
pub fn url_decode(input: &str) -> (r: String)
    ensures
        r@ == url_decode_spec(input@),
        !input@.contains('%') && !input@.contains('+') ==> r@ == input@,
        decodes_to(input@, r@),
{
    let v = chars_of(input);
    let mut bytes: Vec<u8> = Vec::new();
    let mut i: usize = 0;
    assert(v@.skip(0) =~= v@);
    while i < v.len()
        invariant
            i <= v.len(),
            v@ == input@,
            bytes@ + percent_decode_bytes(v@.skip(i as int)) == percent_decode_bytes(v@),
        decreases v.len() - i,
    {
        let ghost rest = v@.skip(i as int);
        let ghost before = bytes@;
        let c = v[i];
        if c == '+' {
            bytes.push(32u8);
            assert(rest.skip(1) =~= v@.skip(i + 1));
            assert(bytes@ + percent_decode_bytes(v@.skip(i + 1)) =~= before + percent_decode_bytes(rest));
            i = i + 1;
        } else if c == '%' {
            if v.len() - i < 3 {
                bytes.push(63u8);
                assert(v@.skip(v.len() as int) =~= Seq::<char>::empty());
                assert(bytes@ + percent_decode_bytes(v@.skip(v.len() as int)) =~= before + percent_decode_bytes(rest));
                i = v.len();
            } else {
                let b: u8 = match (hex_digit(v[i + 1]), hex_digit(v[i + 2])) {
                    (Some(h), Some(l)) => h * 16 + l,
                    _ => 63u8,
                };
                bytes.push(b);
                assert(rest.skip(3) =~= v@.skip(i + 3));
                assert(bytes@ + percent_decode_bytes(v@.skip(i + 3)) =~= before + percent_decode_bytes(rest));
                i = i + 3;
            }
        } else {
            push_utf8(&mut bytes, c);
            assert(rest.skip(1) =~= v@.skip(i + 1));
            assert(bytes@ + percent_decode_bytes(v@.skip(i + 1)) =~= before + percent_decode_bytes(rest));
            i = i + 1;
        }
    }
    assert(v@.skip(i as int) =~= Seq::<char>::empty());
    assert(bytes@ + Seq::<u8>::empty() =~= bytes@);
    proof {
        if !input@.contains('%') && !input@.contains('+') {
            lemma_decode_plain_bytes(input@);
        }
    }
    decode_utf8_lossy(&bytes)
}

/// `s` cut at the first `c`: the part before it and, if there is a `c`, the
/// part after it (as `str::splitn(2, c)`).
pub open spec fn split_once(s: Seq<char>, c: char) -> (Seq<char>, Option<Seq<char>>)
    decreases s.len(),
{
    if s.len() == 0 {
        (s, None)
    } else if s[0] == c {
        (Seq::empty(), Some(s.skip(1)))
    } else {
        let (a, b) = split_once(s.skip(1), c);
        (seq![s[0]] + a, b)
    }
}

/// The pieces of `s` between the occurrences of `c` (as `str::split(c)`):
/// always at least one piece, and an empty one wherever two `c` meet or `c`
/// stands at an end.
pub open spec fn split_all(s: Seq<char>, c: char) -> Seq<Seq<char>>
    decreases s.len(),
{
    if s.len() == 0 {
        seq![Seq::empty()]
    } else if s[0] == c {
        seq![Seq::empty()] + split_all(s.skip(1), c)
    } else {
        let r = split_all(s.skip(1), c);
        r.update(0, seq![s[0]] + r[0])
    }
}

proof fn lemma_split_all_nonempty(s: Seq<char>, c: char)
    ensures
        split_all(s, c).len() >= 1,
    decreases s.len(),
{
    if s.len() > 0 {
        lemma_split_all_nonempty(s.skip(1), c);
    }
}

/// How both splits look when `k` is the first position holding `c` (or the
/// end of `s` if there is none).
proof fn lemma_first_cut(s: Seq<char>, c: char, k: int)
    requires
        0 <= k <= s.len(),
        forall|j: int| 0 <= j < k ==> s[j] != c,
        k < s.len() ==> s[k] == c,
    ensures
        split_once(s, c) == (if k < s.len() {
            (s.take(k), Some(s.skip(k + 1)))
        } else {
            (s, None::<Seq<char>>)
        }),
        split_all(s, c) == if k < s.len() {
            seq![s.take(k)] + split_all(s.skip(k + 1), c)
        } else {
            seq![s]
        },
    decreases k,
{
    if k == 0 {
        assert(s.take(0) =~= Seq::<char>::empty());
        if s.len() == 0 {
            assert(s =~= Seq::<char>::empty());
        }
    } else {
        let t = s.skip(1);
        lemma_first_cut(t, c, k - 1);
        assert(seq![s[0]] + t.take(k - 1) =~= s.take(k));
        if k < s.len() {
            assert(t.skip(k) =~= s.skip(k + 1));
        }
        assert(seq![s[0]] + t =~= s);
        lemma_split_all_nonempty(t, c);
        let r = split_all(t, c);
        if k < s.len() {
            assert(r.update(0, seq![s[0]] + r[0]) =~= seq![s.take(k)] + split_all(s.skip(k + 1), c));
        } else {
            assert(r.update(0, seq![s[0]] + r[0]) =~= seq![s]);
        }
    }
}

/// The first position at or after `from` that holds `c`, or the end.
fn find_char(v: &Vec<char>, from: usize, c: char) -> (k: usize)
    requires
        from <= v.len(),
    ensures
        from <= k <= v.len(),
        forall|j: int| from <= j < k ==> v@[j] != c,
        k < v.len() ==> v@[k as int] == c,
{
    let mut k = from;
    while k < v.len()
        invariant
            from <= k <= v.len(),
            forall|j: int| from <= j < k ==> v@[j] != c,
        decreases v.len() - k,
    {
        if v[k] == c {
            return k;
        }
        k = k + 1;
    }
    k
}

/// One `key=value` piece of a query string: the key as written, the value
/// decoded (empty when there is no `=`).
pub open spec fn query_pair_spec(piece: Seq<char>) -> (Seq<char>, Seq<char>) {
    let (k, v) = split_once(piece, '=');
    (
        k,
        url_decode_spec(
            match v {
                Some(x) => x,
                None => Seq::empty(),
            },
        ),
    )
}

/// The value of a `key=value` piece as written, before decoding (empty when
/// there is no `=`).
pub open spec fn raw_value(piece: Seq<char>) -> Seq<char> {
    match split_once(piece, '=').1 {
        Some(x) => x,
        None => Seq::empty(),
    }
}

/// The value of the last pair with this key: where a key is given twice,
/// the later value wins.
pub open spec fn query_lookup(pairs: Seq<(Seq<char>, Seq<char>)>, key: Seq<char>) -> Option<Seq<char>>
    decreases pairs.len(),
{
    if pairs.len() == 0 {
        None
    } else if pairs.last().0 == key {
        Some(pairs.last().1)
    } else {
        query_lookup(pairs.drop_last(), key)
    }
}

/// The parameters of a query string, in the order written.
pub struct QueryParams {
    pairs: Vec<(String, String)>,
}

impl View for QueryParams {
    type V = Seq<(Seq<char>, Seq<char>)>;

    closed spec fn view(&self) -> Seq<(Seq<char>, Seq<char>)> {
        self.pairs@.map_values(|p: (String, String)| (p.0@, p.1@))
    }
}

impl QueryParams {
    /// The value of parameter `key` (the last one given, if it is repeated).
    pub fn get(&self, key: &str) -> (r: Option<String>)
        ensures
            match r {
                Some(v) => query_lookup(self@, key@) == Some(v@),
                None => query_lookup(self@, key@) is None,
            },
    {
        let k = key.to_owned();
        let mut i = self.pairs.len();
        assert(self@.take(i as int) =~= self@);
        while i > 0
            invariant
                i <= self.pairs.len(),
                k@ == key@,
                query_lookup(self@, key@) == query_lookup(self@.take(i as int), key@),
            decreases i,
        {
            let ghost t = self@.take(i as int);
            assert(t.last() == self@[i - 1]);
            assert(t.drop_last() =~= self@.take(i - 1));
            if self.pairs[i - 1].0 == k {
                return Some(self.pairs[i - 1].1.clone());
            }
            i = i - 1;
        }
        None
    }

    /// The number of parameters.
    pub fn len(&self) -> (n: usize)
        ensures
            n == self@.len(),
    {
        self.pairs.len()
    }
}

/// The path of a URL: everything before the first `?`.
pub open spec fn url_path_spec(url: Seq<char>) -> Seq<char> {
    split_once(url, '?').0
}

/// The query parameters of a URL: the part after the first `?` split at
/// every `&`, each piece a `key=value` pair.
pub open spec fn url_query_spec(url: Seq<char>) -> Seq<(Seq<char>, Seq<char>)> {
    match split_once(url, '?').1 {
        Some(qs) => split_all(qs, '&').map_values(|p: Seq<char>| query_pair_spec(p)),
        None => Seq::empty(),
    }
}

/// The query values of a URL as written, before decoding, in the order of
/// `url_query_spec`.
pub open spec fn url_query_raw(url: Seq<char>) -> Seq<Seq<char>> {
    match split_once(url, '?').1 {
        Some(qs) => split_all(qs, '&').map_values(|p: Seq<char>| raw_value(p)),
        None => Seq::empty(),
    }
}

fn query_pair(v: &Vec<char>, lo: usize, hi: usize) -> (r: (String, String))
    requires
        lo <= hi <= v.len(),
    ensures
        (r.0@, r.1@) == query_pair_spec(v@.subrange(lo as int, hi as int)),
        decodes_to(raw_value(v@.subrange(lo as int, hi as int)), r.1@),
{
    let ghost piece = v@.subrange(lo as int, hi as int);
    let k = find_char(v, lo, '=');
    if k < hi {
        proof {
            lemma_first_cut(piece, '=', k - lo);
            assert(piece.take(k - lo) =~= v@.subrange(lo as int, k as int));
            assert(piece.skip(k - lo + 1) =~= v@.subrange(k + 1, hi as int));
        }
        let key = string_from_range(v, lo, k);
        let raw = string_from_range(v, k + 1, hi);
        (key, url_decode(raw.as_str()))
    } else {
        proof {
            lemma_first_cut(piece, '=', hi - lo);
        }
        let key = string_from_range(v, lo, hi);
        let empty = String::new();
        (key, url_decode(empty.as_str()))
    }
}

/// Splits a URL into its path and its query parameters. Query values are
/// URL-decoded; a value whose percent-escapes spell valid UTF-8 decodes to
/// exactly that text.
pub fn parse_url(url: &str) -> (r: (String, QueryParams))
    ensures
        r.0@ == url_path_spec(url@),
        r.1@ == url_query_spec(url@),
        forall|i: int| 0 <= i < r.1@.len() ==> decodes_to(#[trigger] url_query_raw(url@)[i], r.1@[i].1),
{
    let v = chars_of(url);
    let q = find_char(&v, 0, '?');
    proof { lemma_first_cut(v@, '?', q as int); }
    let path = string_from_range(&v, 0, q);
    assert(v@.take(q as int) =~= v@.subrange(0, q as int));
    let mut pairs: Vec<(String, String)> = Vec::new();
    if q < v.len() {
        let ghost qs = v@.skip(q + 1);
        let ghost mut pieces: Seq<Seq<char>> = Seq::empty();
        let mut i = q + 1;
        assert(v@.skip(i as int) =~= qs);
        loop
            invariant_except_break
                q + 1 <= i <= v.len(),
                qs == v@.skip(q + 1),
                pieces + split_all(v@.skip(i as int), '&') == split_all(qs, '&'),
                pairs@.map_values(|p: (String, String)| (p.0@, p.1@)) + split_all(v@.skip(i as int), '&').map_values(|p: Seq<char>| query_pair_spec(p))
                    == split_all(qs, '&').map_values(|p: Seq<char>| query_pair_spec(p)),
            invariant
                pairs.len() == pieces.len(),
                forall|j: int| 0 <= j < pieces.len() ==> decodes_to(#[trigger] raw_value(pieces[j]), pairs@[j].1@),
            ensures
                pairs@.map_values(|p: (String, String)| (p.0@, p.1@))
                    == split_all(qs, '&').map_values(|p: Seq<char>| query_pair_spec(p)),
                pieces == split_all(qs, '&'),
            decreases v.len() - i,
        {
            let k = find_char(&v, i, '&');
            let ghost rest = v@.skip(i as int);
            let ghost before = pairs@.map_values(|p: (String, String)| (p.0@, p.1@));
            proof {
                lemma_first_cut(rest, '&', k - i);
                assert(rest.take(k - i) =~= v@.subrange(i as int, k as int));
            }
            let pair = query_pair(&v, i, k);
            pairs.push(pair);
            proof {
                let ghost old_pieces = pieces;
                pieces = pieces.push(v@.subrange(i as int, k as int));
                assert forall|j: int| 0 <= j < pieces.len() implies decodes_to(#[trigger] raw_value(pieces[j]), pairs@[j].1@) by {
                    if j < old_pieces.len() {
                        assert(pieces[j] == old_pieces[j]);
                    }
                }
            }
            assert(pairs@.map_values(|p: (String, String)| (p.0@, p.1@)) =~= before.push(query_pair_spec(v@.subrange(i as int, k as int))));
            if k < v.len() {
                assert(rest.skip(k - i + 1) =~= v@.skip(k + 1));
                let ghost tail = split_all(v@.skip(k + 1), '&');
                assert((seq![rest.take(k - i)] + tail).map_values(|p: Seq<char>| query_pair_spec(p))
                    =~= seq![query_pair_spec(rest.take(k - i))] + tail.map_values(|p: Seq<char>| query_pair_spec(p)));
                assert(pairs@.map_values(|p: (String, String)| (p.0@, p.1@)) + tail.map_values(|p: Seq<char>| query_pair_spec(p))
                    =~= before + split_all(rest, '&').map_values(|p: Seq<char>| query_pair_spec(p)));
                assert(pieces + tail =~= pieces.drop_last() + split_all(rest, '&'));
                i = k + 1;
            } else {
                assert(rest =~= v@.subrange(i as int, k as int));
                assert(seq![rest].map_values(|p: Seq<char>| query_pair_spec(p)) =~= seq![query_pair_spec(rest)]);
                assert(pairs@.map_values(|p: (String, String)| (p.0@, p.1@))
                    =~= before + split_all(rest, '&').map_values(|p: Seq<char>| query_pair_spec(p)));
                assert(pieces =~= pieces.drop_last() + split_all(rest, '&'));
                break;
            }
        }
    } else {
        assert(pairs@.map_values(|p: (String, String)| (p.0@, p.1@)) =~= Seq::<(Seq<char>, Seq<char>)>::empty());
    }
    (path, QueryParams { pairs })
}

/// Pieces glued back together with `c` between them.
pub open spec fn join_spec(pieces: Seq<Seq<char>>, c: char) -> Seq<char>
    decreases pieces.len(),
{
    if pieces.len() == 0 {
        Seq::empty()
    } else if pieces.len() == 1 {
        pieces[0]
    } else {
        pieces[0] + seq![c] + join_spec(pieces.drop_first(), c)
    }
}

/// Law: splitting loses nothing: the pieces joined with the separator give
/// the string back, and no piece holds the separator.
pub proof fn law_split_join(s: Seq<char>, c: char)
    ensures
        join_spec(split_all(s, c), c) == s,
        forall|i: int| 0 <= i < split_all(s, c).len() ==> !(#[trigger] split_all(s, c)[i]).contains(c),
    decreases s.len(),
{
    lemma_split_all_nonempty(s, c);
    if s.len() == 0 {
        assert(split_all(s, c)[0] =~= Seq::<char>::empty());
        assert(s =~= Seq::<char>::empty());
    } else {
        let t = s.skip(1);
        law_split_join(t, c);
        lemma_split_all_nonempty(t, c);
        let r = split_all(t, c);
        if s[0] == c {
            let p = seq![Seq::<char>::empty()] + r;
            assert(p.drop_first() =~= r);
            assert(Seq::<char>::empty() + seq![c] + join_spec(r, c) =~= s);
            assert forall|i: int| 0 <= i < p.len() implies !(#[trigger] p[i]).contains(c) by {
                if i > 0 {
                    assert(p[i] == r[i - 1]);
                }
            }
        } else {
            let p = r.update(0, seq![s[0]] + r[0]);
            if r.len() == 1 {
                assert(seq![s[0]] + r[0] =~= s);
            } else {
                assert(p.drop_first() =~= r.drop_first());
                assert(p[0] + seq![c] + join_spec(p.drop_first(), c) =~= seq![s[0]] + (r[0] + seq![c] + join_spec(r.drop_first(), c)));
                assert(seq![s[0]] + t =~= s);
            }
            assert forall|i: int| 0 <= i < p.len() implies !(#[trigger] p[i]).contains(c) by {
                if i == 0 {
                    assert(!r[0].contains(c));
                    if p[0].contains(c) {
                        let j = choose|j: int| 0 <= j < p[0].len() && p[0][j] == c;
                        if j > 0 {
                            assert(r[0][j - 1] == c);
                        }
                    }
                } else {
                    assert(p[i] == r[i]);
                }
            }
        }
    }
}

/// Law: the cut at the first `c` loses nothing: the part before holds no
/// `c`, and the string is that part, then `c` and the rest (when there is a `c`).
pub proof fn law_split_once(s: Seq<char>, c: char)
    ensures
        !split_once(s, c).0.contains(c),
        split_once(s, c).1 matches Some(rest) ==> s == split_once(s, c).0 + seq![c] + rest,
        split_once(s, c).1 is None ==> s == split_once(s, c).0,
    decreases s.len(),
{
    if s.len() > 0 {
        let t = s.skip(1);
        law_split_once(t, c);
        if s[0] == c {
            assert(Seq::<char>::empty() + seq![c] + t =~= s);
        } else {
            let (a, b) = split_once(t, c);
            let a2 = seq![s[0]] + a;
            if a2.contains(c) {
                let j = choose|j: int| 0 <= j < a2.len() && a2[j] == c;
                assert(a[j - 1] == c);
            }
            match b {
                Some(rest) => {
                    assert(a2 + seq![c] + rest =~= seq![s[0]] + (a + seq![c] + rest));
                },
                None => {},
            }
            assert(seq![s[0]] + t =~= s);
        }
    }
}

/// Law: the path of a URL holds no `?`, and a URL with a `?` is its path,
/// `?` and its query string.
pub proof fn law_url_path(url: Seq<char>)
    ensures
        !url_path_spec(url).contains('?'),
        split_once(url, '?').1 matches Some(qs) ==> url == url_path_spec(url) + seq!['?'] + qs,
{
    law_split_once(url, '?');
}

/// The bytes that percent-decoding makes of a string without `%` or `+` are
/// exactly its UTF-8 encoding.
pub proof fn lemma_decode_plain_bytes(s: Seq<char>)
    requires
        !s.contains('%'),
        !s.contains('+'),
    ensures
        percent_decode_bytes(s) == crate::unicode::utf8_spec(s),
    decreases s.len(),
{
    if s.len() > 0 {
        let t = s.skip(1);
        assert(s[0] != '%' && s[0] != '+') by {
            assert(s.contains(s[0]));
        }
        assert(!t.contains('%') && !t.contains('+')) by {
            if t.contains('%') || t.contains('+') {
                let j = choose|j: int| 0 <= j < t.len() && (t[j] == '%' || t[j] == '+');
                assert(s[j + 1] == t[j]);
            }
        }
        lemma_decode_plain_bytes(t);
    }
}

/// A hexadecimal digit for `d < 16`, in upper or lower case.
pub open spec fn hex_char(d: int, upper: bool) -> char {
    if d < 10 {
        (48 + d) as char
    } else if upper {
        (55 + d) as char
    } else {
        (87 + d) as char
    }
}

/// Every byte written as `%` and two hexadecimal digits.
pub open spec fn percent_encode_spec(b: Seq<u8>, upper: bool) -> Seq<char>
    decreases b.len(),
{
    if b.len() == 0 {
        Seq::empty()
    } else {
        seq!['%', hex_char(b[0] as int / 16, upper), hex_char(b[0] as int % 16, upper)] + percent_encode_spec(b.skip(1), upper)
    }
}

proof fn lemma_hex_char(d: int, upper: bool)
    requires
        0 <= d < 16,
    ensures
        hex_value(hex_char(d, upper)) == Some(d as u8),
{
}

/// Law: percent-decoding undoes percent-encoding: the bytes decoded from a
/// fully percent-encoded text are the bytes encoded. With `url_decode`'s
/// contract, a percent-encoded UTF-8 text decodes to that text.
pub proof fn law_percent_round_trip(b: Seq<u8>, upper: bool)
    ensures
        percent_decode_bytes(percent_encode_spec(b, upper)) == b,
    decreases b.len(),
{
    if b.len() > 0 {
        let e = percent_encode_spec(b, upper);
        let hi = b[0] as int / 16;
        let lo = b[0] as int % 16;
        lemma_hex_char(hi as int, upper);
        lemma_hex_char(lo as int, upper);
        law_percent_round_trip(b.skip(1), upper);
        assert(e.skip(3) =~= percent_encode_spec(b.skip(1), upper));
        assert(e[0] == '%');
        assert(e[1] == hex_char(hi as int, upper));
        assert(e[2] == hex_char(lo as int, upper));
        assert((hi * 16 + lo) as u8 == b[0]);
        assert(seq![b[0]] + b.skip(1) =~= b);
    }
}

/// Law: looking a key up gives the value of the last pair with that key,
/// and nothing exactly when no pair has it.
pub proof fn law_query_lookup(pairs: Seq<(Seq<char>, Seq<char>)>, key: Seq<char>)
    ensures
        query_lookup(pairs, key) is None <==> forall|i: int| 0 <= i < pairs.len() ==> #[trigger] pairs[i].0 != key,
        query_lookup(pairs, key) matches Some(v) ==> exists|i: int|
            0 <= i < pairs.len() && pairs[i] == (key, v) && forall|j: int|
                i < j < pairs.len() ==> #[trigger] pairs[j].0 != key,
    decreases pairs.len(),
{
    if pairs.len() > 0 {
        let rest = pairs.drop_last();
        law_query_lookup(rest, key);
        if pairs.last().0 == key {
            assert(pairs[pairs.len() - 1] == (key, pairs.last().1));
        } else {
            assert forall|i: int| 0 <= i < rest.len() implies #[trigger] pairs[i] == rest[i] by {}
            if let Some(v) = query_lookup(pairs, key) {
                let i = choose|i: int|
                    0 <= i < rest.len() && rest[i] == (key, v) && forall|j: int|
                        i < j < rest.len() ==> #[trigger] rest[j].0 != key;
                assert(pairs[i] == (key, v));
                assert forall|j: int| i < j < pairs.len() implies #[trigger] pairs[j].0 != key by {
                    if j < rest.len() {
                        assert(pairs[j] == rest[j]);
                    }
                }
            } else {
                assert forall|i: int| 0 <= i < pairs.len() implies #[trigger] pairs[i].0 != key by {
                    if i < rest.len() {
                        assert(pairs[i] == rest[i]);
                    }
                }
            }
        }
    }
}

} // verus!

//! File ids: URL-safe names for open files, and how a free one is found.

use vstd::prelude::*;
use std::path::PathBuf;
use crate::store::{EntrySpec, FileStore, opt_view};
use crate::text::{chars_of, decimal, decimal_spec, push_char};
use crate::unicode::{char_is_alphanumeric, is_alphanumeric, is_ascii_alphanumeric};

verus! {

/// A character of a file id: alphanumeric characters, `-` and `_` stay,
/// every other character becomes `_`.
pub open spec fn id_char(c: char) -> char {
    if is_alphanumeric(c) || c == '-' || c == '_' {
        c
    } else {
        '_'
    }
}

/// What `id_char` makes of an ASCII character: letters and digits, `-` and
/// `_` stay, everything else becomes `_`.
pub open spec fn ascii_id_char(c: char) -> char {
    if is_ascii_alphanumeric(c) || c == '-' || c == '_' {
        c
    } else {
        '_'
    }
}

/// The file id made from a name, character by character.
pub open spec fn sanitize_spec(name: Seq<char>) -> Seq<char> {
    name.map_values(|c: char| id_char(c))
}

/// The id made from a name: each character that is not alphanumeric, `-`
/// or `_` replaced by `_` (for ASCII: each one that is not a letter, a
/// digit, `-` or `_`).
pub fn sanitize_id(name: &str) -> (id: String)
    ensures
        id@ == sanitize_spec(name@),
        forall|i: int|
            0 <= i < name@.len() && (name@[i] as int) < 128 ==> #[trigger] id@[i] == ascii_id_char(name@[i]),
        id@.len() == name@.len(),
        forall|i: int| 0 <= i < name@.len() && is_alphanumeric(name@[i]) ==> #[trigger] id@[i] == name@[i],
{
    proof { law_sanitize(name@); }
    let v = chars_of(name);
    let mut id = String::new();
    let mut i: usize = 0;
    while i < v.len()
        invariant
            i <= v.len(),
            v@ == name@,
            id@ == v@.take(i as int).map_values(|c: char| id_char(c)),
            forall|j: int| 0 <= j < i && (v@[j] as int) < 128 ==> #[trigger] id@[j] == ascii_id_char(v@[j]),
        decreases v.len() - i,
    {
        let c = v[i];
        let keep = char_is_alphanumeric(c) || c == '-' || c == '_';
        push_char(&mut id, if keep { c } else { '_' });
        assert(v@.take(i + 1).map_values(|c: char| id_char(c))
            =~= v@.take(i as int).map_values(|c: char| id_char(c)).push(id_char(c)));
        i = i + 1;
    }
    assert(v@.take(i as int) =~= v@);
    id
}

/// The id for a file whose name is `name` (none when the path has no file
/// name, or one that is not UTF-8).
pub open spec fn file_id_spec(name: Option<Seq<char>>) -> Seq<char> {
    match name {
        Some(n) => sanitize_spec(n),
        None => "unknown"@,
    }
}

/// The id for a file name, `unknown` when there is none.
pub fn file_id_from_name(name: Option<&str>) -> (id: String)
    ensures
        id@ == file_id_spec(match name {
            Some(n) => Some(n@),
            None => None,
        }),
{
    match name {
        Some(n) => sanitize_id(n),
        None => "unknown".to_owned(),
    }
}

/// The standard library's path type, carried through opaquely.
#[verifier::external_type_specification]
#[verifier::external_body]
pub struct ExPathBuf(PathBuf);

/// The last component of a path as UTF-8 text: none when the path has no
/// file name (it ends in `..`, or is a root) or the name is not UTF-8.
pub uninterp spec fn file_name_of(path: PathBuf) -> Option<Seq<char>>;

/// `Path::file_name` followed by `OsStr::to_str`. Claimed: the result is
/// `file_name_of` of the path.
#[verifier::external_body]
fn path_file_name(path: &PathBuf) -> (name: Option<String>)
    ensures
        opt_view(name) == file_name_of(*path),
{
    path.file_name().and_then(|n| n.to_str()).map(|n| n.to_string())
}

/// Generate a URL-safe file ID from a path: the file name with every
/// character that is not alphanumeric, `-` or `_` made `_`; `unknown` when
/// the path has no UTF-8 file name.
pub fn make_file_id(path: &PathBuf) -> (id: String)
    ensures
        id@ == file_id_spec(file_name_of(*path)),
        file_name_of(*path) matches Some(n) ==> forall|i: int|
            0 <= i < n.len() && (n[i] as int) < 128 ==> #[trigger] id@[i] == ascii_id_char(n[i]),
        file_name_of(*path) matches Some(n) ==> id@.len() == n.len() && forall|i: int|
            0 <= i < n.len() && is_alphanumeric(n[i]) ==> #[trigger] id@[i] == n[i],
{
    let name = path_file_name(path);
    match name {
        Some(n) => sanitize_id(n.as_str()),
        None => file_id_from_name(None),
    }
}

/// The last component of a path as text, each part that is not UTF-8
/// replaced by U+FFFD: none when the path has no file name.
pub uninterp spec fn file_name_lossy_of(path: PathBuf) -> Option<Seq<char>>;

/// `Path::file_name` followed by `OsStr::to_string_lossy`. Claimed: the
/// result is `file_name_lossy_of` of the path.
#[verifier::external_body]
fn path_file_name_lossy(path: &PathBuf) -> (name: Option<String>)
    ensures
        opt_view(name) == file_name_lossy_of(*path),
{
    path.file_name().map(|n| n.to_string_lossy().to_string())
}

/// The name shown on a file's tab for a lossy file name: the name, or
/// `unknown` when there is none.
pub open spec fn display_name_spec(name: Option<Seq<char>>) -> Seq<char> {
    match name {
        Some(n) => n,
        None => "unknown"@,
    }
}

/// The name shown on a file's tab: its file name, `unknown` when it has none.
pub fn display_name_of(path: &PathBuf) -> (name: String)
    ensures
        name@ == display_name_spec(file_name_lossy_of(*path)),
{
    match path_file_name_lossy(path) {
        Some(n) => n,
        None => "unknown".to_owned(),
    }
}

/// A path written out as text, each part that is not UTF-8 replaced by
/// U+FFFD.
pub uninterp spec fn path_display_of(path: PathBuf) -> Seq<char>;

/// `Path::display` written to a `String`. Claimed: the result is
/// `path_display_of` of the path.
#[verifier::external_body]
pub(crate) fn path_display(path: &PathBuf) -> (text: String)
    ensures
        text@ == path_display_of(*path),
{
    path.display().to_string()
}

/// The `i`-th numbered variant of an id: `base_i`.
pub open spec fn candidate_spec(base: Seq<char>, i: nat) -> Seq<char> {
    base + "_"@ + decimal_spec(i)
}

/// The first numbered variant `base_i`, `from <= i < 100`, that is not taken.
pub open spec fn first_free_from(base: Seq<char>, m: Map<Seq<char>, EntrySpec>, i: nat) -> Option<Seq<char>>
    decreases 100 - i,
{
    if i >= 100 {
        None
    } else if !m.contains_key(candidate_spec(base, i)) {
        Some(candidate_spec(base, i))
    } else {
        first_free_from(base, m, i + 1)
    }
}

/// The id that a new file with base id `base` gets: `base` itself if it is
/// free, else the first free `base_1` .. `base_99`, else none of these.
pub open spec fn free_id_spec(base: Seq<char>, m: Map<Seq<char>, EntrySpec>) -> Option<Seq<char>> {
    if !m.contains_key(base) {
        Some(base)
    } else {
        first_free_from(base, m, 1)
    }
}

fn candidate(base: &str, i: u64) -> (c: String)
    ensures
        c@ == candidate_spec(base@, i as nat),
{
    let mut c = base.to_owned();
    c.append("_");
    let n = decimal(i);
    c.append(n.as_str());
    c
}

/// The first free id among `base`, `base_1` .. `base_99`, if one is free.
pub fn free_file_id(base: &str, files: &FileStore) -> (r: Option<String>)
    requires
        files.wf(),
    ensures
        match r {
            Some(id) => free_id_spec(base@, files@) == Some(id@),
            None => free_id_spec(base@, files@) is None,
        },
{
    if !files.contains_key(base) {
        return Some(base.to_owned());
    }
    let mut i: u64 = 1;
    while i < 100
        invariant
            1 <= i <= 100,
            files.wf(),
            files@.contains_key(base@),
            free_id_spec(base@, files@) == first_free_from(base@, files@, i as nat),
        decreases 100 - i,
    {
        let c = candidate(base, i);
        if !files.contains_key(c.as_str()) {
            return Some(c);
        }
        i = i + 1;
    }
    None
}

/// The `k`-th stamp tried after `start`: `start + k`, counted modulo 2^64.
pub open spec fn stamp_after(start: u64, k: nat) -> nat {
    ((start + k) % 0x1_0000_0000_0000_0000) as nat
}

/// The first variant `base_t` that is not taken, trying the stamps `start`,
/// `start + 1`, .. (modulo 2^64) in turn. One of the first `n + 1` is free
/// when `n` ids are taken, so the search ends.
pub fn stamped_file_id(base: &str, files: &FileStore, start: u64) -> (id: String)
    requires
        files.wf(),
    ensures
        !files@.contains_key(id@),
        exists|k: nat|
            k <= files@.len() && id@ == candidate_spec(base@, stamp_after(start, k)) && forall|j: nat|
                j < k ==> files@.contains_key(#[trigger] candidate_spec(base@, stamp_after(start, j))),
{
    proof { files.lemma_order_is_keys(); }
    let n = files.len();
    let mut t = start;
    let mut k: usize = 0;
    let ghost mut tried: Seq<Seq<char>> = Seq::empty();
    loop
        invariant
            files.wf(),
            n == files@.len(),
            files@.dom().finite(),
            k <= n,
            t == stamp_after(start, k as nat),
            tried.len() == k,
            forall|j: int| 0 <= j < k ==> tried[j] == candidate_spec(base@, stamp_after(start, j as nat)),
            forall|j: int| 0 <= j < k ==> files@.contains_key(#[trigger] tried[j]),
            tried.no_duplicates(),
        decreases n - k,
    {
        let c = candidate(base, t);
        if !files.contains_key(c.as_str()) {
            proof {
                assert forall|j: nat| j < k implies files@.contains_key(
                    #[trigger] candidate_spec(base@, stamp_after(start, j)),
                ) by {
                    assert(tried[j as int] == candidate_spec(base@, stamp_after(start, j)));
                }
            }
            return c;
        }
        proof {
            let grown = tried.push(c@);
            assert forall|j: int| 0 <= j < k implies grown[j] != c@ by {
                lemma_stamps_differ(start, j as nat, k as nat);
                if grown[j] == c@ {
                    assert(grown[j] == tried[j]);
                    lemma_candidate_injective(base@, stamp_after(start, j as nat), stamp_after(start, k as nat));
                }
            }
            assert(grown.no_duplicates());
            grown.unique_seq_to_set();
            assert(grown.to_set().subset_of(files@.dom())) by {
                assert forall|x: Seq<char>| grown.to_set().contains(x) implies files@.dom().contains(x) by {
                    let j = choose|j: int| 0 <= j < grown.len() && grown[j] == x;
                    if j < k {
                        assert(files@.contains_key(tried[j]));
                    }
                }
            }
            vstd::set_lib::lemma_len_subset(grown.to_set(), files@.dom());
            tried = grown;
        }
        t = if t == u64::MAX {
            0
        } else {
            t + 1
        };
        k = k + 1;
    }
}

/// Two different tries, fewer than 2^64 apart, use different stamps.
proof fn lemma_stamps_differ(start: u64, j: nat, k: nat)
    requires
        j < k < 0x1_0000_0000_0000_0000,
    ensures
        stamp_after(start, j) != stamp_after(start, k),
{
}

/// Different stamps give different variants of an id.
proof fn lemma_candidate_injective(base: Seq<char>, a: nat, b: nat)
    requires
        candidate_spec(base, a) == candidate_spec(base, b),
    ensures
        a == b,
{
    reveal_strlit("_");
    let n = base.len() as int + 1;
    assert(candidate_spec(base, a).skip(n) =~= decimal_spec(a));
    assert(candidate_spec(base, b).skip(n) =~= decimal_spec(b));
    crate::text::law_decimal_injective(a, b);
}

/// Ensure a unique file ID within the current map: `base` if it is free,
/// else the first free `base_1` .. `base_99`, else the first free `base_`
/// and a stamp, counting up from the current time.
pub fn unique_file_id(base: &str, files: &FileStore) -> (id: String)
    requires
        files.wf(),
    ensures
        !files@.contains_key(id@),
        match free_id_spec(base@, files@) {
            Some(x) => id@ == x,
            None => exists|t: u64| id@ == candidate_spec(base@, t as nat),
        },
{
    proof { lemma_free_id_is_free(base@, files@); }
    match free_file_id(base, files) {
        Some(id) => id,
        None => {
            let start = crate::clock::current_timestamp();
            let id = stamped_file_id(base, files, start);
            proof {
                let k = choose|k: nat|
                    k <= files@.len() && id@ == candidate_spec(base@, stamp_after(start, k)) && forall|j: nat|
                        j < k ==> files@.contains_key(#[trigger] candidate_spec(base@, stamp_after(start, j)));
                let t = stamp_after(start, k) as u64;
                assert(id@ == candidate_spec(base@, t as nat));
            }
            id
        },
    }
}

/// Law: an id that `free_id_spec` picks is not taken.
pub proof fn lemma_free_id_is_free(base: Seq<char>, m: Map<Seq<char>, EntrySpec>)
    ensures
        free_id_spec(base, m) matches Some(x) ==> !m.contains_key(x),
{
    if m.contains_key(base) {
        lemma_first_free_is_free(base, m, 1);
    }
}

proof fn lemma_first_free_is_free(base: Seq<char>, m: Map<Seq<char>, EntrySpec>, i: nat)
    ensures
        first_free_from(base, m, i) matches Some(x) ==> !m.contains_key(x),
    decreases 100 - i,
{
    if i < 100 && m.contains_key(candidate_spec(base, i)) {
        lemma_first_free_is_free(base, m, i + 1);
    }
}

/// Law: a file id has as many characters as the name it is made from, each
/// of them alphanumeric, `-` or `_`: every alphanumeric character of the
/// name (in any script), `-` and `_` stays as it is, and every other
/// character becomes `_`; making an id of an id changes nothing.
pub proof fn law_sanitize(name: Seq<char>)
    ensures
        sanitize_spec(name).len() == name.len(),
        forall|i: int|
            0 <= i < name.len() && (is_alphanumeric(name[i]) || name[i] == '-' || name[i] == '_')
                ==> #[trigger] sanitize_spec(name)[i] == name[i],
        forall|i: int|
            0 <= i < name.len() && !(is_alphanumeric(name[i]) || name[i] == '-' || name[i] == '_')
                ==> #[trigger] sanitize_spec(name)[i] == '_',
        forall|i: int| 0 <= i < name.len() ==> {
            let c = #[trigger] sanitize_spec(name)[i];
            is_alphanumeric(c) || c == '-' || c == '_'
        },
        sanitize_spec(sanitize_spec(name)) == sanitize_spec(name),
{
    assert(sanitize_spec(sanitize_spec(name)) =~= sanitize_spec(name));
}

/// Law: the id picked for a new file is `base` when that is free; else the
/// numbered variant `base_i` with the least `i` from 1 to 99 that is free;
/// and there is none only when `base` and all of `base_1` .. `base_99` are
/// taken.
pub proof fn law_free_id(base: Seq<char>, m: Map<Seq<char>, EntrySpec>)
    ensures
        !m.contains_key(base) ==> free_id_spec(base, m) == Some(base),
        m.contains_key(base) ==> match free_id_spec(base, m) {
            Some(x) => exists|i: nat|
                1 <= i < 100 && x == candidate_spec(base, i) && !m.contains_key(x) && forall|j: nat|
                    1 <= j < i ==> m.contains_key(#[trigger] candidate_spec(base, j)),
            None => forall|j: nat| 1 <= j < 100 ==> m.contains_key(#[trigger] candidate_spec(base, j)),
        },
{
    if m.contains_key(base) {
        lemma_first_free_from(base, m, 1);
    }
}

proof fn lemma_first_free_from(base: Seq<char>, m: Map<Seq<char>, EntrySpec>, k: nat)
    requires
        1 <= k,
    ensures
        match first_free_from(base, m, k) {
            Some(x) => exists|i: nat|
                k <= i < 100 && x == candidate_spec(base, i) && !m.contains_key(x) && forall|j: nat|
                    k <= j < i ==> m.contains_key(#[trigger] candidate_spec(base, j)),
            None => forall|j: nat| k <= j < 100 ==> m.contains_key(#[trigger] candidate_spec(base, j)),
        },
    decreases 100 - k,
{
    if k < 100 {
        if !m.contains_key(candidate_spec(base, k)) {
            assert(forall|j: nat| k <= j < k ==> m.contains_key(#[trigger] candidate_spec(base, j)));
        } else {
            lemma_first_free_from(base, m, k + 1);
            match first_free_from(base, m, k + 1) {
                Some(x) => {
                    let i = choose|i: nat|
                        k + 1 <= i < 100 && x == candidate_spec(base, i) && !m.contains_key(x) && forall|j: nat|
                            k + 1 <= j < i ==> m.contains_key(#[trigger] candidate_spec(base, j));
                    assert forall|j: nat| k <= j < i implies m.contains_key(#[trigger] candidate_spec(base, j)) by {
                        if j > k {
                            assert(k + 1 <= j < i);
                        }
                    }
                },
                None => {
                    assert forall|j: nat| k <= j < 100 implies m.contains_key(#[trigger] candidate_spec(base, j)) by {
                        if j > k {
                            assert(k + 1 <= j < 100);
                        }
                    }
                },
            }
        }
    }
}

} // verus!

//! Release version strings: normalising a tag, finding a version in an asset
//! file name, splitting a version into numeric parts, and deciding whether one
//! version is newer than another.
use crate::text::{
    all_digits, chars_of, count_char, count_in_range, is_ascii_digit, is_digit, is_whitespace,
    is_ws, leading_digits, parse_u32, parse_u32_range, skip_char_front, string_of, trim,
    trim_bounds, trim_start_char,
};
use vstd::prelude::*;

verus! {

/// A tag once trimmed and stripped of its leading `v`s and then `V`s.
pub open spec fn normalized_text(s: Seq<char>) -> Seq<char> {
    trim_start_char(trim_start_char(trim(s), 'v'), 'V')
}

/// What `normalize_version` returns: the stripped tag when it has at least
/// three dot-separated parts.
pub open spec fn spec_normalize_version(s: Seq<char>) -> Option<Seq<char>> {
    let t = normalized_text(s);
    if count_char(t, '.') >= 2 {
        Some(t)
    } else {
        None
    }
}

/// `s[a..b]` is one of the pieces that `str::split_whitespace` yields.
pub open spec fn is_word(s: Seq<char>, a: int, b: int) -> bool {
    &&& 0 <= a < b <= s.len()
    &&& forall|k: int| a <= k < b ==> !is_ws(#[trigger] s[k])
    &&& (a == 0 || is_ws(s[a - 1]))
    &&& (b == s.len() || is_ws(s[b]))
}

/// A whitespace-separated piece with at least two dots.
pub open spec fn is_dotted_word(s: Seq<char>, a: int, b: int) -> bool {
    is_word(s, a, b) && count_char(s.subrange(a, b), '.') >= 2
}

pub open spec fn has_dotted_word(s: Seq<char>) -> bool {
    exists|a: int, b: int| is_dotted_word(s, a, b)
}

/// The first whitespace-separated piece of `s` with at least two dots.
pub open spec fn first_dotted_word(s: Seq<char>) -> Seq<char> {
    let (a, b) = choose|a: int, b: int|
        is_dotted_word(s, a, b) && forall|a2: int, b2: int|
            is_dotted_word(s, a2, b2) ==> a <= a2;
    s.subrange(a, b)
}

/// What `version_from_asset` returns: the first piece of the name with two
/// dots, normalised.
pub open spec fn spec_version_from_asset(s: Seq<char>) -> Option<Seq<char>> {
    if has_dotted_word(s) {
        spec_normalize_version(first_dotted_word(s))
    } else {
        None
    }
}

/// `str::split(sep)`, as a sequence of pieces.
pub open spec fn split_on(s: Seq<char>, sep: char) -> Seq<Seq<char>>
    decreases s.len(),
{
    if s.len() == 0 {
        seq![Seq::<char>::empty()]
    } else {
        let rest = split_on(s.drop_first(), sep);
        if s[0] == sep {
            seq![Seq::<char>::empty()] + rest
        } else {
            rest.update(0, seq![s[0]] + rest[0])
        }
    }
}

/// The text a version is split from: trimmed, leading lowercase `v`s dropped.
pub open spec fn parts_text(v: Seq<char>) -> Seq<char> {
    trim_start_char(trim(v), 'v')
}

/// The number a dot-separated piece stands for: its leading digits parsed as a
/// `u32`, or 0 when there are none or they overflow.
pub open spec fn piece_number(p: Seq<char>) -> u32 {
    match parse_u32(leading_digits(p)) {
        Some(n) => n,
        None => 0,
    }
}

pub open spec fn version_part(v: Seq<char>, k: int) -> u32 {
    let ps = split_on(parts_text(v), '.');
    if k < ps.len() {
        piece_number(ps[k])
    } else {
        0
    }
}

/// The three numeric parts of a version; missing parts are 0.
pub open spec fn spec_version_parts(v: Seq<char>) -> Seq<u32> {
    seq![version_part(v, 0), version_part(v, 1), version_part(v, 2)]
}

/// Lexicographic "greater than" on three-part versions.
pub open spec fn parts_greater(a: Seq<u32>, b: Seq<u32>) -> bool {
    ||| a[0] > b[0]
    ||| a[0] == b[0] && a[1] > b[1]
    ||| a[0] == b[0] && a[1] == b[1] && a[2] > b[2]
}

/// Whether version `latest` is newer than version `current`.
pub open spec fn spec_is_newer_version(latest: Seq<char>, current: Seq<char>) -> bool {
    parts_greater(spec_version_parts(latest), spec_version_parts(current))
}

proof fn lemma_word_end_unique(s: Seq<char>, a: int, b1: int, b2: int)
    requires
        is_word(s, a, b1),
        is_word(s, a, b2),
    ensures
        b1 == b2,
{
    if b1 < b2 {
        assert(!is_ws(s[b1]));
    } else if b2 < b1 {
        assert(!is_ws(s[b2]));
    }
}

/// Normalises a release tag: trims it, drops leading `v`s then `V`s, and keeps
/// it only when it has at least three dot-separated parts.
pub fn normalize_version(value: &str) -> (r: Option<String>)
    ensures
        r is Some <==> spec_normalize_version(value@) is Some,
        r matches Some(t) ==> t@ == spec_normalize_version(value@)->0,
{
    let v = chars_of(value);
    let n = v.len();
    assert(v@.subrange(0, n as int) =~= v@);
    let (a, b) = trim_bounds(&v, 0, n);
    let a2 = skip_char_front(&v, a, b, 'v');
    let a3 = skip_char_front(&v, a2, b, 'V');
    let dots = count_in_range(&v, a3, b, '.');
    if dots >= 2 {
        Some(string_of(&v, a3, b))
    } else {
        None
    }
}

/// Finds the version in a release asset name: the first whitespace-separated
/// piece with at least two dots, normalised.
pub fn version_from_asset(name: &str) -> (r: Option<String>)
    ensures
        r is Some <==> spec_version_from_asset(name@) is Some,
        r matches Some(t) ==> t@ == spec_version_from_asset(name@)->0,
{
    let v = chars_of(name);
    let n = v.len();
    let ghost s = v@;
    let mut i: usize = 0;
    while i < n
        invariant
            n == v.len(),
            s == v@,
            s == name@,
            i <= n,
            i < n ==> (i == 0 || is_ws(s[i - 1]) || is_ws(s[i as int])),
            forall|a: int, b: int| #[trigger] is_dotted_word(s, a, b) ==> a >= i,
        decreases n - i,
    {
        if is_whitespace(v[i]) {
            i = i + 1;
            continue ;
        }
        let mut j = i;
        while j < n && !is_whitespace(v[j])
            invariant
                n == v.len(),
                s == v@,
                i <= j <= n,
                forall|k: int| i <= k < j ==> !is_ws(#[trigger] s[k]),
            decreases n - j,
        {
            j = j + 1;
        }
        assert(is_word(s, i as int, j as int));
        let dots = count_in_range(&v, i, j, '.');
        if dots >= 2 {
            let w = string_of(&v, i, j);
            proof {
                assert(is_dotted_word(s, i as int, j as int));
                assert(has_dotted_word(s));
                let (a, b) = choose|a: int, b: int|
                    is_dotted_word(s, a, b) && forall|a2: int, b2: int|
                        is_dotted_word(s, a2, b2) ==> a <= a2;
                assert(is_dotted_word(s, a, b) && forall|a2: int, b2: int|
                    is_dotted_word(s, a2, b2) ==> a <= a2);
                assert(a == i);
                lemma_word_end_unique(s, a, b, j as int);
                assert(first_dotted_word(s) == w@);
            }
            return normalize_version(w.as_str());
        }
        proof {
            assert forall|a: int, b: int| #[trigger] is_dotted_word(s, a, b) implies a >= j by {
                if a < j {
                    assert(a >= i);
                    if a > i {
                        assert(!is_ws(s[a - 1]));
                    } else {
                        lemma_word_end_unique(s, a, b, j as int);
                    }
                }
            }
        }
        i = j;
    }
    proof {
        assert forall|a: int, b: int| !is_dotted_word(s, a, b) by {
            if is_dotted_word(s, a, b) {
                assert(a >= i);
            }
        }
    }
    None
}

proof fn lemma_split_nonempty(s: Seq<char>, sep: char)
    ensures
        split_on(s, sep).len() >= 1,
    decreases s.len(),
{
    if s.len() > 0 {
        lemma_split_nonempty(s.drop_first(), sep);
    }
}

/// How `split_on` splits off its first piece.
proof fn lemma_split_first(s: Seq<char>, sep: char, j: int)
    requires
        0 <= j <= s.len(),
        forall|k: int| 0 <= k < j ==> s[k] != sep,
        j == s.len() || s[j] == sep,
    ensures
        split_on(s, sep)[0] == s.take(j),
        j == s.len() ==> split_on(s, sep).len() == 1,
        j < s.len() ==> split_on(s, sep).drop_first() == split_on(s.skip(j + 1), sep),
    decreases j,
{
    lemma_split_nonempty(s, sep);
    if s.len() == 0 {
        assert(s.take(j) =~= Seq::<char>::empty());
    } else if j == 0 {
        assert(s[0] == sep);
        let rest = split_on(s.drop_first(), sep);
        assert(split_on(s, sep) == seq![Seq::<char>::empty()] + rest);
        assert(s.take(0) =~= Seq::<char>::empty());
        assert(split_on(s, sep).drop_first() =~= rest);
        assert(s.skip(1) =~= s.drop_first());
    } else {
        let t = s.drop_first();
        assert forall|k: int| 0 <= k < j - 1 implies t[k] != sep by {
            assert(t[k] == s[k + 1]);
        }
        if j < s.len() {
            assert(t[j - 1] == s[j]);
        }
        lemma_split_first(t, sep, j - 1);
        lemma_split_nonempty(t, sep);
        let rest = split_on(t, sep);
        assert(s[0] != sep);
        assert(split_on(s, sep) == rest.update(0, seq![s[0]] + rest[0]));
        assert(s.take(j) =~= seq![s[0]] + t.take(j - 1));
        if j < s.len() {
            assert(t.skip(j) =~= s.skip(j + 1));
            assert(split_on(s, sep).drop_first() =~= rest.drop_first());
        }
    }
}

proof fn lemma_leading_digits_run(s: Seq<char>, j: int)
    requires
        0 <= j <= s.len(),
        all_digits(s.take(j)),
        j == s.len() || !is_digit(s[j]),
    ensures
        leading_digits(s) == s.take(j),
    decreases s.len(),
{
    if j == s.len() {
        assert(s.take(j) =~= s);
    } else {
        assert(!all_digits(s));
        let t = s.drop_last();
        if j < t.len() {
            assert(t[j] == s[j]);
        }
        assert(t.take(j) =~= s.take(j));
        lemma_leading_digits_run(t, j);
    }
}

/// The number that `v[lo..hi]` stands for as a version piece.
fn piece_number_range(v: &Vec<char>, lo: usize, hi: usize) -> (r: u32)
    requires
        lo <= hi <= v.len(),
    ensures
        r == piece_number(v@.subrange(lo as int, hi as int)),
{
    let ghost p = v@.subrange(lo as int, hi as int);
    let mut j = lo;
    while j < hi && is_ascii_digit(v[j])
        invariant
            lo <= j <= hi <= v.len(),
            forall|k: int| lo <= k < j ==> is_digit(#[trigger] v@[k]),
        decreases hi - j,
    {
        j = j + 1;
    }
    proof {
        assert(p.take(j - lo) =~= v@.subrange(lo as int, j as int));
        assert(all_digits(p.take(j - lo))) by {
            assert forall|k: int| 0 <= k < j - lo implies is_digit(#[trigger] p.take(j - lo)[k]) by {
                assert(p.take(j - lo)[k] == v@[lo + k]);
            }
        }
        if j < hi {
            assert(p[j - lo] == v@[j as int]);
        }
        lemma_leading_digits_run(p, j - lo);
    }
    match parse_u32_range(v, lo, j) {
        Some(x) => x,
        None => 0,
    }
}

/// The first index at or after `lo` in `v[lo..hi]` holding `c`, or `hi`.
fn find_char(v: &Vec<char>, lo: usize, hi: usize, c: char) -> (r: usize)
    requires
        lo <= hi <= v.len(),
    ensures
        lo <= r <= hi,
        forall|k: int| lo <= k < r ==> v@[k] != c,
        r < hi ==> v@[r as int] == c,
{
    let mut j = lo;
    while j < hi && v[j] != c
        invariant
            lo <= j <= hi <= v.len(),
            forall|k: int| lo <= k < j ==> v@[k] != c,
        decreases hi - j,
    {
        j = j + 1;
    }
    j
}

/// Splits a version into three numbers: trims it, drops leading `v`s, splits
/// on `.`, and reads the leading digits of each of the first three pieces;
/// a piece with no digits, one that overflows `u32`, or one that is missing
/// counts as 0.
pub fn version_parts(version: &str) -> (r: [u32; 3])
    ensures
        r@ == spec_version_parts(version@),
{
    let v = chars_of(version);
    let n = v.len();
    assert(v@.subrange(0, n as int) =~= v@);
    let (a, b) = trim_bounds(&v, 0, n);
    let start = skip_char_front(&v, a, b, 'v');
    let ghost t = v@.subrange(start as int, b as int);
    assert(t == parts_text(version@));
    let ghost ps = split_on(t, '.');
    proof {
        lemma_split_nonempty(t, '.');
        assert(ps.skip(0) =~= ps);
    }
    let mut parts: [u32; 3] = [0, 0, 0];
    let mut lo = start;
    let mut k: usize = 0;
    let mut done = false;
    while k < 3 && !done
        invariant
            start <= lo <= b <= v.len(),
            t == v@.subrange(start as int, b as int),
            ps == split_on(t, '.'),
            k <= 3,
            !done ==> ps.skip(k as int) == split_on(v@.subrange(lo as int, b as int), '.'),
            !done ==> k < ps.len(),
            done ==> ps.len() == k,
            forall|i: int| 0 <= i < k ==> parts@[i] == piece_number(ps[i]),
            forall|i: int| k <= i < 3 ==> parts@[i] == 0,
        decreases 3 - k,
    {
        let ghost rest = v@.subrange(lo as int, b as int);
        let j = find_char(&v, lo, b, '.');
        proof {
            assert forall|q: int| 0 <= q < j - lo implies rest[q] != '.' by {
                assert(rest[q] == v@[lo + q]);
            }
            if j < b {
                assert(rest[j - lo] == v@[j as int]);
            }
            lemma_split_first(rest, '.', j - lo);
            assert(rest.take(j - lo) =~= v@.subrange(lo as int, j as int));
            assert(ps[k as int] == ps.skip(k as int)[0]);
        }
        let num = piece_number_range(&v, lo, j);
        parts[k] = num;
        if j == b {
            done = true;
            proof {
                assert(ps.skip(k as int).len() == 1);
            }
        } else {
            proof {
                assert(rest.skip(j - lo + 1) =~= v@.subrange(j + 1, b as int));
                assert(ps.skip(k + 1) =~= ps.skip(k as int).drop_first());
                lemma_split_nonempty(v@.subrange(j + 1, b as int), '.');
            }
            lo = j + 1;
        }
        k = k + 1;
    }
    proof {
        assert forall|i: int| 0 <= i < 3 implies parts@[i] == version_part(version@, i) by {
            if i < k {
            } else {
                assert(i >= ps.len());
            }
        }
        assert(parts@ =~= spec_version_parts(version@));
    }
    parts
}

/// Whether `latest` is a newer version than `current`, comparing their three
/// numeric parts in order.
pub fn is_newer_version(latest: &str, current: &str) -> (r: bool)
    ensures
        r == spec_is_newer_version(latest@, current@),
{
    let a = version_parts(latest);
    let b = version_parts(current);
    a[0] > b[0] || (a[0] == b[0] && a[1] > b[1]) || (a[0] == b[0] && a[1] == b[1] && a[2] > b[2])
}

/// No version is newer than itself.
pub proof fn lemma_newer_irreflexive(v: Seq<char>)
    ensures
        !spec_is_newer_version(v, v),
{
}

/// Of two versions, at most one is newer than the other.
pub proof fn lemma_newer_asymmetric(a: Seq<char>, b: Seq<char>)
    ensures
        spec_is_newer_version(a, b) ==> !spec_is_newer_version(b, a),
{
}

/// Being newer is transitive.
pub proof fn lemma_newer_transitive(a: Seq<char>, b: Seq<char>, c: Seq<char>)
    requires
        spec_is_newer_version(a, b),
        spec_is_newer_version(b, c),
    ensures
        spec_is_newer_version(a, c),
{
}

/// Two distinct part triples are ordered one way or the other.
pub proof fn lemma_newer_total(a: Seq<char>, b: Seq<char>)
    ensures
        spec_version_parts(a) != spec_version_parts(b) ==> spec_is_newer_version(a, b)
            || spec_is_newer_version(b, a),
{
    if !spec_is_newer_version(a, b) && !spec_is_newer_version(b, a) {
        assert(spec_version_parts(a) =~= spec_version_parts(b));
    }
}

} // verus!

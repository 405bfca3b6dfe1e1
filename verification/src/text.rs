//! Text helpers: the few `str` operations the library relies on, with their contracts,
//! and the character-level specifications that the parsers are stated over.

use vstd::prelude::*;

verus! {

/// `needle` occurs somewhere inside `hay` as a contiguous run.
pub open spec fn is_infix_of(needle: Seq<char>, hay: Seq<char>) -> bool {
    exists|i: int|
        0 <= i && i + needle.len() <= hay.len() && #[trigger] hay.subrange(i, i + needle.len())
            =~= needle
}

/// The lowercase form of a string, as `str::to_lowercase` computes it (Unicode rules).
pub uninterp spec fn lowercase(s: Seq<char>) -> Seq<char>;

/// The extension of a path, as `std::path::Path::extension` computes it.
pub uninterp spec fn path_extension_of(path: Seq<char>) -> Option<Seq<char>>;

/// The view of an optional string.
pub open spec fn opt_view(o: Option<String>) -> Option<Seq<char>> {
    match o {
        Some(s) => Some(s@),
        None => None,
    }
}

/// String slice equality: true exactly when the characters agree.
pub(crate) fn str_eq(a: &str, b: &str) -> (r: bool)
    ensures
        r == (a@ == b@),
{
    let va = str_chars(a);
    let vb = str_chars(b);
    if va.len() != vb.len() {
        return false;
    }
    let r = occurs_at(va.as_slice(), vb.as_slice(), 0);
    proof {
        assert(va@.subrange(0, vb@.len() as int) =~= va@);
    }
    r
}

/// Whether `prefix` begins `s`.
pub(crate) fn str_starts_with(s: &str, prefix: &str) -> (r: bool)
    ensures
        r == prefix@.is_prefix_of(s@),
{
    let vs = str_chars(s);
    let vp = str_chars(prefix);
    if vp.len() > vs.len() {
        return false;
    }
    occurs_at(vs.as_slice(), vp.as_slice(), 0)
}

/// Whether `suffix` ends `s`.
pub(crate) fn str_ends_with(s: &str, suffix: &str) -> (r: bool)
    ensures
        r == suffix@.is_suffix_of(s@),
{
    let vs = str_chars(s);
    let vp = str_chars(suffix);
    if vp.len() > vs.len() {
        return false;
    }
    occurs_at(vs.as_slice(), vp.as_slice(), vs.len() - vp.len())
}

/// Whether `needle` occurs somewhere in `s`.
pub(crate) fn str_contains(s: &str, needle: &str) -> (r: bool)
    ensures
        r == is_infix_of(needle@, s@),
{
    let vs = str_chars(s);
    let vp = str_chars(needle);
    let n = vs.len();
    let m = vp.len();
    if m > n {
        return false;
    }
    if m == 0 {
        proof {
            assert(s@.subrange(0, 0 + needle@.len() as int) =~= needle@);
        }
        return true;
    }
    let mut i: usize = 0;
    while i <= n - m
        invariant
            n == vs@.len(),
            m == vp@.len(),
            vs@ == s@,
            vp@ == needle@,
            0 < m <= n,
            i <= n - m + 1,
            forall|j: int| 0 <= j < i ==> !(#[trigger] s@.subrange(j, j + m) =~= needle@),
        decreases n - m + 1 - i,
    {
        if occurs_at(vs.as_slice(), vp.as_slice(), i) {
            proof {
                assert(s@.subrange(i as int, i + needle@.len()) =~= needle@);
            }
            return true;
        }
        i = i + 1;
    }
    false
}

/// Every character is ASCII.
pub open spec fn is_ascii_text(s: Seq<char>) -> bool {
    forall|i: int| 0 <= i < s.len() ==> (#[trigger] s[i] as u32) < 128
}

/// ASCII letters `A`-`Z` turned into `a`-`z`; every other character kept.
pub open spec fn ascii_lower(s: Seq<char>) -> Seq<char> {
    s.map_values(|c: char| if 'A' <= c && c <= 'Z' { ((c as u32) + 32) as char } else { c })
}

/// ASCII letters `a`-`z` turned into `A`-`Z`; every other character kept.
pub open spec fn ascii_upper(s: Seq<char>) -> Seq<char> {
    s.map_values(|c: char| if 'a' <= c && c <= 'z' { ((c as u32) - 32) as char } else { c })
}

/// Calls `str::to_lowercase`; the result is named `lowercase`. Its Unicode case mapping
/// is not restated here, except on ASCII text, where it maps `A`-`Z` to `a`-`z` and keeps
/// every other character.
#[verifier::external_body]
pub(crate) fn str_to_lowercase(s: &str) -> (r: String)
    ensures
        r@ == lowercase(s@),
        is_ascii_text(s@) ==> r@ == ascii_lower(s@),
{
    s.to_lowercase()
}

/// Calls `Path::extension` on `path`; the result is named `path_extension_of`.
/// The component splitting rules of `Path` are not restated here.
#[verifier::external_body]
pub(crate) fn path_extension(path: &str) -> (r: Option<String>)
    ensures
        opt_view(r) == path_extension_of(path@),
{
    std::path::Path::new(path).extension().and_then(|e| e.to_str()).map(|e| e.to_string())
}

/// Calls `str::chars` and collects: the characters of `s` in order.
#[verifier::external_body]
pub(crate) fn str_chars(s: &str) -> (v: Vec<char>)
    ensures
        v@ == s@,
{
    s.chars().collect()
}

/// Collects characters into a `String` (`FromIterator<char>`): the string of exactly `v`.
#[verifier::external_body]
pub(crate) fn string_from_chars(v: &[char]) -> (s: String)
    ensures
        s@ == v@,
{
    v.iter().collect()
}

/// An owned copy of a string slice.
pub(crate) fn str_to_string(s: &str) -> (r: String)
    ensures
        r@ == s@,
{
    s.to_owned()
}

/// Concatenation of two string slices into a new `String`.
pub(crate) fn str_concat(a: &str, b: &str) -> (r: String)
    ensures
        r@ == a@ + b@,
{
    let mut r = a.to_owned();
    r.append(b);
    r
}

/// The first position of `c` in `s`, if any.
pub open spec fn first_index_of(s: Seq<char>, c: char) -> Option<int>
    decreases s.len(),
{
    if s.len() == 0 {
        None
    } else if s[0] == c {
        Some(0)
    } else {
        match first_index_of(s.drop_first(), c) {
            Some(i) => Some(i + 1),
            None => None,
        }
    }
}

pub proof fn lemma_first_index_of(s: Seq<char>, c: char)
    ensures
        match first_index_of(s, c) {
            Some(i) => 0 <= i < s.len() && s[i] == c && forall|j: int| 0 <= j < i ==> s[j] != c,
            None => forall|j: int| 0 <= j < s.len() ==> s[j] != c,
        },
    decreases s.len(),
{
    if s.len() > 0 {
        lemma_first_index_of(s.drop_first(), c);
        if s[0] != c {
            assert forall|j: int| 1 <= j < s.len() implies s[j] == s.drop_first()[j - 1] by {}
        }
    }
}

/// Finds the first position of `c` in `v`.
pub fn find_char(v: &[char], c: char) -> (r: Option<usize>)
    ensures
        match r {
            Some(i) => i < v@.len() && Some(i as int) == first_index_of(v@, c),
            None => first_index_of(v@, c) is None,
        },
{
    proof {
        lemma_first_index_of(v@, c);
    }
    let mut i: usize = 0;
    while i < v.len()
        invariant
            i <= v.len(),
            forall|j: int| 0 <= j < i ==> v@[j] != c,
            match first_index_of(v@, c) {
                Some(k) => 0 <= k < v@.len() && v@[k] == c && forall|j: int|
                    0 <= j < k ==> v@[j] != c,
                None => forall|j: int| 0 <= j < v@.len() ==> v@[j] != c,
            },
        decreases v.len() - i,
    {
        if v[i] == c {
            return Some(i);
        }
        i = i + 1;
    }
    None
}

/// Copies `v[from..to]` into a new vector.
pub fn slice_chars(v: &[char], from: usize, to: usize) -> (r: Vec<char>)
    requires
        from <= to <= v.len(),
    ensures
        r@ == v@.subrange(from as int, to as int),
{
    let mut r: Vec<char> = Vec::new();
    let mut i = from;
    while i < to
        invariant
            from <= i <= to <= v.len(),
            r@ == v@.subrange(from as int, i as int),
        decreases to - i,
    {
        r.push(v[i]);
        i = i + 1;
    }
    r
}

/// The substring `s[from..to]` (by characters) as a new `String`.
pub fn substring(v: &[char], from: usize, to: usize) -> (r: String)
    requires
        from <= to <= v.len(),
    ensures
        r@ == v@.subrange(from as int, to as int),
{
    let piece = slice_chars(v, from, to);
    string_from_chars(piece.as_slice())
}

/// The last position of `c` in `s`, if any.
pub open spec fn last_index_of(s: Seq<char>, c: char) -> Option<int>
    decreases s.len(),
{
    if s.len() == 0 {
        None
    } else if s.last() == c {
        Some(s.len() - 1)
    } else {
        last_index_of(s.drop_last(), c)
    }
}

pub proof fn lemma_last_index_of(s: Seq<char>, c: char)
    ensures
        match last_index_of(s, c) {
            Some(i) => 0 <= i < s.len() && s[i] == c && forall|j: int| i < j < s.len() ==> s[j] != c,
            None => forall|j: int| 0 <= j < s.len() ==> s[j] != c,
        },
    decreases s.len(),
{
    if s.len() > 0 {
        lemma_last_index_of(s.drop_last(), c);
        assert forall|j: int| 0 <= j < s.len() - 1 implies s[j] == s.drop_last()[j] by {}
    }
}

/// Finds the last position of `c` in `v`.
pub fn rfind_char(v: &[char], c: char) -> (r: Option<usize>)
    ensures
        match r {
            Some(i) => i < v@.len() && Some(i as int) == last_index_of(v@, c),
            None => last_index_of(v@, c) is None,
        },
{
    proof {
        lemma_last_index_of(v@, c);
    }
    let mut i: usize = v.len();
    while i > 0
        invariant
            i <= v.len(),
            forall|j: int| i <= j < v@.len() ==> v@[j] != c,
            match last_index_of(v@, c) {
                Some(k) => 0 <= k < v@.len() && v@[k] == c && forall|j: int| k < j < v@.len() ==> v@[j] != c,
                None => forall|j: int| 0 <= j < v@.len() ==> v@[j] != c,
            },
        decreases i,
    {
        if v[i - 1] == c {
            return Some(i - 1);
        }
        i = i - 1;
    }
    None
}

/// The part of `s` before the first `c`, or all of `s` where there is none
/// (the first piece of `str::split`).
pub open spec fn before_first(s: Seq<char>, c: char) -> Seq<char> {
    match first_index_of(s, c) {
        Some(i) => s.take(i),
        None => s,
    }
}

/// The part of `s` after the last `c`, or all of `s` where there is none
/// (the last piece of `str::split`, the first of `str::rsplit`).
pub open spec fn after_last(s: Seq<char>, c: char) -> Seq<char> {
    match last_index_of(s, c) {
        Some(i) => s.skip(i + 1),
        None => s,
    }
}

/// The piece of `s` before the first `c`.
pub fn piece_before(s: &str, c: char) -> (r: String)
    ensures
        r@ == before_first(s@, c),
{
    let v = str_chars(s);
    match find_char(v.as_slice(), c) {
        Some(i) => substring(v.as_slice(), 0, i),
        None => str_to_string(s),
    }
}

/// The piece of `s` after the last `c`.
pub fn piece_after_last(s: &str, c: char) -> (r: String)
    ensures
        r@ == after_last(s@, c),
{
    let v = str_chars(s);
    let n = v.len();
    match rfind_char(v.as_slice(), c) {
        Some(i) => substring(v.as_slice(), i + 1, n),
        None => str_to_string(s),
    }
}

/// `a` sorts before `b` comparing from position `i` on: by code point, a proper prefix
/// first (the order of `Ord for str`, which compares UTF-8 bytes the same way).
pub open spec fn lt_from(a: Seq<char>, b: Seq<char>, i: int) -> bool
    decreases a.len() - i,
{
    if i < 0 || i >= a.len() {
        0 <= i < b.len()
    } else if i >= b.len() {
        false
    } else if a[i] != b[i] {
        (a[i] as u32) < (b[i] as u32)
    } else {
        lt_from(a, b, i + 1)
    }
}

/// `a` sorts strictly before `b`.
pub open spec fn chars_lt(a: Seq<char>, b: Seq<char>) -> bool {
    lt_from(a, b, 0)
}

/// The order is transitive.
pub proof fn lemma_lt_from_trans(a: Seq<char>, b: Seq<char>, c: Seq<char>, i: int)
    requires
        0 <= i,
        lt_from(a, b, i),
        lt_from(b, c, i),
    ensures
        lt_from(a, c, i),
    decreases a.len() - i,
{
    if i < a.len() && i < b.len() && i < c.len() && a[i] == b[i] && b[i] == c[i] {
        lemma_lt_from_trans(a, b, c, i + 1);
    }
}

/// The order is irreflexive and asymmetric.
pub proof fn lemma_lt_from_asym(a: Seq<char>, b: Seq<char>, i: int)
    requires
        0 <= i,
    ensures
        !(lt_from(a, b, i) && lt_from(b, a, i)),
        !lt_from(a, a, i),
    decreases a.len() - i,
{
    if i < a.len() && i < b.len() && a[i] == b[i] {
        lemma_lt_from_asym(a, b, i + 1);
    }
    if i < a.len() {
        lemma_lt_from_asym(a, a, i + 1);
    }
}

/// Whether `a` sorts strictly before `b`.
pub fn str_less(a: &str, b: &str) -> (r: bool)
    ensures
        r == chars_lt(a@, b@),
{
    let va = str_chars(a);
    let vb = str_chars(b);
    let mut i: usize = 0;
    while i < va.len() && i < vb.len()
        invariant
            va@ == a@,
            vb@ == b@,
            i <= va@.len(),
            i <= vb@.len(),
            lt_from(a@, b@, 0) == lt_from(a@, b@, i as int),
        decreases va.len() - i,
    {
        if va[i] != vb[i] {
            return (va[i] as u32) < (vb[i] as u32);
        }
        i = i + 1;
    }
    i < vb.len() && i >= va.len()
}

/// A whitespace character by the Unicode `White_Space` property.
pub open spec fn is_white_space(c: char) -> bool {
    ||| '\u{9}' <= c <= '\u{d}'
    ||| c == ' '
    ||| c == '\u{85}'
    ||| c == '\u{a0}'
    ||| c == '\u{1680}'
    ||| '\u{2000}' <= c <= '\u{200a}'
    ||| c == '\u{2028}'
    ||| c == '\u{2029}'
    ||| c == '\u{202f}'
    ||| c == '\u{205f}'
    ||| c == '\u{3000}'
}

/// The string with leading whitespace removed.
pub open spec fn trim_start(s: Seq<char>) -> Seq<char>
    decreases s.len(),
{
    if s.len() > 0 && is_white_space(s[0]) {
        trim_start(s.skip(1))
    } else {
        s
    }
}

/// The string with trailing whitespace removed.
pub open spec fn trim_end(s: Seq<char>) -> Seq<char>
    decreases s.len(),
{
    if s.len() > 0 && is_white_space(s.last()) {
        trim_end(s.drop_last())
    } else {
        s
    }
}

/// The string with leading and trailing whitespace removed, as `str::trim` computes it.
pub open spec fn trimmed(s: Seq<char>) -> Seq<char> {
    trim_end(trim_start(s))
}

/// Whitespace before text that does not start with whitespace is dropped from the front.
pub proof fn lemma_trim_start_after(lead: Seq<char>, x: Seq<char>)
    requires
        forall|i: int| 0 <= i < lead.len() ==> is_white_space(#[trigger] lead[i]),
        x.len() > 0,
        !is_white_space(x[0]),
    ensures
        trim_start(lead + x) == x,
    decreases lead.len(),
{
    if lead.len() == 0 {
        assert(lead + x =~= x);
    } else {
        let s = lead + x;
        assert(s[0] == lead[0]);
        assert(s.skip(1) =~= lead.skip(1) + x);
        assert forall|i: int| 0 <= i < lead.skip(1).len() implies is_white_space(#[trigger] lead.skip(1)[i]) by {
            assert(lead.skip(1)[i] == lead[i + 1]);
        }
        lemma_trim_start_after(lead.skip(1), x);
    }
}

/// Whitespace after text that does not end with whitespace is dropped from the back.
pub proof fn lemma_trim_end_before(x: Seq<char>, pad: Seq<char>)
    requires
        forall|i: int| 0 <= i < pad.len() ==> is_white_space(#[trigger] pad[i]),
        x.len() > 0,
        !is_white_space(x.last()),
    ensures
        trim_end(x + pad) == x,
    decreases pad.len(),
{
    if pad.len() == 0 {
        assert(x + pad =~= x);
    } else {
        let s = x + pad;
        assert(s.last() == pad.last());
        assert(s.drop_last() =~= x + pad.drop_last());
        assert forall|i: int| 0 <= i < pad.drop_last().len() implies is_white_space(#[trigger] pad.drop_last()[i]) by {
            assert(pad.drop_last()[i] == pad[i]);
        }
        lemma_trim_end_before(x, pad.drop_last());
    }
}

/// Calls `str::trim`: leading and trailing whitespace (Unicode `White_Space`) removed.
#[verifier::external_body]
pub(crate) fn str_trim(s: &str) -> (r: &str)
    ensures
        r@ == trimmed(s@),
{
    s.trim()
}

/// The final component of a path, as `std::path::Path::file_name` computes it (as text).
pub uninterp spec fn path_file_name_of(path: Seq<char>) -> Option<Seq<char>>;

/// Calls `Path::file_name` on `path`; the result is named `path_file_name_of`.
#[verifier::external_body]
pub(crate) fn path_file_name(path: &str) -> (r: Option<String>)
    ensures
        opt_view(r) == path_file_name_of(path@),
{
    std::path::Path::new(path).file_name().and_then(|n| n.to_str()).map(|n| n.to_string())
}

/// The characters of each string.
pub open spec fn views_of(v: Seq<String>) -> Seq<Seq<char>> {
    v.map_values(|x: String| x@)
}

/// The pieces of `s` between separators `c`, as `str::split` with a character gives them.
pub open spec fn split_on(s: Seq<char>, c: char) -> Seq<Seq<char>>
    decreases s.len(),
{
    match first_index_of(s, c) {
        None => seq![s],
        Some(i) => {
            proof {
                lemma_first_index_of(s, c);
            }
            seq![s.take(i)] + split_on(s.skip(i + 1), c)
        },
    }
}

/// The pieces `str::splitn(n, c)` gives: at most `n`, the last holding the rest.
pub open spec fn splitn_on(s: Seq<char>, c: char, n: nat) -> Seq<Seq<char>>
    decreases s.len(),
{
    if n <= 1 {
        seq![s]
    } else {
        match first_index_of(s, c) {
            None => seq![s],
            Some(i) => {
                proof {
                    lemma_first_index_of(s, c);
                }
                seq![s.take(i)] + splitn_on(s.skip(i + 1), c, (n - 1) as nat)
            },
        }
    }
}

/// Splits `s` at each `c` (`str::split` with a character).
pub fn split_str(s: &str, c: char) -> (r: Vec<String>)
    ensures
        views_of(r@) == split_on(s@, c),
{
    splitn_str(s, c, 0)
}

/// Splits `s` at each `c`, into at most `n` pieces where `n > 0` (`str::splitn`), into all
/// pieces where `n == 0`.
pub fn splitn_str(s: &str, c: char, n: usize) -> (r: Vec<String>)
    ensures
        n == 0 ==> views_of(r@) == split_on(s@, c),
        n > 0 ==> views_of(r@) == splitn_on(s@, c, n as nat),
{
    let mut rest = str_chars(s);
    let mut out: Vec<String> = Vec::new();
    let mut left: usize = n;
    loop
        invariant_except_break
            n == 0 ==> left == 0 && views_of(out@) + split_on(rest@, c) == split_on(s@, c),
            n > 0 ==> left > 0 && views_of(out@) + splitn_on(rest@, c, left as nat) == splitn_on(s@, c, n as nat),
        ensures
            n == 0 ==> views_of(out@) == split_on(s@, c),
            n > 0 ==> views_of(out@) == splitn_on(s@, c, n as nat),
        decreases rest@.len(),
    {
        let ghost before = out@;
        let ghost r0 = rest@;
        if left == 1 {
            let last = string_from_chars(rest.as_slice());
            out.push(last);
            proof {
                assert(views_of(out@) =~= views_of(before).push(r0));
                assert(views_of(out@) =~= views_of(before) + seq![r0]);
            }
            break;
        }
        match find_char(rest.as_slice(), c) {
            None => {
                let last = string_from_chars(rest.as_slice());
                out.push(last);
                proof {
                    assert(views_of(out@) =~= views_of(before) + seq![r0]);
                }
                break;
            },
            Some(i) => {
                let rn = rest.len();
                let piece = substring(rest.as_slice(), 0, i);
                let next = slice_chars(rest.as_slice(), i + 1, rn);
                out.push(piece);
                rest = next;
                proof {
                    assert(rest@ =~= r0.skip(i + 1));
                    assert(piece@ =~= r0.take(i as int));
                    assert(views_of(out@) =~= views_of(before).push(r0.take(i as int)));
                    if n == 0 {
                        assert(split_on(r0, c) == seq![r0.take(i as int)] + split_on(rest@, c));
                        assert(views_of(out@) + split_on(rest@, c) =~= views_of(before) + split_on(r0, c));
                    } else {
                        assert(splitn_on(r0, c, left as nat) == seq![r0.take(i as int)] + splitn_on(rest@, c, (left - 1) as nat));
                        assert(views_of(out@) + splitn_on(rest@, c, (left - 1) as nat) =~= views_of(before) + splitn_on(r0, c, left as nat));
                    }
                }
                if left > 0 {
                    left = left - 1;
                }
            },
        }
    }
    out
}

/// The pieces joined with `sep` between them (`[String]::join`).
pub open spec fn join_with(parts: Seq<Seq<char>>, sep: Seq<char>) -> Seq<char>
    decreases parts.len(),
{
    if parts.len() == 0 {
        Seq::empty()
    } else if parts.len() == 1 {
        parts[0]
    } else {
        join_with(parts.drop_last(), sep) + sep + parts.last()
    }
}

/// Joins `parts[from..]` with `sep` between them.
pub fn join_from(parts: &Vec<String>, from: usize, sep: &str) -> (r: String)
    requires
        from <= parts@.len(),
    ensures
        r@ == join_with(views_of(parts@).skip(from as int), sep@),
{
    let mut acc = str_to_string("");
    let mut i: usize = from;
    proof {
        reveal_strlit("");
        assert(views_of(parts@).subrange(from as int, from as int) =~= Seq::<Seq<char>>::empty());
    }
    while i < parts.len()
        invariant
            from <= i <= parts@.len(),
            acc@ == join_with(views_of(parts@).subrange(from as int, i as int), sep@),
        decreases parts.len() - i,
    {
        let ghost a0 = acc@;
        if i == from {
            acc = str_to_string(parts[i].as_str());
        } else {
            let t = str_concat(acc.as_str(), sep);
            acc = str_concat(t.as_str(), parts[i].as_str());
        }
        proof {
            let w = views_of(parts@).subrange(from as int, i + 1);
            assert(w.drop_last() =~= views_of(parts@).subrange(from as int, i as int));
            assert(w.last() == parts@[i as int]@);
        }
        i = i + 1;
    }
    proof {
        assert(views_of(parts@).subrange(from as int, parts@.len() as int) =~= views_of(parts@).skip(from as int));
    }
    acc
}

/// `s` with `p` removed from its front as often as it occurs there
/// (`str::trim_start_matches` with a string pattern).
pub open spec fn strip_all(s: Seq<char>, p: Seq<char>) -> Seq<char>
    decreases s.len(),
{
    if p.len() > 0 && p.is_prefix_of(s) {
        strip_all(s.skip(p.len() as int), p)
    } else {
        s
    }
}

/// Removes every leading repetition of `p` from `s`.
pub fn trim_start_matches(s: &str, p: &str) -> (r: String)
    ensures
        r@ == strip_all(s@, p@),
{
    let pv = str_chars(p);
    let mut cur = str_to_string(s);
    if pv.len() == 0 {
        return cur;
    }
    while str_starts_with(cur.as_str(), p)
        invariant
            pv@ == p@,
            pv@.len() > 0,
            strip_all(cur@, p@) == strip_all(s@, p@),
        decreases cur@.len(),
    {
        let cv = str_chars(cur.as_str());
        let next = substring(cv.as_slice(), pv.len(), cv.len());
        proof {
            assert(next@ =~= cur@.skip(p@.len() as int));
        }
        cur = next;
    }
    cur
}

/// The first position from `i` on where `pat` occurs in `s`.
pub open spec fn occurrence_from(s: Seq<char>, pat: Seq<char>, i: int) -> Option<int>
    decreases s.len() + 1 - i,
{
    if i < 0 || i + pat.len() > s.len() {
        None
    } else if s.subrange(i, i + pat.len()) == pat {
        Some(i)
    } else {
        occurrence_from(s, pat, i + 1)
    }
}

pub proof fn lemma_occurrence_from(s: Seq<char>, pat: Seq<char>, i: int)
    ensures
        match occurrence_from(s, pat, i) {
            Some(k) => 0 <= i <= k && k + pat.len() <= s.len() && s.subrange(k, k + pat.len()) == pat,
            None => true,
        },
    decreases s.len() + 1 - i,
{
    if 0 <= i && i + pat.len() <= s.len() && s.subrange(i, i + pat.len()) != pat {
        lemma_occurrence_from(s, pat, i + 1);
    }
}

/// The pieces of `s` between occurrences of the non-empty `pat` (`str::split` with a
/// string pattern).
pub open spec fn split_by(s: Seq<char>, pat: Seq<char>) -> Seq<Seq<char>>
    decreases s.len(),
{
    if pat.len() == 0 {
        seq![s]
    } else {
        match occurrence_from(s, pat, 0) {
            None => seq![s],
            Some(i) => {
                proof {
                    lemma_occurrence_from(s, pat, 0);
                }
                seq![s.take(i)] + split_by(s.skip(i + pat.len()), pat)
            },
        }
    }
}

/// Whether `pat` occurs in `v` at `i`.
fn occurs_at(v: &[char], pat: &[char], i: usize) -> (r: bool)
    requires
        i + pat@.len() <= v@.len(),
    ensures
        r == (v@.subrange(i as int, i + pat@.len()) == pat@),
{
    let vn = v.len();
    let mut k: usize = 0;
    while k < pat.len()
        invariant
            vn == v@.len(),
            k <= pat@.len(),
            i + pat@.len() <= v@.len(),
            forall|j: int| 0 <= j < k ==> v@[i + j] == pat@[j],
        decreases pat.len() - k,
    {
        if v[i + k] != pat[k] {
            proof {
                assert(v@.subrange(i as int, i + pat@.len())[k as int] != pat@[k as int]);
            }
            return false;
        }
        k = k + 1;
    }
    proof {
        assert(v@.subrange(i as int, i + pat@.len()) =~= pat@);
    }
    true
}

/// The first position where `pat` occurs in `v`.
fn find_pattern(v: &[char], pat: &[char]) -> (r: Option<usize>)
    requires
        pat@.len() > 0,
    ensures
        match r {
            Some(i) => occurrence_from(v@, pat@, 0) == Some(i as int) && i + pat@.len() <= v@.len(),
            None => occurrence_from(v@, pat@, 0) is None,
        },
{
    let n = v.len();
    let m = pat.len();
    if m > n {
        return None;
    }
    let mut i: usize = 0;
    while i <= n - m
        invariant
            n == v@.len(),
            m == pat@.len(),
            0 < m <= n,
            i <= n,
            occurrence_from(v@, pat@, 0) == occurrence_from(v@, pat@, i as int),
        decreases n - i,
    {
        if occurs_at(v, pat, i) {
            return Some(i);
        }
        i = i + 1;
    }
    None
}

/// Splits `s` at each occurrence of the non-empty `pat`.
pub fn split_by_str(s: &str, pat: &str) -> (r: Vec<String>)
    requires
        pat@.len() > 0,
    ensures
        views_of(r@) == split_by(s@, pat@),
{
    let pv = str_chars(pat);
    let mut rest = str_chars(s);
    let mut out: Vec<String> = Vec::new();
    loop
        invariant_except_break
            pv@ == pat@,
            pat@.len() > 0,
            views_of(out@) + split_by(rest@, pat@) == split_by(s@, pat@),
        ensures
            views_of(out@) == split_by(s@, pat@),
        decreases rest@.len(),
    {
        let ghost before = out@;
        let ghost r0 = rest@;
        match find_pattern(rest.as_slice(), pv.as_slice()) {
            None => {
                let last = string_from_chars(rest.as_slice());
                out.push(last);
                proof {
                    assert(views_of(out@) =~= views_of(before) + seq![r0]);
                }
                break;
            },
            Some(i) => {
                let rn = rest.len();
                let piece = substring(rest.as_slice(), 0, i);
                let next = slice_chars(rest.as_slice(), i + pv.len(), rn);
                out.push(piece);
                rest = next;
                proof {
                    assert(rest@ =~= r0.skip(i + pat@.len()));
                    assert(split_by(r0, pat@) == seq![r0.take(i as int)] + split_by(rest@, pat@));
                    assert(views_of(out@) =~= views_of(before).push(r0.take(i as int)));
                    assert(views_of(out@) + split_by(rest@, pat@) =~= views_of(before) + split_by(r0, pat@));
                }
            },
        }
    }
    out
}

} // verus!

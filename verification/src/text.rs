//! Character and string primitives shared by the directive scanner and the
//! entity models: character classes, prefix tests, substring search, trimming,
//! splitting into lines, and joining.

use vstd::prelude::*;
use vstd::string::*;

verus! {

// ---------------------------------------------------------------------------
// character classes
// ---------------------------------------------------------------------------

/// The whitespace characters that trimming removes.
pub open spec fn is_space_char(c: char) -> bool {
    c == ' ' || c == '\t' || c == '\n' || c == '\r' || c == '\u{b}' || c == '\u{c}'
}

pub fn space_char(c: char) -> (r: bool)
    ensures
        r == is_space_char(c),
{
    c == ' ' || c == '\t' || c == '\n' || c == '\r' || c == '\u{b}' || c == '\u{c}'
}

/// Identifier characters: ASCII letters, digits and underscore.
pub open spec fn is_word_char(c: char) -> bool {
    ('a' as u32 <= c as u32 && c as u32 <= 'z' as u32) || ('A' as u32 <= c as u32 && c as u32
        <= 'Z' as u32) || ('0' as u32 <= c as u32 && c as u32 <= '9' as u32) || c == '_'
}

pub fn word_char(c: char) -> (r: bool)
    ensures
        r == is_word_char(c),
{
    let u = c as u32;
    ('a' as u32 <= u && u <= 'z' as u32) || ('A' as u32 <= u && u <= 'Z' as u32) || ('0' as u32 <= u
        && u <= '9' as u32) || c == '_'
}

pub open spec fn is_digit_char(c: char) -> bool {
    '0' as u32 <= c as u32 && c as u32 <= '9' as u32
}

pub fn digit_char(c: char) -> (r: bool)
    ensures
        r == is_digit_char(c),
{
    let u = c as u32;
    '0' as u32 <= u && u <= '9' as u32
}

// ---------------------------------------------------------------------------
// prefix test and string equality
// ---------------------------------------------------------------------------

/// `p` is an initial segment of `s`.
pub open spec fn has_prefix(s: Seq<char>, p: Seq<char>) -> bool {
    p.len() <= s.len() && s.take(p.len() as int) == p
}

pub fn starts_with_str(s: &str, p: &str) -> (r: bool)
    ensures
        r == has_prefix(s@, p@),
{
    let n = p.unicode_len();
    if n > s.unicode_len() {
        return false;
    }
    let mut i: usize = 0;
    while i < n
        invariant
            i <= n,
            n == p@.len(),
            n <= s@.len(),
            forall|j: int| 0 <= j < i ==> s@[j] == p@[j],
        decreases n - i,
    {
        if s.get_char(i) != p.get_char(i) {
            proof {
                assert(s@.take(n as int)[i as int] != p@[i as int]);
            }
            return false;
        }
        i += 1;
    }
    proof {
        assert(s@.take(n as int) =~= p@);
    }
    true
}

pub fn str_eq(a: &str, b: &str) -> (r: bool)
    ensures
        r == (a@ == b@),
{
    if a.unicode_len() != b.unicode_len() {
        return false;
    }
    let r = starts_with_str(a, b);
    proof {
        assert(a@.take(b@.len() as int) =~= a@);
    }
    r
}

/// The code point of `c`, with ASCII capitals folded to lower case.
pub open spec fn fold_case(c: char) -> int {
    if 'A' as u32 <= c as u32 && c as u32 <= 'Z' as u32 {
        c as u32 + 32
    } else {
        c as int
    }
}

/// Equality up to ASCII case.
pub open spec fn eq_ignore_case(a: Seq<char>, b: Seq<char>) -> bool {
    a.len() == b.len() && forall|i: int| 0 <= i < a.len() ==> fold_case(a[i]) == fold_case(b[i])
}

pub fn str_eq_ignore_case(a: &str, b: &str) -> (r: bool)
    ensures
        r == eq_ignore_case(a@, b@),
{
    let n = a.unicode_len();
    if n != b.unicode_len() {
        return false;
    }
    let mut i: usize = 0;
    while i < n
        invariant
            i <= n,
            n == a@.len(),
            n == b@.len(),
            forall|j: int| 0 <= j < i ==> fold_case(a@[j]) == fold_case(b@[j]),
        decreases n - i,
    {
        let ca = a.get_char(i) as u32;
        let cb = b.get_char(i) as u32;
        let fa = if 'A' as u32 <= ca && ca <= 'Z' as u32 {
            ca + 32
        } else {
            ca
        };
        let fb = if 'A' as u32 <= cb && cb <= 'Z' as u32 {
            cb + 32
        } else {
            cb
        };
        if fa != fb {
            return false;
        }
        i += 1;
    }
    true
}

// ---------------------------------------------------------------------------
// substring search
// ---------------------------------------------------------------------------

/// `p` occurs in `s` at position `i`.
pub open spec fn has_at(s: Seq<char>, p: Seq<char>, i: int) -> bool {
    0 <= i && i + p.len() <= s.len() && s.subrange(i, i + p.len() as int) == p
}

/// Does `p` occur at position `i` of `s`?  Total: out-of-range positions answer no.
pub fn match_at(s: &str, p: &str, i: usize) -> (r: bool)
    ensures
        r == has_at(s@, p@, i as int),
{
    let n = s.unicode_len();
    let m = p.unicode_len();
    if i > n || m > n - i {
        return false;
    }
    let mut k: usize = 0;
    while k < m
        invariant
            k <= m,
            m == p@.len(),
            n == s@.len(),
            i + m <= n,
            forall|j: int| 0 <= j < k ==> s@[i + j] == p@[j],
        decreases m - k,
    {
        if s.get_char(i + k) != p.get_char(k) {
            proof {
                assert(s@.subrange(i as int, i + m as int)[k as int] != p@[k as int]);
            }
            return false;
        }
        k += 1;
    }
    proof {
        assert(s@.subrange(i as int, i + m as int) =~= p@);
    }
    true
}

/// First occurrence of `p` in `s` at a position `>= from`.
pub fn find_from(s: &str, p: &str, from: usize) -> (r: Option<usize>)
    requires
        p@.len() >= 1,
    ensures
        match r {
            Some(i) => from <= i && has_at(s@, p@, i as int) && forall|k: int|
                from <= k < i ==> !has_at(s@, p@, k),
            None => forall|k: int| from <= k ==> !has_at(s@, p@, k),
        },
{
    let n = s.unicode_len();
    if from > n {
        return None;
    }
    let mut i: usize = from;
    while i < n
        invariant
            from <= i <= n,
            n == s@.len(),
            p@.len() >= 1,
            forall|k: int| from <= k < i ==> !has_at(s@, p@, k),
        decreases n - i,
    {
        if match_at(s, p, i) {
            return Some(i);
        }
        i += 1;
    }
    return None;
}

/// First position `>= from` holding character `c`; the length of `s` when none does.
pub fn find_char_from(s: &str, c: char, from: usize) -> (r: usize)
    requires
        from <= s@.len(),
    ensures
        from <= r <= s@.len(),
        forall|k: int| from <= k < r ==> s@[k] != c,
        r < s@.len() ==> s@[r as int] == c,
{
    let n = s.unicode_len();
    let mut i: usize = from;
    while i < n
        invariant
            from <= i <= n,
            n == s@.len(),
            forall|k: int| from <= k < i ==> s@[k] != c,
        decreases n - i,
    {
        if s.get_char(i) == c {
            return i;
        }
        i += 1;
    }
    i
}

// ---------------------------------------------------------------------------
// first occurrences
// ---------------------------------------------------------------------------

/// Position of the first occurrence of `p` in `s`, or -1 when there is none.
pub open spec fn first_occ(s: Seq<char>, p: Seq<char>) -> int
    decreases s.len(),
{
    if s.len() < p.len() {
        -1
    } else if has_at(s, p, 0) {
        0
    } else if s.len() == 0 {
        -1
    } else {
        let r = first_occ(s.drop_first(), p);
        if r < 0 {
            -1
        } else {
            1 + r
        }
    }
}

pub proof fn lemma_has_at_shift(s: Seq<char>, p: Seq<char>, d: int, k: int)
    requires
        0 <= d <= s.len(),
        0 <= k,
    ensures
        has_at(s.skip(d), p, k) == has_at(s, p, d + k),
{
    if 0 <= k && k + p.len() <= s.len() - d {
        assert(s.skip(d).subrange(k, k + p.len() as int) =~= s.subrange(
            d + k,
            d + k + p.len() as int,
        ));
    }
}

pub proof fn lemma_first_occ_at(s: Seq<char>, p: Seq<char>, i: int)
    requires
        has_at(s, p, i),
        forall|k: int| 0 <= k < i ==> !has_at(s, p, k),
    ensures
        first_occ(s, p) == i,
    decreases i,
{
    if i == 0 {
    } else {
        assert(s.len() >= p.len());
        lemma_has_at_shift(s, p, 1, i - 1);
        assert(s.skip(1) =~= s.drop_first());
        assert forall|k: int| 0 <= k < i - 1 implies !has_at(s.drop_first(), p, k) by {
            lemma_has_at_shift(s, p, 1, k);
        }
        lemma_first_occ_at(s.drop_first(), p, i - 1);
    }
}

pub proof fn lemma_first_occ_none(s: Seq<char>, p: Seq<char>)
    requires
        forall|k: int| !has_at(s, p, k),
    ensures
        first_occ(s, p) == -1,
    decreases s.len(),
{
    if s.len() >= p.len() && s.len() > 0 {
        assert forall|k: int| !has_at(s.drop_first(), p, k) by {
            if 0 <= k {
                lemma_has_at_shift(s, p, 1, k);
                assert(s.skip(1) =~= s.drop_first());
            }
        }
        lemma_first_occ_none(s.drop_first(), p);
    }
}

pub proof fn lemma_first_occ_bounds(s: Seq<char>, p: Seq<char>)
    ensures
        first_occ(s, p) >= 0 ==> has_at(s, p, first_occ(s, p)),
        first_occ(s, p) >= 0 ==> first_occ(s, p) + p.len() <= s.len(),
    decreases s.len(),
{
    if s.len() >= p.len() && !has_at(s, p, 0) && s.len() > 0 {
        lemma_first_occ_bounds(s.drop_first(), p);
        if first_occ(s.drop_first(), p) >= 0 {
            lemma_has_at_shift(s, p, 1, first_occ(s.drop_first(), p));
            assert(s.skip(1) =~= s.drop_first());
        }
    }
}

/// Position of the first `c` in `s`, or -1 when there is none.
pub open spec fn first_char(s: Seq<char>, c: char) -> int
    decreases s.len(),
{
    if s.len() == 0 {
        -1
    } else if s[0] == c {
        0
    } else {
        let r = first_char(s.drop_first(), c);
        if r < 0 {
            -1
        } else {
            1 + r
        }
    }
}

pub proof fn lemma_first_char_at(s: Seq<char>, c: char, i: int)
    requires
        0 <= i <= s.len(),
        forall|k: int| 0 <= k < i ==> s[k] != c,
        i < s.len() ==> s[i] == c,
        i == s.len() ==> forall|k: int| 0 <= k < s.len() ==> s[k] != c,
    ensures
        i < s.len() ==> first_char(s, c) == i,
        i == s.len() ==> first_char(s, c) == -1,
    decreases i + 1,
{
    if s.len() == 0 {
    } else if i == 0 {
    } else {
        lemma_first_char_at(s.drop_first(), c, i - 1);
    }
}

// ---------------------------------------------------------------------------
// replacement
// ---------------------------------------------------------------------------

/// Every occurrence of `pat` replaced by `rep`, scanning left to right and
/// never rescanning replaced text.  An empty pattern leaves `s` unchanged.
pub open spec fn replace_all(s: Seq<char>, pat: Seq<char>, rep: Seq<char>) -> Seq<char>
    decreases s.len(),
    via replace_all_decreases
{
    if pat.len() == 0 {
        s
    } else {
        let i = first_occ(s, pat);
        if i < 0 {
            s
        } else {
            s.take(i) + rep + replace_all(s.skip(i + pat.len()), pat, rep)
        }
    }
}

#[via_fn]
proof fn replace_all_decreases(s: Seq<char>, pat: Seq<char>, rep: Seq<char>) {
    if pat.len() != 0 {
        lemma_first_occ_bounds(s, pat);
    }
}

pub fn replace(s: &str, pat: &str, rep: &str) -> (r: String)
    requires
        pat@.len() >= 1,
    ensures
        r@ == replace_all(s@, pat@, rep@),
{
    let n = s.unicode_len();
    let mut out = String::new();
    let mut pos: usize = 0;
    proof {
        assert(s@.skip(0) =~= s@);
        assert(Seq::<char>::empty() + replace_all(s@, pat@, rep@) =~= replace_all(s@, pat@, rep@));
    }
    while pos < n
        invariant
            pos <= n,
            n == s@.len(),
            pat@.len() >= 1,
            replace_all(s@, pat@, rep@) == out@ + replace_all(s@.skip(pos as int), pat@, rep@),
        decreases n - pos,
    {
        let found = find_from(s, pat, pos);
        match found {
            Some(i) => {
                proof {
                    assert forall|k: int| 0 <= k < i - pos implies !has_at(
                        s@.skip(pos as int),
                        pat@,
                        k,
                    ) by {
                        lemma_has_at_shift(s@, pat@, pos as int, k);
                    }
                    lemma_has_at_shift(s@, pat@, pos as int, i - pos);
                    lemma_first_occ_at(s@.skip(pos as int), pat@, i - pos);
                }
                let piece = s.substring_char(pos, i);
                out.append(piece);
                out.append(rep);
                proof {
                    assert(s@.skip(pos as int).take(i - pos) =~= s@.subrange(pos as int, i as int));
                    assert(s@.skip(pos as int).skip(i - pos + pat@.len() as int) =~= s@.skip(
                        i + pat@.len(),
                    ));
                }
                pos = i + pat.unicode_len();
            },
            None => {
                proof {
                    assert forall|k: int| !has_at(s@.skip(pos as int), pat@, k) by {
                        if 0 <= k {
                            lemma_has_at_shift(s@, pat@, pos as int, k);
                        }
                    }
                    lemma_first_occ_none(s@.skip(pos as int), pat@);
                }
                let piece = s.substring_char(pos, n);
                out.append(piece);
                proof {
                    assert(s@.skip(pos as int) =~= s@.subrange(pos as int, n as int));
                }
                pos = n;
            },
        }
    }
    proof {
        assert(s@.skip(pos as int) =~= Seq::<char>::empty());
        assert(replace_all(Seq::<char>::empty(), pat@, rep@) == Seq::<char>::empty());
        assert(out@ + Seq::<char>::empty() =~= out@);
    }
    out
}

// ---------------------------------------------------------------------------
// splitting
// ---------------------------------------------------------------------------

pub proof fn lemma_first_char_bounds(s: Seq<char>, c: char)
    ensures
        -1 <= first_char(s, c) < s.len(),
        first_char(s, c) >= 0 ==> s[first_char(s, c)] == c,
        first_char(s, c) >= 0 ==> forall|k: int| 0 <= k < first_char(s, c) ==> s[k] != c,
        first_char(s, c) == -1 ==> forall|k: int| 0 <= k < s.len() ==> s[k] != c,
    decreases s.len(),
{
    if s.len() > 0 && s[0] != c {
        lemma_first_char_bounds(s.drop_first(), c);
        if first_char(s.drop_first(), c) >= 0 {
            assert forall|k: int| 0 <= k < first_char(s, c) implies s[k] != c by {
                if k > 0 {
                    assert(s.drop_first()[k - 1] == s[k]);
                }
            }
        } else {
            assert forall|k: int| 0 <= k < s.len() implies s[k] != c by {
                if k > 0 {
                    assert(s.drop_first()[k - 1] == s[k]);
                }
            }
        }
    }
}

/// The segments of `s` between occurrences of `c`; always at least one
/// segment, and empty segments are kept.
pub open spec fn split_char_spec(s: Seq<char>, c: char) -> Seq<Seq<char>>
    decreases s.len(),
    via split_char_spec_decreases
{
    let i = first_char(s, c);
    if i < 0 {
        seq![s]
    } else {
        seq![s.take(i)] + split_char_spec(s.skip(i + 1), c)
    }
}

#[via_fn]
proof fn split_char_spec_decreases(s: Seq<char>, c: char) {
    lemma_first_char_bounds(s, c);
}

/// Split on every occurrence of `c`, keeping empty segments.
pub fn split_on_char(s: &str, c: char) -> (r: Vec<String>)
    ensures
        r@.len() == split_char_spec(s@, c).len(),
        forall|i: int| 0 <= i < r@.len() ==> r@[i]@ == split_char_spec(s@, c)[i],
{
    let n = s.unicode_len();
    let mut out: Vec<String> = Vec::new();
    let mut pos: usize = 0;
    proof {
        assert(s@.skip(0) =~= s@);
        assert(out@.map_values(|x: String| x@) =~= Seq::<Seq<char>>::empty());
        assert(Seq::<Seq<char>>::empty() + split_char_spec(s@, c) =~= split_char_spec(s@, c));
    }
    loop
        invariant
            pos <= n,
            n == s@.len(),
            split_char_spec(s@, c) == out@.map_values(|x: String| x@) + split_char_spec(
                s@.skip(pos as int),
                c,
            ),
        decreases n - pos,
    {
        let ghost rest = s@.skip(pos as int);
        let ghost prev = out@.map_values(|x: String| x@);
        let k = find_char_from(s, c, pos);
        proof {
            lemma_first_char_at(rest, c, k - pos);
        }
        if k < n {
            let piece = s.substring_char(pos, k).to_owned();
            out.push(piece);
            proof {
                assert(rest.take(k - pos) =~= s@.subrange(pos as int, k as int));
                assert(rest.skip(k - pos + 1) =~= s@.skip(k + 1));
                assert(out@.map_values(|x: String| x@) =~= prev + seq![rest.take(k - pos)]);
                assert(prev + (seq![rest.take(k - pos)] + split_char_spec(s@.skip(k + 1), c)) =~= (
                prev + seq![rest.take(k - pos)]) + split_char_spec(s@.skip(k + 1), c));
            }
            pos = k + 1;
        } else {
            let piece = s.substring_char(pos, n).to_owned();
            out.push(piece);
            proof {
                assert(rest =~= s@.subrange(pos as int, n as int));
                assert(split_char_spec(rest, c) =~= seq![rest]);
                assert(out@.map_values(|x: String| x@) =~= prev + seq![rest]);
                assert(split_char_spec(s@, c) =~= out@.map_values(|x: String| x@));
            }
            return out;
        }
    }
}

/// The lines of `s`: split at each newline, a carriage return directly before
/// a newline removed, and no final empty line when `s` ends with a newline.
pub open spec fn lines_of(s: Seq<char>) -> Seq<Seq<char>>
    decreases s.len(),
    via lines_of_decreases
{
    if s.len() == 0 {
        Seq::empty()
    } else {
        let i = first_char(s, '\n');
        if i < 0 {
            seq![s]
        } else {
            let head = if i > 0 && s[i - 1] == '\r' {
                s.take(i - 1)
            } else {
                s.take(i)
            };
            seq![head] + lines_of(s.skip(i + 1))
        }
    }
}

#[via_fn]
proof fn lines_of_decreases(s: Seq<char>) {
    lemma_first_char_bounds(s, '\n');
}

pub fn split_lines(s: &str) -> (r: Vec<String>)
    ensures
        r@.len() == lines_of(s@).len(),
        forall|i: int| 0 <= i < r@.len() ==> r@[i]@ == lines_of(s@)[i],
{
    let n = s.unicode_len();
    let mut out: Vec<String> = Vec::new();
    let mut pos: usize = 0;
    proof {
        assert(s@.skip(0) =~= s@);
        assert(out@.map_values(|x: String| x@) =~= Seq::<Seq<char>>::empty());
        assert(Seq::<Seq<char>>::empty() + lines_of(s@) =~= lines_of(s@));
    }
    while pos < n
        invariant
            pos <= n,
            n == s@.len(),
            lines_of(s@) == out@.map_values(|x: String| x@) + lines_of(s@.skip(pos as int)),
        decreases n - pos,
    {
        let ghost rest = s@.skip(pos as int);
        let ghost prev = out@.map_values(|x: String| x@);
        let i = find_char_from(s, '\n', pos);
        proof {
            assert(forall|k: int| 0 <= k < i - pos ==> rest[k] != '\n');
            lemma_first_char_at(rest, '\n', i - pos);
        }
        if i < n {
            let end = if i > pos && s.get_char(i - 1) == '\r' {
                i - 1
            } else {
                i
            };
            let piece = s.substring_char(pos, end).to_owned();
            out.push(piece);
            proof {
                let ghost ip = i - pos;
                let head = if ip > 0 && rest[ip - 1] == '\r' {
                    rest.take(ip - 1)
                } else {
                    rest.take(ip)
                };
                assert(head =~= s@.subrange(pos as int, end as int));
                assert(rest.skip(ip + 1) =~= s@.skip(i + 1));
                assert(out@.map_values(|x: String| x@) =~= prev + seq![head]);
                assert(prev + (seq![head] + lines_of(s@.skip(i + 1))) =~= (prev + seq![head])
                    + lines_of(s@.skip(i + 1)));
            }
            pos = i + 1;
        } else {
            let piece = s.substring_char(pos, n).to_owned();
            out.push(piece);
            proof {
                assert(rest =~= s@.subrange(pos as int, n as int));
                assert(lines_of(rest) =~= seq![rest]);
                assert(out@.map_values(|x: String| x@) =~= prev + seq![rest]);
                assert(s@.skip(n as int) =~= Seq::<char>::empty());
                assert(prev + seq![rest] =~= (prev + seq![rest]) + lines_of(s@.skip(n as int)));
            }
            pos = n;
        }
    }
    proof {
        assert(s@.skip(pos as int) =~= Seq::<char>::empty());
        assert(out@.map_values(|x: String| x@) + lines_of(Seq::<char>::empty())
            =~= out@.map_values(|x: String| x@));
    }
    out
}

// ---------------------------------------------------------------------------
// digit runs
// ---------------------------------------------------------------------------

/// First position at or after `i` that does not hold an ASCII digit.
pub open spec fn digits_end(s: Seq<char>, i: int) -> int
    decreases s.len() - i,
{
    if 0 <= i < s.len() && is_digit_char(s[i]) {
        digits_end(s, i + 1)
    } else {
        i
    }
}

pub proof fn lemma_digits_end_bounds(s: Seq<char>, i: int)
    requires
        0 <= i <= s.len(),
    ensures
        i <= digits_end(s, i) <= s.len(),
        forall|k: int| i <= k < digits_end(s, i) ==> is_digit_char(s[k]),
        digits_end(s, i) < s.len() ==> !is_digit_char(s[digits_end(s, i)]),
    decreases s.len() - i,
{
    if 0 <= i < s.len() && is_digit_char(s[i]) {
        lemma_digits_end_bounds(s, i + 1);
    }
}

pub fn scan_digits(s: &str, from: usize) -> (r: usize)
    requires
        from <= s@.len(),
    ensures
        r == digits_end(s@, from as int),
{
    let n = s.unicode_len();
    let mut i: usize = from;
    while i < n && digit_char(s.get_char(i))
        invariant
            from <= i <= n,
            n == s@.len(),
            digits_end(s@, from as int) == digits_end(s@, i as int),
        decreases n - i,
    {
        i += 1;
    }
    i
}

/// First position at or after `i` that does not hold an identifier character.
pub open spec fn word_end(s: Seq<char>, i: int) -> int
    decreases s.len() - i,
{
    if 0 <= i < s.len() && is_word_char(s[i]) {
        word_end(s, i + 1)
    } else {
        i
    }
}

pub proof fn lemma_word_end_bounds(s: Seq<char>, i: int)
    requires
        0 <= i <= s.len(),
    ensures
        i <= word_end(s, i) <= s.len(),
        forall|k: int| i <= k < word_end(s, i) ==> is_word_char(s[k]),
        word_end(s, i) < s.len() ==> !is_word_char(s[word_end(s, i)]),
    decreases s.len() - i,
{
    if 0 <= i < s.len() && is_word_char(s[i]) {
        lemma_word_end_bounds(s, i + 1);
    }
}

pub fn scan_word(s: &str, from: usize) -> (r: usize)
    requires
        from <= s@.len(),
    ensures
        r == word_end(s@, from as int),
{
    let n = s.unicode_len();
    let mut i: usize = from;
    while i < n && word_char(s.get_char(i))
        invariant
            from <= i <= n,
            n == s@.len(),
            word_end(s@, from as int) == word_end(s@, i as int),
        decreases n - i,
    {
        i += 1;
    }
    i
}

// ---------------------------------------------------------------------------
// trimming
// ---------------------------------------------------------------------------

pub open spec fn trim_start_spec(s: Seq<char>) -> Seq<char>
    decreases s.len(),
{
    if s.len() > 0 && is_space_char(s[0]) {
        trim_start_spec(s.drop_first())
    } else {
        s
    }
}

pub open spec fn trim_end_spec(s: Seq<char>) -> Seq<char>
    decreases s.len(),
{
    if s.len() > 0 && is_space_char(s.last()) {
        trim_end_spec(s.drop_last())
    } else {
        s
    }
}

/// Leading and trailing whitespace removed.
pub open spec fn trim_spec(s: Seq<char>) -> Seq<char> {
    trim_end_spec(trim_start_spec(s))
}

proof fn lemma_trim_start_skip(s: Seq<char>, i: int)
    requires
        0 <= i <= s.len(),
        forall|j: int| 0 <= j < i ==> is_space_char(s[j]),
        i < s.len() ==> !is_space_char(s[i]),
    ensures
        trim_start_spec(s) == s.skip(i),
    decreases i,
{
    if i == 0 {
        assert(s.skip(0) =~= s);
    } else {
        lemma_trim_start_skip(s.drop_first(), i - 1);
        assert(s.drop_first().skip(i - 1) =~= s.skip(i));
    }
}

proof fn lemma_trim_end_take(s: Seq<char>, m: int)
    requires
        0 <= m <= s.len(),
        forall|j: int| m <= j < s.len() ==> is_space_char(s[j]),
        m > 0 ==> !is_space_char(s[m - 1]),
    ensures
        trim_end_spec(s) == s.take(m),
    decreases s.len() - m,
{
    if m == s.len() {
        if s.len() > 0 {
            assert(!is_space_char(s.last()));
        }
        assert(s.take(m) =~= s);
    } else {
        assert(is_space_char(s.last()));
        lemma_trim_end_take(s.drop_last(), m);
        assert(s.drop_last().take(m) =~= s.take(m));
    }
}

pub fn trim(s: &str) -> (r: &str)
    ensures
        r@ == trim_spec(s@),
{
    let n = s.unicode_len();
    let mut i: usize = 0;
    while i < n && space_char(s.get_char(i))
        invariant
            i <= n,
            n == s@.len(),
            forall|j: int| 0 <= j < i ==> is_space_char(s@[j]),
        decreases n - i,
    {
        i += 1;
    }
    let mut j: usize = n;
    while j > i && space_char(s.get_char(j - 1))
        invariant
            i <= j <= n,
            n == s@.len(),
            forall|k: int| j <= k < n ==> is_space_char(s@[k]),
        decreases j,
    {
        j -= 1;
    }
    proof {
        lemma_trim_start_skip(s@, i as int);
        lemma_trim_end_take(s@.skip(i as int), j - i);
        assert(s@.skip(i as int).take(j - i) =~= s@.subrange(i as int, j as int));
    }
    s.substring_char(i, j)
}

// ---------------------------------------------------------------------------
// joining
// ---------------------------------------------------------------------------

/// The parts joined with `sep` between consecutive parts.
pub open spec fn seq_join(parts: Seq<Seq<char>>, sep: Seq<char>) -> Seq<char>
    decreases parts.len(),
{
    if parts.len() == 0 {
        Seq::empty()
    } else if parts.len() == 1 {
        parts[0]
    } else {
        parts[0] + sep + seq_join(parts.drop_first(), sep)
    }
}

pub proof fn lemma_seq_join_push(parts: Seq<Seq<char>>, sep: Seq<char>, x: Seq<char>)
    ensures
        seq_join(parts.push(x), sep) == if parts.len() == 0 {
            x
        } else {
            seq_join(parts, sep) + sep + x
        },
    decreases parts.len(),
{
    if parts.len() == 0 {
        assert(parts.push(x)[0] == x);
    } else {
        assert(parts.push(x)[0] == parts[0]);
        assert(parts.push(x).drop_first() =~= parts.drop_first().push(x));
        lemma_seq_join_push(parts.drop_first(), sep, x);
        if parts.len() == 1 {
            assert(seq_join(parts, sep) == parts[0]);
            assert(seq_join(parts.push(x), sep) =~= parts[0] + sep + x);
        } else {
            assert(seq_join(parts.push(x), sep) =~= (parts[0] + sep + seq_join(
                parts.drop_first(),
                sep,
            )) + sep + x);
        }
    }
}

pub proof fn lemma_seq_join_nonempty(parts: Seq<Seq<char>>, sep: Seq<char>)
    requires
        parts.len() > 0,
        forall|i: int| 0 <= i < parts.len() ==> parts[i].len() > 0,
    ensures
        seq_join(parts, sep).len() > 0,
    decreases parts.len(),
{
    if parts.len() > 1 {
        lemma_seq_join_nonempty(parts.drop_first(), sep);
    }
}

/// Join the strings with `sep` between consecutive ones.
pub fn join_strings(parts: &Vec<String>, sep: &str) -> (r: String)
    ensures
        r@ == seq_join(parts@.map_values(|x: String| x@), sep@),
{
    let ghost views = parts@.map_values(|x: String| x@);
    let mut out = String::new();
    proof {
        assert(views.take(0) =~= Seq::<Seq<char>>::empty());
    }
    let mut i: usize = 0;
    while i < parts.len()
        invariant
            i <= parts@.len(),
            views == parts@.map_values(|x: String| x@),
            views.len() == parts@.len(),
            forall|j: int| 0 <= j < views.len() ==> views[j] == parts@[j]@,
            out@ == seq_join(views.take(i as int), sep@),
        decreases parts@.len() - i,
    {
        proof {
            assert(views.take(i as int + 1) =~= views.take(i as int).push(views[i as int]));
            lemma_seq_join_push(views.take(i as int), sep@, views[i as int]);
        }
        if i > 0 {
            out.append(sep);
            out.append(parts[i].as_str());
        } else {
            out.append(parts[i].as_str());
            proof {
                assert(seq_join(views.take(0), sep@) + views[0] =~= views[0]);
            }
        }
        i += 1;
    }
    proof {
        assert(views.take(parts@.len() as int) =~= views);
    }
    out
}

/// Each line trimmed, blank lines dropped, and the rest joined by newlines.
pub open spec fn normalized_text(s: Seq<char>) -> Seq<char> {
    seq_join(
        lines_of(s).map_values(|l: Seq<char>| trim_spec(l)).filter(|l: Seq<char>| l.len() != 0),
        seq!['\n'],
    )
}

/// Normalise a body: trim every line, drop blank ones, join with newlines.
pub fn normalize_text(s: &str) -> (r: String)
    ensures
        r@ == normalized_text(s@),
{
    let lines = split_lines(s);
    let ghost mapped = lines_of(s@).map_values(|l: Seq<char>| trim_spec(l));
    let ghost pred = |l: Seq<char>| l.len() != 0;
    let mut out = String::new();
    proof {
        assert(mapped.take(0) =~= Seq::<Seq<char>>::empty());
        reveal(Seq::filter);
        assert(mapped.take(0).filter(pred) =~= Seq::<Seq<char>>::empty());
    }
    let mut i: usize = 0;
    while i < lines.len()
        invariant
            i <= lines@.len(),
            lines@.len() == mapped.len(),
            forall|j: int| 0 <= j < lines@.len() ==> mapped[j] == trim_spec(lines@[j]@),
            pred == (|l: Seq<char>| l.len() != 0),
            out@ == seq_join(mapped.take(i as int).filter(pred), seq!['\n']),
            forall|j: int|
                0 <= j < mapped.take(i as int).filter(pred).len() ==> #[trigger] mapped.take(
                    i as int,
                ).filter(pred)[j].len() > 0,
        decreases lines@.len() - i,
    {
        let t = trim(lines[i].as_str());
        let ghost before = mapped.take(i as int).filter(pred);
        proof {
            reveal(Seq::filter);
            assert(mapped.take(i as int + 1).drop_last() =~= mapped.take(i as int));
            assert(mapped.take(i as int + 1).last() == mapped[i as int]);
            assert(mapped[i as int] == t@);
        }
        if t.unicode_len() > 0 {
            proof {
                assert(mapped.take(i as int + 1).filter(pred) =~= before.push(t@));
                lemma_seq_join_push(before, seq!['\n'], t@);
                if before.len() > 0 {
                    lemma_seq_join_nonempty(before, seq!['\n']);
                }
            }
            push_line(&mut out, t);
            proof {
                assert(out@ == seq_join(mapped.take(i as int + 1).filter(pred), seq!['\n']));
            }
        } else {
            proof {
                assert(mapped.take(i as int + 1).filter(pred) =~= before);
            }
        }
        i += 1;
    }
    proof {
        assert(mapped.take(lines@.len() as int) =~= mapped);
    }
    out
}

/// One more line appended: the text itself when nothing was there, otherwise
/// separated from what was there by a newline.
pub open spec fn append_line(cur: Seq<char>, x: Seq<char>) -> Seq<char> {
    if cur.len() == 0 {
        x
    } else {
        cur + seq!['\n'] + x
    }
}

/// Append `x` to `cur`, separated by a newline unless `cur` is empty.
pub fn push_line(cur: &mut String, x: &str)
    ensures
        final(cur)@ == append_line(old(cur)@, x@),
{
    proof {
        reveal_strlit("\n");
    }
    if cur.as_str().unicode_len() == 0 {
        proof {
            assert(old(cur)@.len() == 0);
        }
        cur.append(x);
        proof {
            assert(old(cur)@ + x@ =~= x@);
        }
    } else {
        cur.append("\n");
        cur.append(x);
        proof {
            assert(old(cur)@ + "\n"@ + x@ =~= append_line(old(cur)@, x@));
        }
    }
}

} // verus!

//! Verified building blocks for text handling: searching, trimming,
//! replacing, splitting and integer parsing over `&str` values, each stated
//! against a spec-level function on `Seq<char>`.

use vstd::prelude::*;

verus! {

/// Whitespace characters recognised when trimming a line.
pub open spec fn is_space_char(c: char) -> bool {
    c == ' ' || c == '\t' || c == '\r' || c == '\n' || c == '\u{b}' || c == '\u{c}'
}

pub open spec fn is_digit_char(c: char) -> bool {
    '0' <= c && c <= '9'
}

pub open spec fn digit_val(c: char) -> nat {
    ((c as u32) - ('0' as u32)) as nat
}

pub open spec fn all_digits(s: Seq<char>) -> bool {
    forall|i: int| 0 <= i < s.len() ==> is_digit_char(#[trigger] s[i])
}

/// Value of a decimal digit string, most significant digit first.
pub open spec fn dec_value(s: Seq<char>) -> nat
    decreases s.len(),
{
    if s.len() == 0 {
        0
    } else {
        dec_value(s.drop_last()) * 10 + digit_val(s.last())
    }
}

pub open spec fn is_hex_digit_char(c: char) -> bool {
    is_digit_char(c) || ('a' <= c && c <= 'f') || ('A' <= c && c <= 'F')
}

pub open spec fn hex_digit_val(c: char) -> nat {
    if is_digit_char(c) {
        digit_val(c)
    } else if 'a' <= c && c <= 'f' {
        ((c as u32) - ('a' as u32) + 10) as nat
    } else {
        ((c as u32) - ('A' as u32) + 10) as nat
    }
}

pub open spec fn all_hex_digits(s: Seq<char>) -> bool {
    forall|i: int| 0 <= i < s.len() ==> is_hex_digit_char(#[trigger] s[i])
}

/// Value of a hexadecimal digit string, most significant digit first.
pub open spec fn hex_value(s: Seq<char>) -> nat
    decreases s.len(),
{
    if s.len() == 0 {
        0
    } else {
        hex_value(s.drop_last()) * 16 + hex_digit_val(s.last())
    }
}

/// ASCII upper-case letters fold to lower case; all else is unchanged.
pub open spec fn lower_char(c: char) -> char {
    if 65 <= (c as u32) && (c as u32) <= 90 {
        (((c as u32) + 32) as char)
    } else {
        c
    }
}

pub open spec fn lower_seq(s: Seq<char>) -> Seq<char> {
    s.map_values(|c: char| lower_char(c))
}

/// ASCII upper-case letters mapped to their lower-case counterparts,
/// every other character kept.
pub fn ascii_lowercase(s: &str) -> (r: String)
    ensures
        r@ == lower_seq(s@),
{
    let n = s.unicode_len();
    let mut out = String::new();
    let mut i: usize = 0;
    while i < n
        invariant
            i <= n,
            n == s@.len(),
            out@.len() == i,
            forall|j: int| 0 <= j < i ==> out@[j] == lower_char(#[trigger] s@[j]),
        decreases n - i,
    {
        let c = s.get_char(i);
        let code = c as u32;
        if code >= 65 && code <= 90 {
            proof {
                reveal_strlit("abcdefghijklmnopqrstuvwxyz");
            }
            let k = (code - 65) as usize;
            let piece = "abcdefghijklmnopqrstuvwxyz".substring_char(k, k + 1);
            proof {
                assert(piece@ =~= seq![("abcdefghijklmnopqrstuvwxyz"@)[k as int]]);
                assert(("abcdefghijklmnopqrstuvwxyz"@)[k as int] == lower_char(c));
            }
            out.append(piece);
        } else {
            let piece = s.substring_char(i, i + 1);
            proof {
                assert(piece@ =~= seq![s@[i as int]]);
            }
            out.append(piece);
        }
        i += 1;
    }
    proof {
        assert(out@ =~= lower_seq(s@));
    }
    out
}

/// Result of replacing every non-overlapping occurrence of `pat` in `s` by
/// `rep`, scanning left to right.
pub open spec fn replace_seq(s: Seq<char>, pat: Seq<char>, rep: Seq<char>) -> Seq<char>
    decreases s.len(),
{
    if pat.len() == 0 || s.len() < pat.len() {
        s
    } else if s.subrange(0, pat.len() as int) == pat {
        rep + replace_seq(s.skip(pat.len() as int), pat, rep)
    } else {
        seq![s[0]] + replace_seq(s.skip(1), pat, rep)
    }
}

/// Number of leading whitespace characters.
pub open spec fn first_non_space(s: Seq<char>) -> int
    decreases s.len(),
{
    if s.len() == 0 {
        0
    } else if !is_space_char(s[0]) {
        0
    } else {
        1 + first_non_space(s.drop_first())
    }
}

/// Index one past the last non-whitespace character (0 when all whitespace).
pub open spec fn last_non_space_end(s: Seq<char>) -> int
    decreases s.len(),
{
    if s.len() == 0 {
        0
    } else if !is_space_char(s.last()) {
        s.len() as int
    } else {
        last_non_space_end(s.drop_last())
    }
}

/// `s` with leading and trailing whitespace removed.
pub open spec fn trim_spec(s: Seq<char>) -> Seq<char> {
    let a = first_non_space(s);
    let b = last_non_space_end(s);
    if a <= b {
        s.subrange(a, b)
    } else {
        Seq::empty()
    }
}

/// Index of the first occurrence of `d1` or `d2`, or `s.len()` if neither
/// occurs.
pub open spec fn first_delim(s: Seq<char>, d1: char, d2: char) -> int
    decreases s.len(),
{
    if s.len() == 0 {
        0
    } else if s[0] == d1 || s[0] == d2 {
        0
    } else {
        1 + first_delim(s.drop_first(), d1, d2)
    }
}

/// The pieces of `s` between occurrences of `d1` or `d2`; empty pieces are
/// kept, so the result always has one piece more than there are delimiters.
pub open spec fn split_spec(s: Seq<char>, d1: char, d2: char) -> Seq<Seq<char>>
    decreases s.len(),
{
    let i = first_delim(s, d1, d2);
    if 0 <= i < s.len() {
        seq![s.subrange(0, i)] + split_spec(s.skip(i + 1), d1, d2)
    } else {
        seq![s]
    }
}

proof fn lemma_first_non_space_at(s: Seq<char>, i: int)
    requires
        0 <= i <= s.len(),
        forall|j: int| 0 <= j < i ==> is_space_char(#[trigger] s[j]),
        i < s.len() ==> !is_space_char(s[i]),
    ensures
        first_non_space(s) == i,
    decreases s.len(),
{
    if s.len() == 0 {
    } else if !is_space_char(s[0]) {
        assert(i == 0);
    } else {
        assert(is_space_char(s[0]));
        assert(i >= 1);
        lemma_first_non_space_at(s.drop_first(), i - 1);
    }
}

proof fn lemma_last_non_space_end_at(s: Seq<char>, b: int)
    requires
        0 <= b <= s.len(),
        forall|j: int| b <= j < s.len() ==> is_space_char(#[trigger] s[j]),
        b > 0 ==> !is_space_char(s[b - 1]),
    ensures
        last_non_space_end(s) == b,
    decreases s.len(),
{
    if s.len() == 0 {
    } else if !is_space_char(s.last()) {
        assert(b == s.len());
    } else {
        assert(b < s.len());
        lemma_last_non_space_end_at(s.drop_last(), b);
    }
}

/// `first_delim` is the unique index left of which neither delimiter
/// occurs.
pub proof fn lemma_first_delim_at(s: Seq<char>, d1: char, d2: char, i: int)
    requires
        0 <= i <= s.len(),
        forall|j: int| 0 <= j < i ==> #[trigger] s[j] != d1 && s[j] != d2,
        i < s.len() ==> s[i] == d1 || s[i] == d2,
    ensures
        first_delim(s, d1, d2) == i,
    decreases s.len(),
{
    if s.len() == 0 {
    } else if s[0] == d1 || s[0] == d2 {
        assert(i == 0);
    } else {
        assert(i >= 1);
        lemma_first_delim_at(s.drop_first(), d1, d2, i - 1);
    }
}

/// Index of the last occurrence of `c` in `s`, or `-1` if it does not
/// occur.
pub open spec fn last_delim(s: Seq<char>, c: char) -> int
    decreases s.len(),
{
    if s.len() == 0 {
        -1
    } else if s.last() == c {
        s.len() - 1
    } else {
        last_delim(s.drop_last(), c)
    }
}

/// `last_delim` is the unique index right of which `c` does not occur.
pub proof fn lemma_last_delim_at(s: Seq<char>, c: char, i: int)
    requires
        -1 <= i < s.len(),
        i >= 0 ==> s[i] == c,
        forall|j: int| i < j < s.len() ==> s[j] != c,
    ensures
        last_delim(s, c) == i,
    decreases s.len(),
{
    if s.len() > 0 {
        if s.last() == c {
            assert(i == s.len() - 1);
        } else {
            assert(i < s.len() - 1);
            lemma_last_delim_at(s.drop_last(), c, i);
        }
    }
}

/// Character index of the last occurrence of `c` in `s`.
pub fn rfind_char(s: &str, c: char) -> (r: Option<usize>)
    ensures
        match r {
            Some(i) => i < s@.len() && s@[i as int] == c && forall|j: int|
                i < j < s@.len() ==> s@[j] != c,
            None => forall|j: int| 0 <= j < s@.len() ==> s@[j] != c,
        },
{
    let n = s.unicode_len();
    let mut i: usize = n;
    while i > 0
        invariant
            i <= n,
            n == s@.len(),
            forall|j: int| i <= j < n ==> s@[j] != c,
        decreases i,
    {
        i -= 1;
        if s.get_char(i) == c {
            return Some(i);
        }
    }
    None
}

/// A longer digit prefix never has a smaller value.
proof fn lemma_dec_prefix_monotone(s: Seq<char>, i: int, j: int)
    requires
        0 <= i <= j <= s.len(),
    ensures
        dec_value(s.take(i)) <= dec_value(s.take(j)),
    decreases j - i,
{
    if i < j {
        lemma_dec_prefix_monotone(s, i, j - 1);
        assert(s.take(j).drop_last() =~= s.take(j - 1));
        assert(dec_value(s.take(j)) == dec_value(s.take(j - 1)) * 10 + digit_val(s.take(j).last()));
    }
}

proof fn lemma_hex_prefix_monotone(s: Seq<char>, i: int, j: int)
    requires
        0 <= i <= j <= s.len(),
    ensures
        hex_value(s.take(i)) <= hex_value(s.take(j)),
    decreases j - i,
{
    if i < j {
        lemma_hex_prefix_monotone(s, i, j - 1);
        assert(s.take(j).drop_last() =~= s.take(j - 1));
        assert(hex_value(s.take(j)) == hex_value(s.take(j - 1)) * 16 + hex_digit_val(s.take(j).last()));
    }
}

/// Whether the characters of `s` at offset `i` match `pat` exactly.
pub fn eq_at(s: &str, i: usize, pat: &str) -> (r: bool)
    requires
        i + pat@.len() <= s@.len(),
    ensures
        r == (s@.subrange(i as int, i as int + pat@.len() as int) == pat@),
{
    let plen = pat.unicode_len();
    let _n = s.unicode_len();
    let ghost sub = s@.subrange(i as int, i as int + pat@.len() as int);
    let mut j: usize = 0;
    while j < plen
        invariant
            j <= plen,
            plen == pat@.len(),
            i + plen <= s@.len(),
            s@.len() <= usize::MAX,
            sub == s@.subrange(i as int, i as int + plen as int),
            forall|k: int| 0 <= k < j ==> s@[i + k] == pat@[k],
        decreases plen - j,
    {
        let cs = s.get_char(i + j);
        let cp = pat.get_char(j);
        if cs != cp {
            proof {
                assert(sub[j as int] == s@[i + j]);
            }
            return false;
        }
        j += 1;
    }
    proof {
        assert(sub =~= pat@);
    }
    true
}

/// Whether `s` and `t` hold the same characters.
pub fn str_eq(s: &str, t: &str) -> (r: bool)
    ensures
        r == (s@ == t@),
{
    let n = s.unicode_len();
    if n != t.unicode_len() {
        return false;
    }
    let r = eq_at(s, 0, t);
    proof {
        assert(s@.subrange(0, s@.len() as int) =~= s@);
    }
    r
}

/// Whether `s` begins with `pat`.
pub fn starts_with_str(s: &str, pat: &str) -> (r: bool)
    ensures
        r == (pat@.len() <= s@.len() && s@.subrange(0, pat@.len() as int) == pat@),
{
    let plen = pat.unicode_len();
    if plen > s.unicode_len() {
        return false;
    }
    eq_at(s, 0, pat)
}

/// Character index of the first occurrence of `c` in `s`.
pub fn find_char(s: &str, c: char) -> (r: Option<usize>)
    ensures
        match r {
            Some(i) => i < s@.len() && s@[i as int] == c && forall|j: int|
                0 <= j < i ==> s@[j] != c,
            None => forall|j: int| 0 <= j < s@.len() ==> s@[j] != c,
        },
{
    let n = s.unicode_len();
    let mut i: usize = 0;
    while i < n
        invariant
            i <= n,
            n == s@.len(),
            forall|j: int| 0 <= j < i ==> s@[j] != c,
        decreases n - i,
    {
        if s.get_char(i) == c {
            return Some(i);
        }
        i += 1;
    }
    None
}

/// Character index of the first occurrence of `pat` in `s`.
pub fn find_str(s: &str, pat: &str) -> (r: Option<usize>)
    ensures
        match r {
            Some(i) => i + pat@.len() <= s@.len() && s@.subrange(
                i as int,
                i as int + pat@.len() as int,
            ) == pat@ && forall|j: int|
                0 <= j < i ==> #[trigger] s@.subrange(j, j + pat@.len() as int) != pat@,
            None => forall|j: int|
                0 <= j && j + pat@.len() <= s@.len() ==> #[trigger] s@.subrange(
                    j,
                    j + pat@.len() as int,
                ) != pat@,
        },
{
    let n = s.unicode_len();
    let plen = pat.unicode_len();
    if plen > n {
        return None;
    }
    if plen == 0 {
        proof {
            assert(s@.subrange(0, 0) =~= pat@);
        }
        return Some(0);
    }
    let mut i: usize = 0;
    while i <= n - plen
        invariant
            plen == pat@.len(),
            n == s@.len(),
            0 < plen <= n,
            i <= n - plen + 1,
            forall|j: int| 0 <= j < i ==> #[trigger] s@.subrange(j, j + pat@.len() as int)
                != pat@,
        decreases n - i,
    {
        if eq_at(s, i, pat) {
            return Some(i);
        }
        i += 1;
    }
    None
}

/// `s` with leading and trailing whitespace removed.
pub fn trim(s: &str) -> (r: &str)
    ensures
        r@ == trim_spec(s@),
{
    let n = s.unicode_len();
    let mut a: usize = 0;
    while a < n && is_space(s.get_char(a))
        invariant
            a <= n,
            n == s@.len(),
            forall|j: int| 0 <= j < a ==> is_space_char(#[trigger] s@[j]),
        decreases n - a,
    {
        a += 1;
    }
    proof {
        lemma_first_non_space_at(s@, a as int);
    }
    let mut b: usize = n;
    while b > a && is_space(s.get_char(b - 1))
        invariant
            a <= b <= n,
            n == s@.len(),
            forall|j: int| b <= j < n ==> is_space_char(#[trigger] s@[j]),
        decreases b,
    {
        b -= 1;
    }
    proof {
        if a == b {
            // The whole string is whitespace.
            lemma_last_non_space_end_at(s@, 0);
        } else {
            lemma_last_non_space_end_at(s@, b as int);
        }
        assert(trim_spec(s@) =~= s@.subrange(a as int, b as int));
    }
    s.substring_char(a, b)
}

/// Executable form of `is_space_char`.
pub fn is_space(c: char) -> (r: bool)
    ensures
        r == is_space_char(c),
{
    c == ' ' || c == '\t' || c == '\r' || c == '\n' || c == '\u{b}' || c == '\u{c}'
}

/// Every non-overlapping occurrence of `pat` in `s` replaced by `rep`.
pub fn replace_str(s: &str, pat: &str, rep: &str) -> (r: String)
    requires
        pat@.len() > 0,
    ensures
        r@ == replace_seq(s@, pat@, rep@),
{
    let n = s.unicode_len();
    let plen = pat.unicode_len();
    let mut out = String::new();
    let mut i: usize = 0;
    proof {
        assert(s@.skip(0) =~= s@);
    }
    while i < n
        invariant
            i <= n,
            n == s@.len(),
            plen == pat@.len(),
            plen > 0,
            out@ + replace_seq(s@.skip(i as int), pat@, rep@) == replace_seq(s@, pat@, rep@),
        decreases n - i,
    {
        let ghost rest = s@.skip(i as int);
        if plen <= n - i && eq_at(s, i, pat) {
            proof {
                assert(rest.subrange(0, plen as int) =~= s@.subrange(
                    i as int,
                    i as int + plen as int,
                ));
                assert(rest.skip(plen as int) =~= s@.skip(i as int + plen as int));
                assert((out@ + rep@) + replace_seq(s@.skip(i as int + plen as int), pat@, rep@)
                    =~= out@ + (rep@ + replace_seq(s@.skip(i as int + plen as int), pat@, rep@)));
            }
            out.append(rep);
            i += plen;
        } else {
            proof {
                if i + plen <= n {
                    assert(rest.subrange(0, plen as int) =~= s@.subrange(
                        i as int,
                        i as int + plen as int,
                    ));
                }
                assert(rest.skip(1) =~= s@.skip(i as int + 1));
                if rest.len() < plen {
                    // The remainder is shorter than the pattern: it is kept as is.
                    assert(rest =~= s@.subrange(i as int, i as int + 1) + rest.skip(1));
                    assert(replace_seq(rest.skip(1), pat@, rep@) == rest.skip(1));
                } else {
                    assert(seq![rest[0]] =~= s@.subrange(i as int, i as int + 1));
                }
                assert((out@ + s@.subrange(i as int, i as int + 1)) + replace_seq(
                    s@.skip(i as int + 1),
                    pat@,
                    rep@,
                ) =~= out@ + (s@.subrange(i as int, i as int + 1) + replace_seq(
                    s@.skip(i as int + 1),
                    pat@,
                    rep@,
                )));
            }
            let piece = s.substring_char(i, i + 1);
            out.append(piece);
            i += 1;
        }
    }
    proof {
        assert(s@.skip(n as int) =~= Seq::<char>::empty());
        assert(out@ + Seq::<char>::empty() =~= out@);
    }
    out
}

/// The pieces of `s` between occurrences of `d1` or `d2`.
pub fn split_any(s: &str, d1: char, d2: char) -> (r: Vec<String>)
    ensures
        r@.len() == split_spec(s@, d1, d2).len(),
        forall|k: int| 0 <= k < r@.len() ==> #[trigger] r@[k]@ == split_spec(s@, d1, d2)[k],
{
    let n = s.unicode_len();
    let mut r: Vec<String> = Vec::new();
    let mut start: usize = 0;
    let mut i: usize = 0;
    proof {
        assert(s@.skip(0) =~= s@);
    }
    while i < n
        invariant
            start <= i <= n,
            n == s@.len(),
            forall|j: int| start <= j < i ==> #[trigger] s@[j] != d1 && s@[j] != d2,
            r@.len() + split_spec(s@.skip(start as int), d1, d2).len() == split_spec(
                s@,
                d1,
                d2,
            ).len(),
            forall|k: int| 0 <= k < r@.len() ==> #[trigger] r@[k]@ == split_spec(s@, d1, d2)[k],
            forall|k: int|
                0 <= k < split_spec(s@.skip(start as int), d1, d2).len() ==> #[trigger] split_spec(
                    s@.skip(start as int),
                    d1,
                    d2,
                )[k] == split_spec(s@, d1, d2)[r@.len() + k],
        decreases n - i,
    {
        let c = s.get_char(i);
        if c == d1 || c == d2 {
            let ghost rest = s@.skip(start as int);
            let ghost tail = s@.skip(i as int + 1);
            let ghost old_r = r@;
            proof {
                lemma_first_delim_at(rest, d1, d2, i - start);
                assert(rest.subrange(0, i - start) =~= s@.subrange(start as int, i as int));
                assert(rest.skip(i - start + 1) =~= tail);
                assert(split_spec(rest, d1, d2) == seq![rest.subrange(0, i - start)] + split_spec(
                    tail,
                    d1,
                    d2,
                ));
            }
            let piece = s.substring_char(start, i);
            r.push(String::from_str(piece));
            proof {
                assert forall|k: int| 0 <= k < r@.len() implies #[trigger] r@[k]@ == split_spec(
                    s@,
                    d1,
                    d2,
                )[k] by {
                    if k < old_r.len() {
                        assert(r@[k] == old_r[k]);
                    } else {
                        assert(r@[k]@ == rest.subrange(0, i - start));
                        assert(split_spec(rest, d1, d2)[0] == rest.subrange(0, i - start));
                    }
                }
                assert forall|k: int| 0 <= k < split_spec(tail, d1, d2).len() implies #[trigger]
                    split_spec(tail, d1, d2)[k] == split_spec(s@, d1, d2)[r@.len() + k] by {
                    assert(split_spec(rest, d1, d2)[k + 1] == split_spec(tail, d1, d2)[k]);
                    assert(split_spec(rest, d1, d2)[k + 1] == split_spec(s@, d1, d2)[old_r.len() + k
                        + 1]);
                }
            }
            start = i + 1;
            i += 1;
        } else {
            i += 1;
        }
    }
    let ghost rest = s@.skip(start as int);
    let ghost old_r = r@;
    proof {
        lemma_first_delim_at(rest, d1, d2, n - start);
        assert(rest.subrange(0, n - start) =~= rest);
        assert(split_spec(rest, d1, d2) == seq![rest]);
    }
    let piece = s.substring_char(start, n);
    r.push(String::from_str(piece));
    proof {
        assert forall|k: int| 0 <= k < r@.len() implies #[trigger] r@[k]@ == split_spec(
            s@,
            d1,
            d2,
        )[k] by {
            if k < old_r.len() {
                assert(r@[k] == old_r[k]);
            } else {
                assert(r@[k]@ =~= rest);
                assert(split_spec(rest, d1, d2)[0] == rest);
            }
        }
    }
    r
}

/// Value of `s` as an unsigned decimal numeral, when it is one that fits.
pub open spec fn dec_u32_spec(s: Seq<char>) -> Option<u32> {
    if s.len() > 0 && all_digits(s) && dec_value(s) <= u32::MAX {
        Some(dec_value(s) as u32)
    } else {
        None
    }
}

/// Value of `s` as an unsigned hexadecimal numeral, when it is one that
/// fits.
pub open spec fn hex_u32_spec(s: Seq<char>) -> Option<u32> {
    if s.len() > 0 && all_hex_digits(s) && hex_value(s) <= u32::MAX {
        Some(hex_value(s) as u32)
    } else {
        None
    }
}

/// Value of `s` as an optionally signed decimal numeral that fits a 32-bit
/// two's-complement field: the bit pattern together with whether the value
/// is negative.
pub open spec fn signed_dec_spec(s: Seq<char>) -> Option<(u32, bool)> {
    if s.len() > 0 && s[0] == '-' {
        let d = s.skip(1);
        if d.len() > 0 && all_digits(d) && dec_value(d) <= 0x8000_0000 {
            if dec_value(d) == 0 {
                Some((0u32, false))
            } else {
                Some(((0x1_0000_0000 - dec_value(d)) as u32, true))
            }
        } else {
            None
        }
    } else if s.len() > 0 && s[0] == '+' {
        let d = s.skip(1);
        if d.len() > 0 && all_digits(d) && dec_value(d) <= 0x7fff_ffff {
            Some((dec_value(d) as u32, false))
        } else {
            None
        }
    } else {
        if s.len() > 0 && all_digits(s) && dec_value(s) <= 0x7fff_ffff {
            Some((dec_value(s) as u32, false))
        } else {
            None
        }
    }
}

/// `s` with every leading occurrence of `pat` removed.
pub open spec fn strip_prefix_all(s: Seq<char>, pat: Seq<char>) -> Seq<char>
    decreases s.len(),
{
    if pat.len() == 0 || s.len() < pat.len() {
        s
    } else if s.subrange(0, pat.len() as int) == pat {
        strip_prefix_all(s.skip(pat.len() as int), pat)
    } else {
        s
    }
}

/// Value of `s` read as the assembler reads numerals: with a `0x` or `0X`
/// prefix as hexadecimal, otherwise as decimal.
pub open spec fn hex_or_dec_u32_spec(s: Seq<char>) -> Option<u32> {
    if s.len() >= 2 && (s.subrange(0, 2) == "0x"@ || s.subrange(0, 2) == "0X"@) {
        hex_u32_spec(strip_prefix_all(strip_prefix_all(s, "0x"@), "0X"@))
    } else {
        dec_u32_spec(s)
    }
}

/// Parses a non-empty decimal digit string as a `u32`.
pub fn parse_dec_u32(s: &str) -> (r: Option<u32>)
    ensures
        r == dec_u32_spec(s@),
        match r {
            Some(v) => s@.len() > 0 && all_digits(s@) && dec_value(s@) == v,
            None => s@.len() == 0 || !all_digits(s@) || dec_value(s@) > u32::MAX,
        },
{
    let n = s.unicode_len();
    if n == 0 {
        return None;
    }
    let mut acc: u32 = 0;
    let mut i: usize = 0;
    while i < n
        invariant
            i <= n,
            n == s@.len(),
            forall|j: int| 0 <= j < i ==> is_digit_char(#[trigger] s@[j]),
            acc == dec_value(s@.take(i as int)),
        decreases n - i,
    {
        let c = s.get_char(i);
        let code = c as u32;
        if code < 48 || code > 57 {
            assert(!is_digit_char(s@[i as int]));
            return None;
        }
        let d = code - 48;
        let wide: u64 = (acc as u64) * 10 + (d as u64);
        proof {
            assert(s@.take(i as int + 1).drop_last() =~= s@.take(i as int));
            assert(s@.take(i as int + 1).last() == s@[i as int]);
        }
        if wide > 0xffff_ffff {
            proof {
                lemma_dec_prefix_monotone(s@, i as int + 1, n as int);
                assert(s@.take(n as int) =~= s@);
            }
            return None;
        }
        acc = wide as u32;
        i += 1;
    }
    proof {
        assert(s@.take(n as int) =~= s@);
    }
    Some(acc)
}

/// Parses a non-empty hexadecimal digit string as a `u32`.
pub fn parse_hex_u32(s: &str) -> (r: Option<u32>)
    ensures
        r == hex_u32_spec(s@),
        match r {
            Some(v) => s@.len() > 0 && all_hex_digits(s@) && hex_value(s@) == v,
            None => s@.len() == 0 || !all_hex_digits(s@) || hex_value(s@) > u32::MAX,
        },
{
    let n = s.unicode_len();
    if n == 0 {
        return None;
    }
    let mut acc: u32 = 0;
    let mut i: usize = 0;
    while i < n
        invariant
            i <= n,
            n == s@.len(),
            forall|j: int| 0 <= j < i ==> is_hex_digit_char(#[trigger] s@[j]),
            acc == hex_value(s@.take(i as int)),
        decreases n - i,
    {
        let c = s.get_char(i);
        let code = c as u32;
        let d: u32 = if code >= 48 && code <= 57 {
            code - 48
        } else if code >= 97 && code <= 102 {
            code - 97 + 10
        } else if code >= 65 && code <= 70 {
            code - 65 + 10
        } else {
            assert(!is_hex_digit_char(s@[i as int]));
            return None;
        };
        let wide: u64 = (acc as u64) * 16 + (d as u64);
        proof {
            assert(s@.take(i as int + 1).drop_last() =~= s@.take(i as int));
            assert(s@.take(i as int + 1).last() == s@[i as int]);
        }
        if wide > 0xffff_ffff {
            proof {
                lemma_hex_prefix_monotone(s@, i as int + 1, n as int);
                assert(s@.take(n as int) =~= s@);
            }
            return None;
        }
        acc = wide as u32;
        i += 1;
    }
    proof {
        assert(s@.take(n as int) =~= s@);
    }
    Some(acc)
}

/// Parses an optionally signed decimal numeral into its 32-bit
/// two's-complement bit pattern and sign.
pub fn parse_signed_dec(s: &str) -> (r: Option<(u32, bool)>)
    ensures
        r == signed_dec_spec(s@),
{
    let n = s.unicode_len();
    if n == 0 {
        return None;
    }
    let c0 = s.get_char(0);
    if c0 == '-' {
        let rest = s.substring_char(1, n);
        proof {
            assert(rest@ =~= s@.skip(1));
        }
        match parse_dec_u32(rest) {
            Some(v) => {
                if v == 0 {
                    Some((0u32, false))
                } else if v <= 0x8000_0000 {
                    Some(((0xffff_ffffu32 - v) + 1, true))
                } else {
                    None
                }
            },
            None => None,
        }
    } else if c0 == '+' {
        let rest = s.substring_char(1, n);
        proof {
            assert(rest@ =~= s@.skip(1));
        }
        match parse_dec_u32(rest) {
            Some(v) => if v <= 0x7fff_ffff {
                Some((v, false))
            } else {
                None
            },
            None => None,
        }
    } else {
        match parse_dec_u32(s) {
            Some(v) => if v <= 0x7fff_ffff {
                Some((v, false))
            } else {
                None
            },
            None => None,
        }
    }
}

/// `s` with every leading occurrence of `pat` removed.
pub fn strip_all<'a>(s: &'a str, pat: &str) -> (r: &'a str)
    requires
        pat@.len() > 0,
    ensures
        r@ == strip_prefix_all(s@, pat@),
{
    let plen = pat.unicode_len();
    let n = s.unicode_len();
    let mut off: usize = 0;
    proof {
        assert(s@.skip(0) =~= s@);
    }
    while plen <= n - off && eq_at(s, off, pat)
        invariant
            plen == pat@.len(),
            plen > 0,
            n == s@.len(),
            off <= n,
            strip_prefix_all(s@.skip(off as int), pat@) == strip_prefix_all(s@, pat@),
        decreases n - off,
    {
        proof {
            assert(s@.skip(off as int).subrange(0, plen as int) =~= s@.subrange(
                off as int,
                off as int + plen as int,
            ));
            assert(s@.skip(off as int).skip(plen as int) =~= s@.skip(off as int + plen as int));
        }
        off += plen;
    }
    proof {
        let rest = s@.skip(off as int);
        if plen <= n - off {
            assert(rest.subrange(0, plen as int) =~= s@.subrange(
                off as int,
                off as int + plen as int,
            ));
        }
        assert(strip_prefix_all(rest, pat@) == rest);
    }
    let r = s.substring_char(off, n);
    proof {
        assert(r@ =~= s@.skip(off as int));
    }
    r
}

/// Reads a numeral the way the assembler does: `0x`/`0X`-prefixed as
/// hexadecimal, otherwise decimal.
pub fn parse_hex_or_dec_u32(s: &str) -> (r: Option<u32>)
    ensures
        r == hex_or_dec_u32_spec(s@),
{
    if starts_with_str(s, "0x") || starts_with_str(s, "0X") {
        proof {
            reveal_strlit("0x");
            reveal_strlit("0X");
        }
        let stripped = strip_all(strip_all(s, "0x"), "0X");
        parse_hex_u32(stripped)
    } else {
        proof {
            reveal_strlit("0x");
            reveal_strlit("0X");
        }
        parse_dec_u32(s)
    }
}

/// Whether every character of `s` is a decimal digit (true for the empty
/// string).
pub fn all_digits_exec(s: &str) -> (r: bool)
    ensures
        r == all_digits(s@),
{
    let n = s.unicode_len();
    let mut i: usize = 0;
    while i < n
        invariant
            i <= n,
            n == s@.len(),
            forall|j: int| 0 <= j < i ==> is_digit_char(#[trigger] s@[j]),
        decreases n - i,
    {
        let code = s.get_char(i) as u32;
        if code < 48 || code > 57 {
            assert(!is_digit_char(s@[i as int]));
            return false;
        }
        i += 1;
    }
    true
}

} // verus!

//! Verified text scanning for the assembler: whitespace trimming, simple
//! searches, and bounded integer parsing in the three literal bases.
use vstd::prelude::*;
use vstd::string::StrSliceExecFns;

verus! {

/// The whitespace characters the assembler trims: the ASCII spacing set.
/// A non-ASCII whitespace character is not trimmed and reads as part of
/// the line.
pub open spec fn is_space(c: char) -> bool {
    c == ' ' || c == '\t' || c == '\r' || c == '\n' || c == '\x0b' || c == '\x0c'
}

/// Whether `c` is an ASCII letter, the only characters mnemonics are made of.
pub open spec fn is_alpha(c: char) -> bool {
    let u = c as int;
    ('A' as int <= u && u <= 'Z' as int) || ('a' as int <= u && u <= 'z' as int)
}

/// Executable [`is_space`].
pub fn is_space_char(c: char) -> (r: bool)
    ensures
        r == is_space(c),
{
    c == ' ' || c == '\t' || c == '\r' || c == '\n' || c == '\x0b' || c == '\x0c'
}

/// Executable [`is_alpha`].
pub fn is_alpha_char(c: char) -> (r: bool)
    ensures
        r == is_alpha(c),
{
    let u = c as u32;
    ('A' as u32 <= u && u <= 'Z' as u32) || ('a' as u32 <= u && u <= 'z' as u32)
}

/// The sequence with its leading whitespace removed.
pub open spec fn spec_trim_front(s: Seq<char>) -> Seq<char>
    decreases s.len(),
{
    if s.len() > 0 && is_space(s[0]) {
        spec_trim_front(s.drop_first())
    } else {
        s
    }
}

/// The sequence with its trailing whitespace removed.
pub open spec fn spec_trim_back(s: Seq<char>) -> Seq<char>
    decreases s.len(),
{
    if s.len() > 0 && is_space(s.last()) {
        spec_trim_back(s.drop_last())
    } else {
        s
    }
}

/// The sequence with whitespace removed from both ends.
pub open spec fn spec_trim(s: Seq<char>) -> Seq<char> {
    spec_trim_back(spec_trim_front(s))
}

/// Front trimming is the cut at the first non-space position.
proof fn lemma_trim_front_idx(s: Seq<char>, k: int)
    requires
        0 <= k <= s.len(),
        forall|j: int| 0 <= j < k ==> is_space(#[trigger] s[j]),
        k < s.len() ==> !is_space(s[k]),
    ensures
        spec_trim_front(s) == s.subrange(k, s.len() as int),
    decreases k,
{
    if k == 0 {
        assert(spec_trim_front(s) =~= s.subrange(0, s.len() as int));
    } else {
        let t = s.drop_first();
        assert(forall|j: int| 0 <= j < k - 1 ==> is_space(#[trigger] t[j]));
        lemma_trim_front_idx(t, k - 1);
        assert(t.subrange(k - 1, t.len() as int) =~= s.subrange(k, s.len() as int));
    }
}

/// Back trimming is the cut at one past the last non-space position.
proof fn lemma_trim_back_idx(s: Seq<char>, k: int)
    requires
        0 <= k <= s.len(),
        forall|j: int| k <= j < s.len() ==> is_space(#[trigger] s[j]),
        k > 0 ==> !is_space(s[k - 1]),
    ensures
        spec_trim_back(s) == s.subrange(0, k),
    decreases s.len() - k,
{
    if k == s.len() {
        if k > 0 {
            assert(spec_trim_back(s) =~= s.subrange(0, k));
        } else {
            assert(spec_trim_back(s) =~= s.subrange(0, 0));
        }
    } else {
        let t = s.drop_last();
        assert(forall|j: int| k <= j < t.len() ==> is_space(#[trigger] t[j]));
        lemma_trim_back_idx(t, k);
        assert(t.subrange(0, k) =~= s.subrange(0, k));
    }
}

/// A copy of `s` with leading and trailing whitespace removed.
pub fn trimmed<'a>(s: &'a str) -> (t: &'a str)
    ensures
        t@ == spec_trim(s@),
{
    let len = s.unicode_len();
    let mut lo: usize = 0;
    while lo < len && is_space_char(s.get_char(lo))
        invariant
            lo <= len,
            len == s@.len(),
            forall|j: int| 0 <= j < lo ==> is_space(#[trigger] s@[j]),
        decreases len - lo,
    {
        lo += 1;
    }
    let mut hi: usize = len;
    while hi > lo && is_space_char(s.get_char(hi - 1))
        invariant
            lo <= hi <= len,
            len == s@.len(),
            forall|j: int| 0 <= j < lo ==> is_space(#[trigger] s@[j]),
            forall|j: int| hi <= j < len ==> is_space(#[trigger] s@[j]),
        decreases hi,
    {
        hi -= 1;
    }
    proof {
        lemma_trim_front_idx(s@, lo as int);
        let f = s@.subrange(lo as int, len as int);
        let k = hi - lo;
        assert(forall|j: int| k <= j < f.len() ==> is_space(#[trigger] f[j]));
        lemma_trim_back_idx(f, k as int);
        assert(f.subrange(0, k as int) =~= s@.subrange(lo as int, hi as int));
    }
    s.substring_char(lo, hi)
}

/// The first position at which `c` occurs, or -1 when it does not.
pub open spec fn first_index(s: Seq<char>, c: char) -> int
    decreases s.len(),
{
    if s.len() == 0 {
        -1
    } else if s[0] == c {
        0
    } else {
        let r = first_index(s.drop_first(), c);
        if r < 0 {
            -1
        } else {
            r + 1
        }
    }
}

/// A clean prefix places the first occurrence: no `c` before `k` and `c` at
/// `k` (or nowhere at all when `k` runs off the end).
proof fn lemma_first_index(s: Seq<char>, c: char, k: int)
    requires
        0 <= k <= s.len(),
        forall|j: int| 0 <= j < k ==> s[j] != c,
        k < s.len() ==> s[k] == c,
    ensures
        k < s.len() ==> first_index(s, c) == k,
        k == s.len() ==> first_index(s, c) == -1,
    decreases s.len(),
{
    if s.len() > 0 && s[0] != c {
        let t = s.drop_first();
        assert(forall|j: int| 0 <= j < k - 1 ==> t[j] != c);
        lemma_first_index(t, c, k - 1);
    }
}

/// Finds the first occurrence of `c`.
pub fn find_char(s: &str, c: char) -> (r: Option<usize>)
    ensures
        match r {
            Some(i) => i < s@.len() && first_index(s@, c) == i,
            None => first_index(s@, c) == -1,
        },
{
    let len = s.unicode_len();
    let mut i: usize = 0;
    while i < len
        invariant
            i <= len,
            len == s@.len(),
            forall|j: int| 0 <= j < i ==> s@[j] != c,
        decreases len - i,
    {
        if s.get_char(i) == c {
            proof {
                lemma_first_index(s@, c, i as int);
            }
            return Some(i);
        }
        i += 1;
    }
    proof {
        lemma_first_index(s@, c, len as int);
    }
    None
}

/// Whether `s` ends with the given suffix.
pub open spec fn ends_with(s: Seq<char>, suffix: Seq<char>) -> bool {
    suffix.len() <= s.len() && s.subrange(s.len() - suffix.len(), s.len() as int) == suffix
}

/// Tests whether `s` ends with `suffix`.
pub fn str_ends_with(s: &str, suffix: &str) -> (r: bool)
    ensures
        r == ends_with(s@, suffix@),
{
    let n = s.unicode_len();
    let m = suffix.unicode_len();
    if m > n {
        proof {
            assert(!ends_with(s@, suffix@));
        }
        return false;
    }
    let mut i: usize = 0;
    while i < m
        invariant
            i <= m <= n,
            n == s@.len(),
            m == suffix@.len(),
            forall|j: int| 0 <= j < i ==> s@[s@.len() - m + j] == suffix@[j],
        decreases m - i,
    {
        if s.get_char(n - m + i) != suffix.get_char(i) {
            proof {
                assert(s@.subrange(s@.len() - m, s@.len() as int)[i as int] != suffix@[i as int]);
            }
            return false;
        }
        i += 1;
    }
    proof {
        assert(s@.subrange(s@.len() - m, s@.len() as int) =~= suffix@);
    }
    true
}

/// Tests whether two strings hold the same characters.
pub fn str_eq_str(a: &str, b: &str) -> (r: bool)
    ensures
        r == (a@ == b@),
{
    let n = a.unicode_len();
    let m = b.unicode_len();
    if n != m {
        return false;
    }
    let mut i: usize = 0;
    while i < n
        invariant
            i <= n,
            n == a@.len(),
            n == b@.len(),
            forall|j: int| 0 <= j < i ==> a@[j] == b@[j],
        decreases n - i,
    {
        if a.get_char(i) != b.get_char(i) {
            return false;
        }
        i += 1;
    }
    proof {
        assert(a@ =~= b@);
    }
    true
}

/// The length of the leading run of ASCII letters.
pub open spec fn alpha_prefix_len(s: Seq<char>) -> nat
    decreases s.len(),
{
    if s.len() > 0 && is_alpha(s[0]) {
        1 + alpha_prefix_len(s.drop_first())
    } else {
        0
    }
}

/// A clean prefix places the leading letter run's length.
proof fn lemma_alpha_prefix(s: Seq<char>, k: int)
    requires
        0 <= k <= s.len(),
        forall|j: int| 0 <= j < k ==> is_alpha(#[trigger] s[j]),
        k < s.len() ==> !is_alpha(s[k]),
    ensures
        alpha_prefix_len(s) == k,
    decreases k,
{
    if k > 0 {
        let t = s.drop_first();
        assert(forall|j: int| 0 <= j < k - 1 ==> is_alpha(#[trigger] t[j]));
        lemma_alpha_prefix(t, k - 1);
    }
}

/// The length of the leading run of ASCII letters — the mnemonic's extent.
pub fn alpha_prefix(s: &str) -> (r: usize)
    ensures
        r == alpha_prefix_len(s@),
        r <= s@.len(),
{
    let len = s.unicode_len();
    let mut i: usize = 0;
    while i < len && is_alpha_char(s.get_char(i))
        invariant
            i <= len,
            len == s@.len(),
            forall|j: int| 0 <= j < i ==> is_alpha(#[trigger] s@[j]),
        decreases len - i,
    {
        i += 1;
    }
    proof {
        lemma_alpha_prefix(s@, i as int);
    }
    i
}

/// The numeric value of `c` as a digit in the given base, or -1 when `c` is
/// no such digit. Hex digits come in both cases.
pub open spec fn digit_of(c: char, radix: int) -> int {
    let u = c as int;
    let d = if '0' as int <= u && u <= '9' as int {
        u - '0' as int
    } else if 'a' as int <= u && u <= 'z' as int {
        u - 'a' as int + 10
    } else if 'A' as int <= u && u <= 'Z' as int {
        u - 'A' as int + 10
    } else {
        -1
    };
    if 0 <= d && d < radix {
        d
    } else {
        -1
    }
}

/// Executable [`digit_of`].
pub fn digit_of_char(c: char, radix: u32) -> (r: Option<u32>)
    requires
        2 <= radix <= 16,
    ensures
        match r {
            Some(d) => digit_of(c, radix as int) == d && d < radix,
            None => digit_of(c, radix as int) == -1,
        },
{
    let u = c as u32;
    let d: u32 = if '0' as u32 <= u && u <= '9' as u32 {
        u - '0' as u32
    } else if 'a' as u32 <= u && u <= 'z' as u32 {
        u - 'a' as u32 + 10
    } else if 'A' as u32 <= u && u <= 'Z' as u32 {
        u - 'A' as u32 + 10
    } else {
        return None;
    };
    if d < radix {
        Some(d)
    } else {
        None
    }
}

/// Whether the sequence is a nonempty run of digits of the base.
pub open spec fn all_digits(s: Seq<char>, radix: int) -> bool {
    s.len() > 0 && forall|i: int| 0 <= i < s.len() ==> digit_of(#[trigger] s[i], radix) >= 0
}

/// The value of a digit run, most significant first. Positions that hold no
/// digit contribute 0; the callers only use this under [`all_digits`].
pub open spec fn digits_val(s: Seq<char>, radix: int) -> int
    decreases s.len(),
{
    if s.len() == 0 {
        0
    } else {
        let d = digit_of(s.last(), radix);
        digits_val(s.drop_last(), radix) * radix + (if d >= 0 {
            d
        } else {
            0
        })
    }
}

/// A digit run's value is never negative (in a positive base).
pub proof fn lemma_digits_val_nonneg(s: Seq<char>, radix: int)
    requires
        radix >= 1,
    ensures
        digits_val(s, radix) >= 0,
    decreases s.len(),
{
    if s.len() > 0 {
        lemma_digits_val_nonneg(s.drop_last(), radix);
        assert(digits_val(s.drop_last(), radix) * radix >= 0) by (nonlinear_arith)
            requires
                digits_val(s.drop_last(), radix) >= 0,
                radix >= 1,
        ;
    }
}

/// The accumulator of the parsing loop saturates at one past the 16-bit
/// range: it equals the digit run's value until that value passes 0x10000,
/// and sticks at 0x10000 from then on.
pub open spec fn saturated_at(v: int, mag: u32) -> bool {
    (v <= 0x10000 && mag == v) || (v > 0x10000 && mag == 0x10000)
}

/// What parsing an optionally signed integer of the base from the whole
/// sequence yields: the signed value of the digit run, or nothing when the
/// run is empty or holds a non-digit.
pub open spec fn parse_int_spec(s: Seq<char>, radix: int) -> Option<int> {
    if s.len() == 0 {
        None
    } else if s[0] == '+' {
        if all_digits(s.drop_first(), radix) {
            Some(digits_val(s.drop_first(), radix))
        } else {
            None
        }
    } else if s[0] == '-' {
        if all_digits(s.drop_first(), radix) {
            Some(-digits_val(s.drop_first(), radix))
        } else {
            None
        }
    } else {
        if all_digits(s, radix) {
            Some(digits_val(s, radix))
        } else {
            None
        }
    }
}

/// What parsing a 16-bit signed integer yields: the parsed value exactly
/// when it fits the 16-bit signed range, nothing otherwise.
pub open spec fn parse_i16_spec(s: Seq<char>, radix: int) -> Option<i16> {
    match parse_int_spec(s, radix) {
        Some(v) => if i16::MIN <= v && v <= i16::MAX {
            Some(v as i16)
        } else {
            None
        },
        None => None,
    }
}

/// Parses an optionally signed 16-bit integer in the given base, exactly as
/// [`parse_i16_spec`] states: out-of-range values and malformed digit runs
/// both fail.
pub fn parse_i16_radix(s: &str, radix: u32) -> (r: Option<i16>)
    requires
        2 <= radix <= 16,
    ensures
        r == parse_i16_spec(s@, radix as int),
{
    let len = s.unicode_len();
    if len == 0 {
        return None;
    }
    let first = s.get_char(0);
    let neg: bool = first == '-';
    let start: usize = if first == '+' || first == '-' {
        1
    } else {
        0
    };
    if len == start {
        return None;
    }
    let ghost digits = s@.subrange(start as int, len as int);
    let mut i: usize = start;
    let mut mag: u32 = 0;
    while i < len
        invariant
            start <= i <= len,
            len == s@.len(),
            start <= 1,
            s@.len() > 0,
            (start == 1) == (s@[0] == '+' || s@[0] == '-'),
            neg == (s@[0] == '-'),
            2 <= radix <= 16,
            digits == s@.subrange(start as int, len as int),
            forall|j: int| start <= j < i ==> digit_of(#[trigger] s@[j], radix as int) >= 0,
            mag <= 0x10000,
            saturated_at(digits_val(s@.subrange(start as int, i as int), radix as int), mag),
        decreases len - i,
    {
        let d = match digit_of_char(s.get_char(i), radix) {
            Some(d) => d,
            None => {
                proof {
                    assert(digits[i - start] == s@[i as int]);
                    assert(!all_digits(digits, radix as int));
                    if start == 1 {
                        assert(digits =~= s@.drop_first());
                    } else {
                        assert(digits =~= s@);
                    }
                }
                return None;
            },
        };
        let ghost pre = s@.subrange(start as int, i as int);
        proof {
            lemma_digits_val_nonneg(pre, radix as int);
            assert(s@.subrange(start as int, i + 1).drop_last() =~= pre);
            assert(digits_val(s@.subrange(start as int, i + 1), radix as int) == digits_val(
                pre,
                radix as int,
            ) * radix + d);
            if digits_val(pre, radix as int) > 0x10000 {
                assert(digits_val(pre, radix as int) * radix >= digits_val(pre, radix as int))
                    by (nonlinear_arith)
                    requires
                        digits_val(pre, radix as int) >= 0,
                        radix >= 1,
                ;
            }
            if digits_val(pre, radix as int) == mag {
                assert(digits_val(pre, radix as int) * radix == mag * radix);
            }
            assert(mag * radix >= mag) by (nonlinear_arith)
                requires
                    mag >= 0,
                    radix >= 1,
            ;
            assert(mag * radix <= 0x100000) by (nonlinear_arith)
                requires
                    mag <= 0x10000,
                    radix <= 16,
            ;
        }
        mag = mag * radix + d;
        if mag > 0x10000 {
            mag = 0x10000;
        }
        i += 1;
    }
    proof {
        assert(all_digits(digits, radix as int));
        lemma_digits_val_nonneg(digits, radix as int);
        if start == 1 {
            assert(digits =~= s@.drop_first());
        } else {
            assert(digits =~= s@);
        }
    }
    if neg {
        if mag <= 32768 {
            Some((-(mag as i32)) as i16)
        } else {
            None
        }
    } else {
        if mag <= 32767 {
            Some(mag as i16)
        } else {
            None
        }
    }
}

/// A string that trims to something nonempty was nonempty itself.
pub proof fn lemma_trim_nonempty(s: Seq<char>)
    ensures
        spec_trim(s).len() > 0 ==> s.len() > 0,
{
    if s.len() == 0 {
        assert(spec_trim_front(s) == s);
        assert(spec_trim_back(s) == s);
    }
}

/// The character sequences of a sequence of strings.
pub open spec fn views_of(v: Seq<String>) -> Seq<Seq<char>> {
    v.map_values(|x: String| x@)
}

/// The source split at every newline; a trailing newline contributes one
/// final empty line, which the assembler skips as blank anyway.
pub open spec fn split_lines(s: Seq<char>) -> Seq<Seq<char>>
    decreases s.len(),
{
    let i = first_index(s, '\n');
    if i < 0 || i >= s.len() {
        seq![s]
    } else {
        seq![s.subrange(0, i)] + split_lines(s.subrange(i + 1, s.len() as int))
    }
}

/// Splits the source text into its lines.
pub fn split_into_lines(s: &str) -> (r: Vec<String>)
    ensures
        views_of(r@) == split_lines(s@),
{
    let mut out: Vec<String> = Vec::new();
    let mut rest: &str = s;
    loop
        invariant_except_break
            views_of(out@) + split_lines(rest@) =~= split_lines(s@),
        ensures
            views_of(out@) == split_lines(s@),
        decreases rest@.len(),
    {
        let ghost pre = out@;
        match find_char(rest, '\n') {
            Some(i) => {
                let len = rest.unicode_len();
                out.push(rest.substring_char(0, i).to_owned());
                let next = rest.substring_char(i + 1, len);
                proof {
                    assert(views_of(out@) =~= views_of(pre).push(rest@.subrange(0, i as int)));
                    assert(views_of(out@) + split_lines(next@) =~= split_lines(s@));
                }
                rest = next;
            },
            None => {
                out.push(rest.to_owned());
                proof {
                    assert(views_of(out@) =~= views_of(pre).push(rest@));
                    assert(views_of(out@) =~= split_lines(s@));
                }
                break;
            },
        }
    }
    out
}

} // verus!

//! Fixed-precision decimal text: parsing and formatting of the amounts
//! and identifiers that cross the CSV boundary.
//!
//! Amounts are represented as a signed count of ten-thousandths, so four
//! fractional decimal digits are exact.

use vstd::prelude::*;

verus! {

/// The characters an ASCII byte sequence denotes.
pub open spec fn ascii_chars(bytes: Seq<u8>) -> Seq<char> {
    bytes.map_values(|b: u8| b as char)
}

/// Whether `c` is a decimal digit.
pub open spec fn is_digit_char(c: char) -> bool {
    48 <= c as u32 <= 57
}

/// The value of a digit character.
pub open spec fn digit_val(c: char) -> int {
    c as u32 - 48
}

/// Whether every character of `s` is a decimal digit.
pub open spec fn all_digits(s: Seq<char>) -> bool {
    forall|i: int| 0 <= i < s.len() ==> is_digit_char(#[trigger] s[i])
}

/// The number a digit sequence denotes, most significant digit first.
pub open spec fn digits_val(s: Seq<char>) -> int
    decreases s.len(),
{
    if s.len() == 0 {
        0
    } else {
        digits_val(s.drop_last()) * 10 + digit_val(s.last())
    }
}

/// Ten to the `k`-th power.
pub open spec fn pow10(k: int) -> int
    decreases k,
{
    if k <= 0 {
        1
    } else {
        10 * pow10(k - 1)
    }
}

/// The decimal digits of `n`, without sign and without leading zeros
/// (except for `n == 0` itself).
pub open spec fn dec_str(n: int) -> Seq<char>
    recommends
        n >= 0,
    decreases n,
{
    if n < 10 {
        seq![((48 + if n >= 0 { n } else { 0 }) as u8) as char]
    } else {
        dec_str(n / 10).push(((48 + n % 10) as u8) as char)
    }
}

/// The four zero-padded fractional digits of `f` ten-thousandths.
pub open spec fn frac4(f: int) -> Seq<char>
    recommends
        0 <= f < 10000,
{
    seq![
        ((48 + (f / 1000) % 10) as u8) as char,
        ((48 + (f / 100) % 10) as u8) as char,
        ((48 + (f / 10) % 10) as u8) as char,
        ((48 + f % 10) as u8) as char,
    ]
}

/// The rendering of the amount `v` (a count of ten-thousandths) with
/// exactly four fractional digits, a leading minus for negative values.
pub open spec fn amount_str(v: int) -> Seq<char> {
    let mag = if v < 0 {
        -v
    } else {
        v
    };
    (if v < 0 {
        seq!['-']
    } else {
        Seq::<char>::empty()
    }) + dec_str(mag / 10000) + seq!['.'] + frac4(mag % 10000)
}

/// The number a text denotes when it is a non-empty run of digits.
pub open spec fn dec_value(s: Seq<char>) -> Option<int> {
    if s.len() >= 1 && all_digits(s) {
        Some(digits_val(s))
    } else {
        None
    }
}

/// The position of the first `sep` in `s`, or `s.len()` when there is
/// none.
pub open spec fn sep_index(s: Seq<char>, sep: char) -> int
    decreases s.len(),
{
    if s.len() == 0 {
        0
    } else if s[0] == sep {
        0
    } else {
        1 + sep_index(s.drop_first(), sep)
    }
}

/// `s` split at every `sep`: always one more part than separators, parts
/// in order, separators dropped.
pub open spec fn split_spec(s: Seq<char>, sep: char) -> Seq<Seq<char>>
    decreases s.len(),
{
    let d = sep_index(s, sep);
    if 0 <= d && d < s.len() {
        seq![s.take(d)] + split_spec(s.skip(d + 1), sep)
    } else {
        seq![s]
    }
}

/// The first-separator position lies within the sequence, and is the
/// length exactly when the separator does not occur.
pub proof fn lemma_sep_index_bounds(s: Seq<char>, sep: char)
    ensures
        0 <= sep_index(s, sep) <= s.len(),
        sep_index(s, sep) < s.len() ==> s[sep_index(s, sep)] == sep,
        forall|m: int| 0 <= m < sep_index(s, sep) ==> #[trigger] s[m] != sep,
    decreases s.len(),
{
    if s.len() > 0 && s[0] != sep {
        lemma_sep_index_bounds(s.drop_first(), sep);
        assert(forall|m: int|
            0 <= m < s.drop_first().len() ==> #[trigger] s.drop_first()[m] == s[m + 1]);
        assert forall|m: int| 0 <= m < sep_index(s, sep) implies #[trigger] s[m] != sep by {
            if m > 0 {
                assert(s.drop_first()[m - 1] != sep);
            }
        }
    }
}

/// The position of the first `'.'` in `s`, or `s.len()` when there is
/// none.
pub open spec fn dot_index(s: Seq<char>) -> int {
    sep_index(s, '.')
}

/// A split has at least one part.
pub proof fn lemma_split_len_pos(s: Seq<char>, sep: char)
    ensures
        split_spec(s, sep).len() >= 1,
    decreases s.len(),
{
    let d = sep_index(s, sep);
    if 0 <= d && d < s.len() {
        lemma_split_len_pos(s.skip(d + 1), sep);
    }
}

/// A split has at most one part more than the text has characters.
pub proof fn lemma_split_len_le(s: Seq<char>, sep: char)
    ensures
        split_spec(s, sep).len() <= s.len() + 1,
    decreases s.len(),
{
    lemma_sep_index_bounds(s, sep);
    let d = sep_index(s, sep);
    if 0 <= d && d < s.len() {
        lemma_split_len_le(s.skip(d + 1), sep);
    }
}

/// What parsing `s` as a fixed-precision amount yields: an optional
/// leading minus, a non-empty run of digits, and optionally a point
/// followed by one to four fractional digits. The value is a count of
/// ten-thousandths; a magnitude beyond `i64::MAX` fails.
pub open spec fn parse_amount_spec(s: Seq<char>) -> Option<i64> {
    let neg = s.len() > 0 && s[0] == '-';
    let b = if neg {
        s.drop_first()
    } else {
        s
    };
    let d = dot_index(b);
    let ip = b.take(d);
    let fp = if d == b.len() {
        Seq::<char>::empty()
    } else {
        b.skip(d + 1)
    };
    if ip.len() >= 1 && all_digits(ip) && (d == b.len() || (1 <= fp.len() <= 4 && all_digits(fp)))
     {
        let mag = digits_val(ip) * 10000 + digits_val(fp) * pow10(4 - fp.len());
        if mag <= i64::MAX {
            Some((if neg { -mag } else { mag }) as i64)
        } else {
            None
        }
    } else {
        None
    }
}

/// A digit sequence denotes a value between zero (inclusive) and ten to
/// its length (exclusive).
pub proof fn lemma_digits_val_bounds(s: Seq<char>)
    requires
        all_digits(s),
    ensures
        0 <= digits_val(s) < pow10(s.len() as int),
    decreases s.len(),
{
    if s.len() > 0 {
        assert(all_digits(s.drop_last())) by {
            assert(forall|i: int| 0 <= i < s.len() - 1 ==> #[trigger] s.drop_last()[i] == s[i]);
        }
        lemma_digits_val_bounds(s.drop_last());
        assert(is_digit_char(s.last()));
        assert(pow10(s.len() as int) == 10 * pow10(s.len() - 1));
    }
}

/// Extending a digit sequence to the right never lowers its value.
pub proof fn lemma_digits_val_take_le(s: Seq<char>, i: int)
    requires
        all_digits(s),
        0 <= i <= s.len(),
    ensures
        digits_val(s.take(i)) <= digits_val(s),
    decreases s.len() - i,
{
    if i < s.len() {
        assert(all_digits(s.take(i))) by {
            assert(forall|j: int| 0 <= j < i ==> #[trigger] s.take(i)[j] == s[j]);
        }
        lemma_digits_val_bounds(s.take(i));
        assert(s.take(i + 1).drop_last() =~= s.take(i));
        assert(s.take(i + 1).last() == s[i]);
        assert(digits_val(s.take(i + 1)) == digits_val(s.take(i)) * 10 + digit_val(s[i]));
        assert(is_digit_char(s[i]));
        lemma_digits_val_take_le(s, i + 1);
    } else {
        assert(s.take(i) =~= s);
    }
}

/// `sep_index` is the position of the first separator: none lies before
/// it, and it is either the length or a separator.
pub proof fn lemma_sep_index_at(s: Seq<char>, sep: char, k: int)
    requires
        0 <= k <= s.len(),
        forall|m: int| 0 <= m < k ==> s[m] != sep,
        k == s.len() || s[k] == sep,
    ensures
        sep_index(s, sep) == k,
    decreases s.len(),
{
    if s.len() > 0 && k > 0 {
        assert(s[0] != sep);
        assert(forall|m: int| 0 <= m < k - 1 ==> #[trigger] s.drop_first()[m] == s[m + 1]);
        lemma_sep_index_at(s.drop_first(), sep, k - 1);
    }
}

/// Appending one byte appends one character.
proof fn lemma_ascii_chars_push(s: Seq<u8>, b: u8)
    ensures
        ascii_chars(s.push(b)) =~= ascii_chars(s).push(b as char),
{
}

/// The punctuation bytes the renderings use denote their characters.
proof fn lemma_ascii_punct()
    ensures
        ((45 as u8) as char) == '-',
        ((46 as u8) as char) == '.',
{
    assert('-' as u32 == 45);
    assert('.' as u32 == 46);
    vstd::utf8::char_u32_cast('-', 45);
    vstd::utf8::char_u32_cast('.', 46);
}

/// Append the decimal digits of `n` to `out`.
pub fn push_dec_digits(n: u64, out: &mut Vec<u8>)
    ensures
        ascii_chars(final(out)@) == ascii_chars(old(out)@) + dec_str(n as int),
        final(out)@.len() > old(out)@.len(),
        forall|i: int|
            old(out)@.len() <= i < final(out)@.len() ==> (#[trigger] final(out)@[i]) < 128,
        forall|i: int| 0 <= i < old(out)@.len() ==> final(out)@[i] == old(out)@[i],
    decreases n,
{
    if n < 10 {
        let ghost s0 = out@;
        out.push(48 + n as u8);
        proof {
            lemma_ascii_chars_push(s0, (48 + n as int) as u8);
            assert(ascii_chars(out@) =~= ascii_chars(old(out)@) + dec_str(n as int));
        }
    } else {
        push_dec_digits(n / 10, out);
        let ghost s1 = out@;
        out.push(48 + (n % 10) as u8);
        proof {
            lemma_ascii_chars_push(s1, (48 + (n as int) % 10) as u8);
            assert(ascii_chars(out@) =~= ascii_chars(old(out)@) + dec_str(n as int));
        }
    }
}

/// Append the rendering of the amount `v` — a count of ten-thousandths —
/// with exactly four fractional digits.
pub fn push_amount(v: i64, out: &mut Vec<u8>)
    ensures
        ascii_chars(final(out)@) == ascii_chars(old(out)@) + amount_str(v as int),
        forall|i: int|
            old(out)@.len() <= i < final(out)@.len() ==> (#[trigger] final(out)@[i]) < 128,
        forall|i: int| 0 <= i < old(out)@.len() ==> final(out)@[i] == old(out)@[i],
{
    let ghost s0 = out@;
    let mag: u64 = if v >= 0 {
        v as u64
    } else {
        ((-(v + 1)) as u64) + 1
    };
    proof {
        assert(mag as int == if v < 0 {
            -(v as int)
        } else {
            v as int
        });
    }
    if v < 0 {
        out.push(45);
        proof {
            lemma_ascii_chars_push(s0, 45);
            lemma_ascii_punct();
        }
    }
    let ghost s1 = out@;
    proof {
        assert(ascii_chars(s1) =~= ascii_chars(s0) + if v < 0 {
            seq!['-']
        } else {
            Seq::<char>::empty()
        });
    }
    push_dec_digits(mag / 10000, out);
    let ghost s2 = out@;
    out.push(46);
    proof {
        lemma_ascii_chars_push(s2, 46);
        lemma_ascii_punct();
    }
    let f = mag % 10000;
    let ghost s3 = out@;
    out.push(48 + ((f / 1000) % 10) as u8);
    let ghost s4 = out@;
    out.push(48 + ((f / 100) % 10) as u8);
    let ghost s5 = out@;
    out.push(48 + ((f / 10) % 10) as u8);
    let ghost s6 = out@;
    out.push(48 + (f % 10) as u8);
    proof {
        lemma_ascii_chars_push(s3, (48 + ((f as int) / 1000) % 10) as u8);
        lemma_ascii_chars_push(s4, (48 + ((f as int) / 100) % 10) as u8);
        lemma_ascii_chars_push(s5, (48 + ((f as int) / 10) % 10) as u8);
        lemma_ascii_chars_push(s6, (48 + (f as int) % 10) as u8);
        assert(ascii_chars(out@) =~= ascii_chars(old(out)@) + amount_str(v as int));
    }
}

/// Parse a non-empty run of decimal digits as a `u64`; `None` when `s`
/// is empty, holds a non-digit, or denotes a value beyond `u64::MAX`.
pub fn parse_u64_dec(s: &str) -> (r: Option<u64>)
    ensures
        r == if s@.len() >= 1 && all_digits(s@) && digits_val(s@) <= u64::MAX {
            Some(digits_val(s@) as u64)
        } else {
            None::<u64>
        },
{
    let n = s.unicode_len();
    if n == 0 {
        return None;
    }
    let mut acc: u64 = 0;
    let mut i: usize = 0;
    proof {
        assert(s@.take(0) =~= Seq::<char>::empty());
    }
    while i < n
        invariant
            n == s@.len(),
            0 <= i <= n,
            all_digits(s@.take(i as int)),
            acc == digits_val(s@.take(i as int)),
        decreases n - i,
    {
        let c = s.get_char(i);
        let u = c as u32;
        if u < 48 || u > 57 {
            proof {
                assert(!is_digit_char(s@[i as int]));
            }
            return None;
        }
        let d = (u - 48) as u64;
        proof {
            assert(s@.take(i + 1).drop_last() =~= s@.take(i as int));
            assert(s@.take(i + 1).last() == s@[i as int]);
            assert(all_digits(s@.take(i + 1))) by {
                assert(forall|j: int|
                    0 <= j < i ==> #[trigger] s@.take(i + 1)[j] == s@.take(i as int)[j]);
                assert(s@.take(i + 1)[i as int] == s@[i as int]);
            }
        }
        let shifted = match acc.checked_mul(10) {
            Some(x) => x,
            None => {
                proof {
                    overflow_means_too_big(s@, i as int);
                }
                return None;
            },
        };
        let next = match shifted.checked_add(d) {
            Some(x) => x,
            None => {
                proof {
                    overflow_means_too_big(s@, i as int);
                }
                return None;
            },
        };
        acc = next;
        i += 1;
    }
    proof {
        assert(s@.take(n as int) =~= s@);
    }
    Some(acc)
}

/// When the running value exceeds `u64::MAX` at position `i`, the whole
/// digit string does too.
proof fn overflow_means_too_big(s: Seq<char>, i: int)
    requires
        0 <= i < s.len(),
        all_digits(s.take(i)),
        is_digit_char(s[i]),
        digits_val(s.take(i)) * 10 + digit_val(s[i]) > u64::MAX,
    ensures
        !(all_digits(s) && digits_val(s) <= u64::MAX),
{
    if all_digits(s) {
        assert(s.take(i + 1).drop_last() =~= s.take(i));
        assert(s.take(i + 1).last() == s[i]);
        assert(digits_val(s.take(i + 1)) == digits_val(s.take(i)) * 10 + digit_val(s[i]));
        lemma_digits_val_take_le(s, i + 1);
    }
}

/// Parse a non-empty run of decimal digits as a `u32`.
pub fn parse_u32_dec(s: &str) -> (r: Option<u32>)
    ensures
        r == if s@.len() >= 1 && all_digits(s@) && digits_val(s@) <= u32::MAX {
            Some(digits_val(s@) as u32)
        } else {
            None::<u32>
        },
{
    proof {
        if s@.len() >= 1 && all_digits(s@) {
            lemma_digits_val_bounds(s@);
        }
    }
    match parse_u64_dec(s) {
        Some(v) => if v <= u32::MAX as u64 {
            Some(v as u32)
        } else {
            None
        },
        None => None,
    }
}

/// Parse a non-empty run of decimal digits as a `u16`.
pub fn parse_u16_dec(s: &str) -> (r: Option<u16>)
    ensures
        r == if s@.len() >= 1 && all_digits(s@) && digits_val(s@) <= u16::MAX {
            Some(digits_val(s@) as u16)
        } else {
            None::<u16>
        },
{
    proof {
        if s@.len() >= 1 && all_digits(s@) {
            lemma_digits_val_bounds(s@);
        }
    }
    match parse_u64_dec(s) {
        Some(v) => if v <= u16::MAX as u64 {
            Some(v as u16)
        } else {
            None
        },
        None => None,
    }
}

/// The position of the first `sep` at or after `start`, or the length
/// when there is none.
pub fn find_sep(s: &str, start: usize, sep: char) -> (r: usize)
    requires
        start <= s@.len(),
    ensures
        start <= r <= s@.len(),
        forall|m: int| start <= m < r ==> #[trigger] s@[m] != sep,
        r < s@.len() ==> s@[r as int] == sep,
{
    let n = s.unicode_len();
    let mut j: usize = start;
    while j < n
        invariant
            n == s@.len(),
            start <= j <= n,
            forall|m: int| start <= m < j ==> #[trigger] s@[m] != sep,
        decreases n - j,
    {
        if s.get_char(j) == sep {
            return j;
        }
        j += 1;
    }
    n
}

/// Parse a fixed-precision decimal amount into a count of
/// ten-thousandths: an optional minus, a non-empty integer part, and
/// optionally a point followed by one to four fractional digits.
pub fn parse_amount(s: &str) -> (r: Option<i64>)
    ensures
        r == parse_amount_spec(s@),
{
    let n = s.unicode_len();
    let neg = n > 0 && (s.get_char(0) as u32) == 45;
    let start: usize = if neg {
        1
    } else {
        0
    };
    let ghost b = if neg {
        s@.drop_first()
    } else {
        s@
    };
    proof {
        assert(b.len() == n - start);
        assert(forall|j: int| 0 <= j < b.len() ==> #[trigger] b[j] == s@[j + start]);
        if n > 0 {
            assert('-' as u32 == 45);
            if neg {
                vstd::utf8::char_u32_cast(s@[0], 45);
                vstd::utf8::char_u32_cast('-', 45);
                assert(s@[0] == '-');
            } else {
                assert(s@[0] != '-');
            }
        }
    }

    let dot = find_sep(s, start, '.');
    proof {
        assert(forall|m: int| 0 <= m < dot - start ==> #[trigger] b[m] != '.');
        if dot < n {
            assert(b[dot - start] == '.');
        }
        lemma_sep_index_at(b, '.', dot - start);
        assert(dot_index(b) == dot - start);
    }
    let ghost ip = b.take(dot - start);
    let ghost fp = if dot == n {
        Seq::<char>::empty()
    } else {
        b.skip(dot - start + 1)
    };

    let ip_str = s.substring_char(start, dot);
    proof {
        assert(ip_str@ =~= ip);
    }
    let ip_val = match parse_u64_dec(ip_str) {
        Some(v) => v,
        None => {
            proof {
                if ip.len() >= 1 && all_digits(ip) && (dot == n || (1 <= fp.len() <= 4
                    && all_digits(fp))) {
                    // Only an oversized integer part can have failed.
                    assert(digits_val(ip) > u64::MAX);
                    lemma_digits_val_bounds(fp);
                    pow10_pos(4 - fp.len());
                    mul_ge(digits_val(ip), 10000);
                    mul_nonneg(digits_val(fp), pow10(4 - fp.len()));
                }
            }
            return None;
        },
    };

    let fp_len = n - dot;
    let (fp_val, fp_scale): (u64, u64) = if dot == n {
        (0, 10000)
    } else {
        let fp_str = s.substring_char(dot + 1, n);
        proof {
            assert(fp_str@ =~= fp);
        }
        if fp_len < 2 || fp_len > 5 {
            // Zero or more than four fractional digits.
            return None;
        }
        let v = match parse_u64_dec(fp_str) {
            Some(v) => v,
            None => {
                proof {
                    if all_digits(fp) {
                        lemma_digits_val_bounds(fp);
                        pow10_small(fp.len() as int);
                    }
                }
                return None;
            },
        };
        let scale: u64 = if fp_len == 2 {
            1000
        } else if fp_len == 3 {
            100
        } else if fp_len == 4 {
            10
        } else {
            1
        };
        proof {
            pow10_small(4 - fp.len());
            assert(scale == pow10(4 - fp.len()));
        }
        (v, scale)
    };

    proof {
        lemma_digits_val_bounds(ip);
        lemma_digits_val_bounds(fp);
        pow10_small(fp.len() as int);
        frac_scaled_bound(digits_val(fp), fp.len() as int);
        assert(fp_val == digits_val(fp));
        assert(fp_scale == pow10(4 - fp.len()));
    }

    let scaled_frac = fp_val * fp_scale;
    let mag = match ip_val.checked_mul(10000) {
        Some(x) => match x.checked_add(scaled_frac) {
            Some(y) => y,
            None => {
                return None;
            },
        },
        None => {
            return None;
        },
    };
    if mag > i64::MAX as u64 {
        return None;
    }
    if neg {
        Some(-(mag as i64))
    } else {
        Some(mag as i64)
    }
}

/// Relies on `String::from_utf8`: ASCII bytes decode to the string whose
/// characters are those bytes, one for one.
#[verifier::external_body]
pub(crate) fn ascii_to_string(v: Vec<u8>) -> (r: String)
    requires
        forall|i: int| 0 <= i < v@.len() ==> (#[trigger] v@[i]) < 128,
    ensures
        r@ == ascii_chars(v@),
{
    String::from_utf8(v).unwrap_or_default()
}

/// Whether `c` is blank: a space, a tab, or a carriage return.
pub open spec fn is_space_char(c: char) -> bool {
    c as u32 == 32 || c as u32 == 9 || c as u32 == 13
}

/// How many blank characters `s` starts with.
pub open spec fn start_trim(s: Seq<char>) -> int
    decreases s.len(),
{
    if s.len() == 0 {
        0
    } else if is_space_char(s[0]) {
        1 + start_trim(s.drop_first())
    } else {
        0
    }
}

/// How many blank characters `s` ends with.
pub open spec fn end_trim(s: Seq<char>) -> int
    decreases s.len(),
{
    if s.len() == 0 {
        0
    } else if is_space_char(s.last()) {
        1 + end_trim(s.drop_last())
    } else {
        0
    }
}

/// `s` without its leading and trailing blanks.
pub open spec fn trim_spec(s: Seq<char>) -> Seq<char> {
    let st = start_trim(s);
    let en = s.len() - end_trim(s);
    if st <= en {
        s.subrange(st, en)
    } else {
        Seq::empty()
    }
}

/// The trim counts stay within the sequence.
proof fn lemma_trim_bounds(s: Seq<char>)
    ensures
        0 <= start_trim(s) <= s.len(),
        0 <= end_trim(s) <= s.len(),
    decreases s.len(),
{
    if s.len() > 0 {
        lemma_trim_bounds(s.drop_first());
        lemma_trim_bounds(s.drop_last());
    }
}

/// `start_trim` counts exactly up to the first non-blank.
proof fn lemma_start_trim_at(s: Seq<char>, k: int)
    requires
        0 <= k <= s.len(),
        forall|m: int| 0 <= m < k ==> is_space_char(#[trigger] s[m]),
        k == s.len() || !is_space_char(s[k]),
    ensures
        start_trim(s) == k,
    decreases s.len(),
{
    if s.len() > 0 && k > 0 {
        assert(forall|m: int| 0 <= m < k - 1 ==> #[trigger] s.drop_first()[m] == s[m + 1]);
        lemma_start_trim_at(s.drop_first(), k - 1);
    }
}

/// `end_trim` counts exactly back to the last non-blank.
proof fn lemma_end_trim_at(s: Seq<char>, k: int)
    requires
        0 <= k <= s.len(),
        forall|m: int| s.len() - k <= m < s.len() ==> is_space_char(#[trigger] s[m]),
        k == s.len() || !is_space_char(s[s.len() - k - 1]),
    ensures
        end_trim(s) == k,
    decreases s.len(),
{
    if s.len() > 0 && k > 0 {
        assert(is_space_char(s.last()));
        assert(forall|m: int| 0 <= m < s.len() - 1 ==> #[trigger] s.drop_last()[m] == s[m]);
        lemma_end_trim_at(s.drop_last(), k - 1);
    }
}

/// Whether the character at `i` is blank.
fn is_space_at(s: &str, i: usize) -> (r: bool)
    requires
        i < s@.len(),
    ensures
        r == is_space_char(s@[i as int]),
{
    let u = s.get_char(i) as u32;
    u == 32 || u == 9 || u == 13
}

/// `s` without its leading and trailing blanks.
pub fn trim(s: &str) -> (r: &str)
    ensures
        r@ == trim_spec(s@),
{
    let n = s.unicode_len();
    let mut i: usize = 0;
    while i < n && is_space_at(s, i)
        invariant
            n == s@.len(),
            0 <= i <= n,
            forall|m: int| 0 <= m < i ==> is_space_char(#[trigger] s@[m]),
        decreases n - i,
    {
        i += 1;
    }
    proof {
        lemma_start_trim_at(s@, i as int);
    }
    let mut j: usize = n;
    while j > i && is_space_at(s, j - 1)
        invariant
            n == s@.len(),
            i <= j <= n,
            forall|m: int| j <= m < n ==> is_space_char(#[trigger] s@[m]),
            i < n ==> !is_space_char(s@[i as int]),
        decreases j,
    {
        j -= 1;
    }
    proof {
        lemma_trim_bounds(s@);
        if i == n {
            assert(j == n);
            assert(trim_spec(s@) =~= s@.subrange(i as int, j as int));
        } else {
            assert(j > i);
            assert(!is_space_char(s@[j - 1]));
            lemma_end_trim_at(s@, (n - j) as int);
            assert(trim_spec(s@) =~= s@.subrange(i as int, j as int));
        }
    }
    s.substring_char(i, j)
}

/// The lower-case code point of `c`, folding ASCII letters only.
pub open spec fn lower_code(c: char) -> int {
    if 65 <= c as u32 <= 90 {
        c as u32 + 32
    } else {
        (c as u32) as int
    }
}

/// Whether `a` equals `b` after folding ASCII upper case in `a`,
/// compared by code points. `b` is expected to be lower case already.
pub open spec fn eq_ignore_case_spec(a: Seq<char>, b: Seq<char>) -> bool {
    &&& a.len() == b.len()
    &&& forall|i: int| 0 <= i < a.len() ==> lower_code(#[trigger] a[i]) == b[i] as u32
}

/// Compare `s` with the (lower-case) `lit`, ignoring ASCII case in `s`.
pub fn eq_ignore_case(s: &str, lit: &str) -> (r: bool)
    ensures
        r == eq_ignore_case_spec(s@, lit@),
{
    let n = s.unicode_len();
    let m = lit.unicode_len();
    if n != m {
        return false;
    }
    let mut i: usize = 0;
    while i < n
        invariant
            n == s@.len(),
            n == lit@.len(),
            0 <= i <= n,
            forall|j: int| 0 <= j < i ==> lower_code(#[trigger] s@[j]) == lit@[j] as u32,
        decreases n - i,
    {
        let cs = s.get_char(i) as u32;
        let cl = lit.get_char(i) as u32;
        let folded = if 65 <= cs && cs <= 90 {
            cs + 32
        } else {
            cs
        };
        if folded != cl {
            proof {
                assert(lower_code(s@[i as int]) != lit@[i as int] as u32);
            }
            return false;
        }
        i += 1;
    }
    true
}

/// Ten to any power is positive.
proof fn pow10_pos(k: int)
    ensures
        pow10(k) >= 1,
    decreases k,
{
    if k > 0 {
        pow10_pos(k - 1);
    }
}

/// Concrete values of the first powers of ten.
proof fn pow10_small(k: int)
    ensures
        pow10(0) == 1,
        pow10(1) == 10,
        pow10(2) == 100,
        pow10(3) == 1000,
        pow10(4) == 10000,
{
}

/// The value of at most four fractional digits, scaled to
/// ten-thousandths, stays below ten thousand.
proof fn frac_scaled_bound(v: int, len: int)
    requires
        0 <= len <= 4,
        0 <= v < pow10(len),
    ensures
        0 <= v * pow10(4 - len) < 10000,
{
    pow10_small(len);
    pow10_pos(4 - len);
    assert(pow10(len) * pow10(4 - len) == 10000) by {
        pow10_small(4 - len);
    }
    assert(v * pow10(4 - len) <= (pow10(len) - 1) * pow10(4 - len)) by (nonlinear_arith)
        requires
            v <= pow10(len) - 1,
            pow10(4 - len) >= 1,
    ;
    assert((pow10(len) - 1) * pow10(4 - len) == pow10(len) * pow10(4 - len) - pow10(4 - len))
        by (nonlinear_arith);
    assert(v * pow10(4 - len) >= 0) by (nonlinear_arith)
        requires
            v >= 0,
            pow10(4 - len) >= 1,
    ;
}

/// A factor of at least one keeps a non-negative value at least as
/// large.
proof fn mul_ge(v: int, f: int)
    requires
        v >= 0,
        f >= 1,
    ensures
        v * f >= v,
{
    assert(v * f >= v) by (nonlinear_arith)
        requires
            v >= 0,
            f >= 1,
    ;
}

/// A product of non-negative factors is non-negative.
proof fn mul_nonneg(a: int, b: int)
    requires
        a >= 0,
        b >= 0,
    ensures
        a * b >= 0,
{
    assert(a * b >= 0) by (nonlinear_arith)
        requires
            a >= 0,
            b >= 0,
    ;
}

} // verus!

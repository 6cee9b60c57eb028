//! Character-level text helpers shared by the date and amount parsers:
//! decimal digits, splitting on a separator, and rendering numbers.

use vstd::prelude::*;
use vstd::string::StrSliceExecFns;
use vstd::string::StringExecFns;

verus! {

/// The character is a decimal digit.
pub open spec fn is_digit(c: char) -> bool {
    48 <= c as int && c as int <= 57
}

/// The numeric value of a decimal digit character.
pub open spec fn digit_val(c: char) -> int {
    c as int - 48
}

/// Every character of the sequence is a decimal digit.
pub open spec fn is_digit_seq(s: Seq<char>) -> bool {
    forall|i: int| 0 <= i < s.len() ==> is_digit(#[trigger] s[i])
}

/// The number written by a sequence of decimal digits, most significant
/// first.
pub open spec fn digit_seq_val(s: Seq<char>) -> int
    decreases s.len(),
{
    if s.len() == 0 {
        0
    } else {
        digit_seq_val(s.drop_last()) * 10 + digit_val(s.last())
    }
}

/// Ten to the given power.
pub open spec fn pow10(n: nat) -> int
    decreases n,
{
    if n == 0 {
        1
    } else {
        10 * pow10((n - 1) as nat)
    }
}

/// A digit sequence is never negative and stays below ten to its length.
pub proof fn lemma_digit_seq_val_bounds(s: Seq<char>)
    requires
        is_digit_seq(s),
    ensures
        0 <= digit_seq_val(s),
        digit_seq_val(s) < pow10(s.len()),
    decreases s.len(),
{
    if s.len() > 0 {
        assert(is_digit_seq(s.drop_last())) by {
            assert(forall|i: int|
                0 <= i < s.len() - 1 ==> #[trigger] s.drop_last()[i] == s[i]);
        }
        lemma_digit_seq_val_bounds(s.drop_last());
        assert(is_digit(s.last()));
    }
}

/// Extending a digit sequence on the right never lowers its value.
pub proof fn lemma_digit_seq_val_prefix_le(s: Seq<char>, i: int)
    requires
        is_digit_seq(s),
        0 <= i <= s.len(),
    ensures
        digit_seq_val(s.subrange(0, i)) <= digit_seq_val(s),
    decreases s.len() - i,
{
    if i < s.len() {
        lemma_digit_seq_val_prefix_le(s, i + 1);
        let t = s.subrange(0, i + 1);
        assert(is_digit_seq(t)) by {
            assert(forall|j: int| 0 <= j < t.len() ==> #[trigger] t[j] == s[j]);
        }
        assert(t.drop_last() =~= s.subrange(0, i));
        lemma_digit_seq_val_bounds(s.subrange(0, i));
        assert(is_digit(t.last()));
        assert(digit_seq_val(t) == digit_seq_val(s.subrange(0, i)) * 10 + digit_val(t.last()));
        assert(digit_seq_val(s.subrange(0, i)) <= digit_seq_val(t));
    } else {
        assert(s.subrange(0, i) =~= s);
    }
}

/// The value of a one-digit sequence is the digit's value.
pub proof fn lemma_digit_seq_val_singleton(c: char)
    ensures
        digit_seq_val(seq![c]) == digit_val(c),
{
    assert(seq![c].drop_last() =~= Seq::<char>::empty());
    assert(digit_seq_val(Seq::<char>::empty()) == 0);
}

/// Appending a digit multiplies the value by ten and adds the digit.
pub proof fn lemma_digit_seq_val_push(s: Seq<char>, c: char)
    ensures
        digit_seq_val(s.push(c)) == digit_seq_val(s) * 10 + digit_val(c),
{
    assert(s.push(c).drop_last() =~= s);
    assert(s.push(c).last() == c);
}

/// The digit character with the given value.
pub open spec fn digit_char(n: int) -> char
    recommends
        0 <= n <= 9,
{
    if n == 0 {
        '0'
    } else if n == 1 {
        '1'
    } else if n == 2 {
        '2'
    } else if n == 3 {
        '3'
    } else if n == 4 {
        '4'
    } else if n == 5 {
        '5'
    } else if n == 6 {
        '6'
    } else if n == 7 {
        '7'
    } else if n == 8 {
        '8'
    } else {
        '9'
    }
}

/// `digit_char` and `digit_val` are inverse on single digits.
pub proof fn lemma_digit_char_val(n: int)
    requires
        0 <= n <= 9,
    ensures
        is_digit(digit_char(n)),
        digit_val(digit_char(n)) == n,
{
}

/// The decimal writing of a non-negative number, without leading zeros.
pub open spec fn dec_str(n: int) -> Seq<char>
    recommends
        n >= 0,
    decreases n,
{
    if n < 10 {
        seq![digit_char(n)]
    } else {
        dec_str(n / 10).push(digit_char(n % 10))
    }
}

/// The two-character, zero-padded decimal writing of a number below 100.
pub open spec fn dec2_str(n: int) -> Seq<char> {
    seq![digit_char(n / 10 % 10), digit_char(n % 10)]
}

/// The four-character, zero-padded decimal writing of a number below
/// 10000: its hundreds followed by its remainder, two digits each.
pub open spec fn dec4_str(n: int) -> Seq<char> {
    dec2_str(n / 100) + dec2_str(n % 100)
}

/// Concatenating digit sequences shifts the left one by the length of the
/// right one.
pub proof fn lemma_digit_seq_val_append(a: Seq<char>, b: Seq<char>)
    ensures
        digit_seq_val(a + b) == digit_seq_val(a) * pow10(b.len()) + digit_seq_val(b),
    decreases b.len(),
{
    if b.len() == 0 {
        assert(a + b =~= a);
    } else {
        let b0 = b.drop_last();
        let c = b.last();
        lemma_digit_seq_val_append(a, b0);
        assert(a + b =~= (a + b0).push(c));
        lemma_digit_seq_val_push(a + b0, c);
        assert(pow10(b.len()) == 10 * pow10(b0.len()));
        assert((digit_seq_val(a) * pow10(b0.len()) + digit_seq_val(b0)) * 10 == digit_seq_val(a)
            * (10 * pow10(b0.len())) + digit_seq_val(b0) * 10) by (nonlinear_arith);
    }
}

/// `dec2_str` writes two digits whose value is the number itself.
pub proof fn lemma_dec2_str_val(n: int)
    requires
        0 <= n <= 99,
    ensures
        dec2_str(n).len() == 2,
        is_digit_seq(dec2_str(n)),
        digit_seq_val(dec2_str(n)) == n,
{
    lemma_digit_char_val(n / 10 % 10);
    lemma_digit_char_val(n % 10);
    let a = digit_char(n / 10 % 10);
    let b = digit_char(n % 10);
    assert(dec2_str(n) =~= seq![a].push(b));
    lemma_digit_seq_val_singleton(a);
    lemma_digit_seq_val_push(seq![a], b);
    assert(digit_seq_val(dec2_str(n)) == (n / 10 % 10) * 10 + n % 10);
    assert(n / 10 % 10 == n / 10);
}

/// `dec4_str` writes four digits whose value is the number itself.
pub proof fn lemma_dec4_str_val(n: int)
    requires
        0 <= n <= 9999,
    ensures
        dec4_str(n).len() == 4,
        is_digit_seq(dec4_str(n)),
        digit_seq_val(dec4_str(n)) == n,
{
    lemma_dec2_str_val(n / 100);
    lemma_dec2_str_val(n % 100);
    lemma_digit_seq_val_append(dec2_str(n / 100), dec2_str(n % 100));
    assert(pow10(0) == 1);
    assert(pow10(1) == 10);
    assert(pow10(2) == 100);
    assert(digit_seq_val(dec4_str(n)) == (n / 100) * 100 + n % 100);
    assert(forall|i: int|
        0 <= i < dec4_str(n).len() ==> is_digit(#[trigger] dec4_str(n)[i]));
}

/// Splitting a character sequence on a separator, as the usual string
/// split does: one more component than there are separators, components
/// possibly empty.
pub open spec fn split_chars(s: Seq<char>, sep: char) -> Seq<Seq<char>>
    decreases s.len(),
{
    if s.len() == 0 {
        seq![Seq::<char>::empty()]
    } else {
        let rest = split_chars(s.drop_last(), sep);
        if s.last() == sep {
            rest.push(Seq::<char>::empty())
        } else {
            rest.update(rest.len() - 1, rest.last().push(s.last()))
        }
    }
}

/// A split always has at least one component.
pub proof fn lemma_split_chars_len(s: Seq<char>, sep: char)
    ensures
        split_chars(s, sep).len() >= 1,
    decreases s.len(),
{
    if s.len() > 0 {
        lemma_split_chars_len(s.drop_last(), sep);
    }
}

/// A sequence without the separator splits into itself alone.
pub proof fn lemma_split_chars_no_sep(s: Seq<char>, sep: char)
    requires
        !s.contains(sep),
    ensures
        split_chars(s, sep) =~~= seq![s],
    decreases s.len(),
{
    if s.len() > 0 {
        assert(!s.drop_last().contains(sep)) by {
            assert(forall|i: int|
                0 <= i < s.len() - 1 ==> #[trigger] s.drop_last()[i] == s[i]);
        }
        lemma_split_chars_no_sep(s.drop_last(), sep);
        assert(s.last() != sep);
        assert(s.drop_last().push(s.last()) =~= s);
    }
}

/// Splitting a sequence built as `a`, the separator, then `b`, where `a`
/// holds no separator, yields `a` followed by the components of `b`.
pub proof fn lemma_split_chars_concat(a: Seq<char>, b: Seq<char>, sep: char)
    requires
        !a.contains(sep),
    ensures
        split_chars(a + seq![sep] + b, sep) =~~= seq![a] + split_chars(b, sep),
    decreases b.len(),
{
    lemma_split_chars_len(b, sep);
    if b.len() == 0 {
        let s = a + seq![sep] + b;
        assert(s =~= a.push(sep));
        assert(s.drop_last() =~= a);
        lemma_split_chars_no_sep(a, sep);
        assert(split_chars(s, sep) =~~= seq![a].push(Seq::<char>::empty()));
    } else {
        lemma_split_chars_concat(a, b.drop_last(), sep);
        lemma_split_chars_len(b.drop_last(), sep);
        let s = a + seq![sep] + b;
        assert(s.drop_last() =~= a + seq![sep] + b.drop_last());
        assert(s.last() == b.last());
        let rest = split_chars(a + seq![sep] + b.drop_last(), sep);
        assert(rest =~~= seq![a] + split_chars(b.drop_last(), sep));
        if b.last() == sep {
            assert(split_chars(s, sep) =~~= rest.push(Seq::<char>::empty()));
            assert(split_chars(b, sep) =~~= split_chars(b.drop_last(), sep).push(
                Seq::<char>::empty(),
            ));
        } else {
            let inner = split_chars(b.drop_last(), sep);
            assert(rest.len() == 1 + inner.len());
            assert(rest.last() == inner.last());
            assert(split_chars(s, sep) =~~= rest.update(
                rest.len() - 1,
                rest.last().push(b.last()),
            ));
            assert(split_chars(b, sep) =~~= inner.update(
                inner.len() - 1,
                inner.last().push(b.last()),
            ));
        }
    }
}

/// Replacing every occurrence of one character by another.
pub open spec fn replace_chars(s: Seq<char>, from: char, to: char) -> Seq<char> {
    s.map_values(|c: char| if c == from { to } else { c })
}

/// Relies on `String::push` of std: appends exactly one character.
#[verifier::external_body]
pub fn push_char(s: &mut String, c: char)
    ensures
        final(s)@ == old(s)@.push(c),
{
    s.push(c);
}

/// Appends the character of a single digit.
fn push_digit(s: &mut String, d: u64)
    requires
        d <= 9,
    ensures
        final(s)@ == old(s)@ + seq![digit_char(d as int)],
{
    let c: &str = match d {
        0 => "0",
        1 => "1",
        2 => "2",
        3 => "3",
        4 => "4",
        5 => "5",
        6 => "6",
        7 => "7",
        8 => "8",
        _ => "9",
    };
    proof {
        reveal_strlit("0");
        reveal_strlit("1");
        reveal_strlit("2");
        reveal_strlit("3");
        reveal_strlit("4");
        reveal_strlit("5");
        reveal_strlit("6");
        reveal_strlit("7");
        reveal_strlit("8");
        reveal_strlit("9");
        assert(c@ =~= seq![digit_char(d as int)]);
    }
    s.append(c);
}

/// Appends the decimal writing of a number, without leading zeros.
pub fn push_u64_dec(s: &mut String, n: u64)
    ensures
        final(s)@ == old(s)@ + dec_str(n as int),
    decreases n,
{
    if n >= 10 {
        push_u64_dec(s, n / 10);
    }
    push_digit(s, n % 10);
    proof {
        if n < 10 {
            assert(n % 10 == n);
        }
    }
}

/// Appends the two-digit, zero-padded decimal writing of a number's last
/// two digits.
pub fn push_dec2(s: &mut String, n: u64)
    ensures
        final(s)@ == old(s)@ + dec2_str(n as int),
{
    push_digit(s, n / 10 % 10);
    push_digit(s, n % 10);
    proof {
        assert(old(s)@ + seq![digit_char(n as int / 10 % 10)] + seq![digit_char(n as int % 10)]
            =~= old(s)@ + dec2_str(n as int));
    }
}

/// Appends the four-digit, zero-padded decimal writing of a number's last
/// four digits.
pub fn push_dec4(s: &mut String, n: u64)
    ensures
        final(s)@ == old(s)@ + dec4_str(n as int),
{
    push_dec2(s, n / 100);
    push_dec2(s, n % 100);
    proof {
        assert(n as int / 100 == n / 100);
        assert(n as int % 100 == n % 100);
        assert(old(s)@ + dec2_str(n as int / 100) + dec2_str(n as int % 100) =~= old(s)@
            + dec4_str(n as int));
    }
}

/// Splits a string on a separator character, like the standard split:
/// the components between the separators, in order, possibly empty.
pub fn split_str(s: &str, sep: char) -> (r: Vec<String>)
    ensures
        r.deep_view() == split_chars(s@, sep),
{
    let n = s.unicode_len();
    let mut parts: Vec<String> = Vec::new();
    let mut cur: String = String::new();
    let mut i: usize = 0;
    proof {
        assert(s@.subrange(0, 0) =~= Seq::<char>::empty());
        assert(parts.deep_view().push(cur@) =~~= split_chars(s@.subrange(0, 0), sep));
    }
    while i < n
        invariant
            i <= n,
            n == s@.len(),
            parts.deep_view().push(cur@) == split_chars(s@.subrange(0, i as int), sep),
        decreases n - i,
    {
        let ghost parts0 = parts.deep_view();
        let ghost cur0 = cur@;
        let c = s.get_char(i);
        if c == sep {
            parts.push(cur);
            cur = String::new();
        } else {
            push_char(&mut cur, c);
        }
        i = i + 1;
        proof {
            let pre = s@.subrange(0, i - 1);
            let now = s@.subrange(0, i as int);
            assert(now.drop_last() =~= pre);
            assert(now.last() == c);
            let rest = split_chars(pre, sep);
            assert(rest == parts0.push(cur0));
            if c == sep {
                assert(parts.deep_view() =~~= parts0.push(cur0));
                assert(parts.deep_view().push(cur@) =~~= rest.push(Seq::<char>::empty()));
            } else {
                assert(rest.last() == cur0);
                assert(parts.deep_view().push(cur@) =~~= rest.update(
                    rest.len() - 1,
                    rest.last().push(c),
                ));
            }
        }
    }
    proof {
        assert(s@.subrange(0, n as int) =~= s@);
    }
    parts.push(cur);
    proof {
        assert(parts.deep_view() =~~= split_chars(s@, sep));
    }
    parts
}

/// Parses a non-empty, all-digit string whose value does not exceed
/// `max`; anything else is absence.
pub fn parse_digits_max(s: &str, max: u64) -> (r: Option<u64>)
    ensures
        r is Some <==> s@.len() > 0 && is_digit_seq(s@) && digit_seq_val(s@) <= max,
        r matches Some(v) ==> v == digit_seq_val(s@),
{
    let n = s.unicode_len();
    if n == 0 {
        return None;
    }
    let mut acc: u64 = 0;
    let mut i: usize = 0;
    proof {
        assert(s@.subrange(0, 0) =~= Seq::<char>::empty());
    }
    while i < n
        invariant
            i <= n,
            0 < n == s@.len(),
            is_digit_seq(s@.subrange(0, i as int)),
            acc == digit_seq_val(s@.subrange(0, i as int)),
            acc <= max,
        decreases n - i,
    {
        let ghost pre = s@.subrange(0, i as int);
        let c = s.get_char(i);
        let u = c as u32;
        if u < 48 || u > 57 {
            proof {
                assert(!is_digit(s@[i as int]));
            }
            return None;
        }
        let d = (u - 48) as u64;
        proof {
            assert(is_digit(c) && d == digit_val(c));
            assert(s@.subrange(0, i + 1).drop_last() =~= pre);
            assert(s@.subrange(0, i + 1).last() == c);
            assert(forall|j: int|
                0 <= j < i + 1 ==> #[trigger] s@.subrange(0, i + 1)[j] == s@[j]);
            assert(is_digit_seq(s@.subrange(0, i + 1)));
            assert(digit_seq_val(s@.subrange(0, i + 1)) == acc * 10 + d);
        }
        if acc > max / 10 || (acc == max / 10 && d > max % 10) {
            proof {
                assert(max / 10 * 10 + max % 10 == max);
                assert(acc * 10 + d > max);
                if is_digit_seq(s@) {
                    lemma_digit_seq_val_prefix_le(s@, i + 1);
                }
            }
            return None;
        }
        proof {
            assert(max / 10 * 10 + max % 10 == max);
            if acc < max / 10 {
                assert(acc * 10 <= (max / 10 - 1) * 10);
            }
            assert(acc * 10 + d <= max);
        }
        acc = acc * 10 + d;
        i = i + 1;
    }
    proof {
        assert(s@.subrange(0, n as int) =~= s@);
    }
    Some(acc)
}

/// A non-empty, all-digit sequence read as a `u32`; absence where a
/// character is no digit or the value does not fit.
pub open spec fn spec_parse_u32(s: Seq<char>) -> Option<u32> {
    if s.len() > 0 && is_digit_seq(s) && digit_seq_val(s) <= u32::MAX {
        Some(digit_seq_val(s) as u32)
    } else {
        None
    }
}

/// Parses a string of digits as a `u32`, per [`spec_parse_u32`].
pub fn parse_u32_digits(s: &str) -> (r: Option<u32>)
    ensures
        r == spec_parse_u32(s@),
{
    match parse_digits_max(s, 0xffff_ffff) {
        Some(v) => Some(v as u32),
        None => None,
    }
}

/// Replaces every occurrence of one character by another.
pub fn replace_char(s: &str, from: char, to: char) -> (r: String)
    ensures
        r@ == replace_chars(s@, from, to),
{
    let n = s.unicode_len();
    let mut out = String::new();
    let mut i: usize = 0;
    proof {
        assert(s@.subrange(0, 0) =~= Seq::<char>::empty());
        assert(out@ =~= replace_chars(s@.subrange(0, 0), from, to));
    }
    while i < n
        invariant
            i <= n,
            n == s@.len(),
            out@ == replace_chars(s@.subrange(0, i as int), from, to),
        decreases n - i,
    {
        let ghost pre = s@.subrange(0, i as int);
        let c = s.get_char(i);
        if c == from {
            push_char(&mut out, to);
        } else {
            push_char(&mut out, c);
        }
        i = i + 1;
        proof {
            assert(s@.subrange(0, i as int) =~= pre.push(c));
            assert(replace_chars(pre.push(c), from, to) =~= replace_chars(pre, from, to).push(
                if c == from {
                    to
                } else {
                    c
                },
            ));
        }
    }
    proof {
        assert(s@.subrange(0, n as int) =~= s@);
    }
    out
}

} // verus!

//! Numbers as text: decimal digits, upper-case hexadecimal digits and the
//! normalized scientific notation of an integer.

use vstd::prelude::*;
use vstd::string::StringExecFns;

verus! {

/// The sixteen digits, the letters in upper case.
pub open spec fn digits() -> Seq<char> {
    seq!['0', '1', '2', '3', '4', '5', '6', '7', '8', '9', 'A', 'B', 'C', 'D', 'E', 'F']
}

/// The digit for `d`, a number below sixteen.
pub open spec fn digit(d: int) -> char {
    digits()[d]
}

/// A natural number in decimal, without leading zeros.
pub open spec fn nat_text(n: nat) -> Seq<char>
    decreases n,
{
    if n < 10 {
        seq![digit(n as int)]
    } else {
        nat_text(n / 10).push(digit((n % 10) as int))
    }
}

/// An integer in decimal, a negative one behind a minus sign.
pub open spec fn decimal_text(v: int) -> Seq<char> {
    if v < 0 {
        seq!['-'] + nat_text((-v) as nat)
    } else {
        nat_text(v as nat)
    }
}

/// A byte as two hexadecimal digits, the letters in upper case.
pub open spec fn hex_byte(b: u8) -> Seq<char> {
    seq![digit(b as int / 16), digit(b as int % 16)]
}

/// Bytes as hexadecimal digits, two for each byte, in their order.
pub open spec fn hex_text(bytes: Seq<u8>) -> Seq<char>
    decreases bytes.len(),
{
    if bytes.len() == 0 {
        Seq::<char>::empty()
    } else {
        hex_text(bytes.drop_last()) + hex_byte(bytes.last())
    }
}

/// `s` without the run of `c` at its end.
pub open spec fn without_trailing(s: Seq<char>, c: char) -> Seq<char>
    decreases s.len(),
{
    if s.len() > 0 && s.last() == c {
        without_trailing(s.drop_last(), c)
    } else {
        s
    }
}

/// The mantissa of the number with the decimal digits `d`: a point behind
/// the first digit where more digits follow, then the zeros at the end
/// taken away, then a point left standing at the end.
pub open spec fn mantissa(d: Seq<char>) -> Seq<char> {
    let pointed = if d.len() > 1 {
        seq![d[0], '.'] + d.skip(1)
    } else {
        d
    };
    without_trailing(without_trailing(pointed, '0'), '.')
}

/// An integer in normalized scientific notation: the sign, the mantissa,
/// the letter E and the exponent, which is the number of digits less one.
/// Zero is `0E0`.
pub open spec fn scientific_text(v: int) -> Seq<char> {
    if v == 0 {
        seq!['0', 'E', '0']
    } else {
        let d = nat_text((if v < 0 { -v } else { v }) as nat);
        (if v < 0 { seq!['-'] } else { Seq::<char>::empty() }) + mantissa(d) + seq!['E'] + nat_text(
            (d.len() - 1) as nat,
        )
    }
}

/// The text of one digit.
pub(crate) fn digit_str(d: u8) -> (s: &'static str)
    requires
        d < 16,
    ensures
        s@ == seq![digit(d as int)],
{
    proof {
        reveal_strlit("0");
        reveal_strlit("1");
        reveal_strlit("2");
        reveal_strlit("3");
        reveal_strlit("4");
        reveal_strlit("5");
        reveal_strlit("6");
        reveal_strlit("7");
        reveal_strlit("8");
        reveal_strlit("9");
        reveal_strlit("A");
        reveal_strlit("B");
        reveal_strlit("C");
        reveal_strlit("D");
        reveal_strlit("E");
        reveal_strlit("F");
    }
    let s = match d {
        0 => "0",
        1 => "1",
        2 => "2",
        3 => "3",
        4 => "4",
        5 => "5",
        6 => "6",
        7 => "7",
        8 => "8",
        9 => "9",
        10 => "A",
        11 => "B",
        12 => "C",
        13 => "D",
        14 => "E",
        _ => "F",
    };
    assert(s@ =~= seq![digit(d as int)]);
    s
}

/// Appends a natural number in decimal.
pub(crate) fn push_nat(out: &mut String, n: u64)
    ensures
        final(out)@ == old(out)@ + nat_text(n as nat),
    decreases n,
{
    if n >= 10 {
        push_nat(out, n / 10);
    }
    out.append(digit_str((n % 10) as u8));
    assert(out@ =~= old(out)@ + nat_text(n as nat));
}

/// Appends an integer in decimal.
pub(crate) fn push_decimal(out: &mut String, v: i64)
    ensures
        final(out)@ == old(out)@ + decimal_text(v as int),
{
    if v < 0 {
        proof {
            reveal_strlit("-");
        }
        out.append("-");
        push_nat(out, (-(v as i128)) as u64);
        assert(out@ =~= old(out)@ + decimal_text(v as int));
    } else {
        push_nat(out, v as u64);
    }
}

/// An integer in decimal.
pub fn decimal_string(v: i64) -> (out: String)
    ensures
        out@ == decimal_text(v as int),
{
    let mut out = String::new();
    push_decimal(&mut out, v);
    assert(out@ =~= decimal_text(v as int));
    out
}

/// Appends a byte as two hexadecimal digits.
pub(crate) fn push_hex_byte(out: &mut String, b: u8)
    ensures
        final(out)@ == old(out)@ + hex_byte(b),
{
    out.append(digit_str(b / 16));
    out.append(digit_str(b % 16));
    assert(out@ =~= old(out)@ + hex_byte(b));
}

/// Bytes as upper-case hexadecimal text.
pub fn hex_upper(bytes: &[u8]) -> (out: String)
    ensures
        out@ == hex_text(bytes@),
{
    let mut out = String::new();
    let mut i: usize = 0;
    while i < bytes.len()
        invariant
            i <= bytes.len(),
            out@ == hex_text(bytes@.take(i as int)),
        decreases bytes.len() - i,
    {
        push_hex_byte(&mut out, bytes[i]);
        proof {
            let next = bytes@.take(i + 1);
            assert(next.drop_last() =~= bytes@.take(i as int));
        }
        i += 1;
    }
    assert(bytes@.take(i as int) =~= bytes@);
    out
}

/// One of the ten decimal digits.
pub open spec fn is_decimal(c: char) -> bool {
    exists|d: int| 0 <= d < 10 && c == digit(d)
}

/// The decimal text of a natural number is made of decimal digits, at least
/// one of them, and begins with 0 only where the number is 0.
pub proof fn lemma_nat_text_digits(n: nat)
    ensures
        nat_text(n).len() >= 1,
        forall|i: int| 0 <= i < nat_text(n).len() ==> is_decimal(#[trigger] nat_text(n)[i]),
        n > 0 ==> nat_text(n)[0] != '0',
        n == 0 ==> nat_text(n) == seq!['0'],
    decreases n,
{
    if n < 10 {
        assert(is_decimal(digit(n as int)));
    } else {
        lemma_nat_text_digits(n / 10);
        assert(is_decimal(digit((n % 10) as int)));
    }
}

/// A decimal digit is neither a point nor a minus sign.
pub proof fn lemma_decimal_is_no_mark(c: char)
    requires
        is_decimal(c),
    ensures
        c != '.',
        c != '-',
{
}

/// A run of `c` from `k` on does not show in what is left without it.
pub proof fn lemma_without_trailing_run(s: Seq<char>, c: char, k: int)
    requires
        0 <= k <= s.len(),
        forall|j: int| k <= j < s.len() ==> s[j] == c,
    ensures
        without_trailing(s, c) == without_trailing(s.take(k), c),
    decreases s.len() - k,
{
    if k == s.len() {
        assert(s.take(k) =~= s);
    } else {
        lemma_without_trailing_run(s.drop_last(), c, k);
        assert(s.drop_last().take(k) =~= s.take(k));
    }
}

/// The mantissa of digits that begin with a digit other than 0 and are all
/// 0 from `k` on, with `k` as small as can be: the first digit, and behind
/// a point the digits up to `k`, where there are any.
pub proof fn lemma_mantissa_of_digits(d: Seq<char>, k: int)
    requires
        1 <= k <= d.len(),
        forall|j: int| 0 <= j < d.len() ==> is_decimal(#[trigger] d[j]),
        d[0] != '0',
        forall|j: int| k <= j < d.len() ==> d[j] == '0',
        k > 1 ==> d[k - 1] != '0',
    ensures
        mantissa(d) == if k > 1 {
            seq![d[0], '.'] + d.subrange(1, k)
        } else {
            seq![d[0]]
        },
{
    lemma_decimal_is_no_mark(d[0]);
    if d.len() == 1 {
        assert(without_trailing(d, '0') == d);
        assert(without_trailing(d, '.') == d);
        assert(d =~= seq![d[0]]);
    } else {
        let pointed = seq![d[0], '.'] + d.skip(1);
        assert forall|j: int| k + 1 <= j < pointed.len() implies pointed[j] == '0' by {
            assert(pointed[j] == d[j - 1]);
        }
        lemma_without_trailing_run(pointed, '0', k + 1);
        let cut = pointed.take(k + 1);
        if k > 1 {
            assert(cut.last() == d[k - 1]);
            lemma_decimal_is_no_mark(d[k - 1]);
            assert(without_trailing(cut, '0') == cut);
            assert(without_trailing(cut, '.') == cut);
            assert(cut =~= seq![d[0], '.'] + d.subrange(1, k));
        } else {
            assert(cut =~= seq![d[0], '.']);
            assert(without_trailing(cut, '0') == cut);
            assert(cut.drop_last() =~= seq![d[0]]);
            assert(without_trailing(seq![d[0]], '.') == seq![d[0]]);
            assert(without_trailing(cut, '.') == seq![d[0]]);
        }
    }
}

/// Hexadecimal text has two digits for each byte.
pub proof fn lemma_hex_text_len(bytes: Seq<u8>)
    ensures
        hex_text(bytes).len() == 2 * bytes.len(),
    decreases bytes.len(),
{
    if bytes.len() > 0 {
        lemma_hex_text_len(bytes.drop_last());
    }
}

} // verus!

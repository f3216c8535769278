//! Whole numbers in decimal notation.

use vstd::prelude::*;
use vstd::string::*;

verus! {

/// The ASCII decimal notation of `n`, without leading zeros.
pub open spec fn decimal(n: nat) -> Seq<u8>
    decreases n,
{
    if n < 10 {
        seq![(48 + n) as u8]
    } else {
        decimal(n / 10).push((48 + n % 10) as u8)
    }
}

/// The decimal notation of `n` as text.
pub open spec fn decimal_text(n: nat) -> Seq<char> {
    decimal(n).map_values(|b: u8| b as char)
}

/// Whether every byte of `s` is an ASCII digit.
pub open spec fn all_digits(s: Seq<u8>) -> bool {
    forall|i: int| 0 <= i < s.len() ==> 48 <= #[trigger] s[i] <= 57
}

/// The number that the digits `s` denote.
pub open spec fn decimal_value(s: Seq<u8>) -> nat
    decreases s.len(),
{
    if s.len() == 0 {
        0
    } else {
        decimal_value(s.drop_last()) * 10 + (s.last() - 48) as nat
    }
}

/// `s` without the plus sign that may stand before a number.
pub open spec fn unsigned_part(s: Seq<u8>) -> Seq<u8> {
    if s.len() > 0 && s[0] == 43 {
        s.skip(1)
    } else {
        s
    }
}

/// The 16-bit number that `s` denotes: at least one digit and nothing else, but for one plus sign
/// before the digits. Leading zeros are allowed.
pub open spec fn number_u16(s: Seq<u8>) -> Option<u16> {
    let digits = unsigned_part(s);
    if digits.len() > 0 && all_digits(digits) && decimal_value(digits) <= u16::MAX {
        Some(decimal_value(digits) as u16)
    } else {
        None
    }
}

/// More digits never denote a smaller number.
proof fn lemma_value_grows(s: Seq<u8>, i: int)
    requires
        all_digits(s),
        0 <= i <= s.len(),
    ensures
        decimal_value(s.take(i)) <= decimal_value(s),
    decreases s.len(),
{
    if i == s.len() {
        assert(s.take(i) =~= s);
    } else {
        assert(s.drop_last().take(i) =~= s.take(i));
        lemma_value_grows(s.drop_last(), i);
    }
}

/// Reading the notation of a number gives the number back: the digits of `n` are digits, there is
/// at least one, and they denote `n`.
pub proof fn law_decimal_denotes(n: nat)
    ensures
        decimal(n).len() > 0,
        all_digits(decimal(n)),
        decimal_value(decimal(n)) == n,
        number_u16(decimal(n)) == (if n <= u16::MAX {
            Some(n as u16)
        } else {
            None
        }),
    decreases n,
{
    if n < 10 {
        assert(decimal(n).drop_last() =~= Seq::<u8>::empty());
        assert(decimal_value(decimal(n).drop_last()) == 0);
    } else {
        law_decimal_denotes(n / 10);
        assert(decimal(n).drop_last() =~= decimal(n / 10));
    }
    assert(unsigned_part(decimal(n)) == decimal(n));
}

/// Reads a 16-bit number.
pub fn parse_u16(s: &[u8]) -> (r: Option<u16>)
    ensures
        r == number_u16(s@),
{
    let start: usize = if s.len() > 0 && s[0] == 43 { 1 } else { 0 };
    let ghost digits = unsigned_part(s@);
    assert(digits =~= s@.skip(start as int));
    if start == s.len() {
        return None;
    }
    let mut value: u32 = 0;
    let mut i: usize = start;
    assert(digits.take(0) =~= Seq::<u8>::empty());
    while i < s.len()
        invariant
            start <= i <= s.len(),
            start < s.len(),
            digits == s@.skip(start as int),
            digits == unsigned_part(s@),
            value <= u16::MAX,
            all_digits(digits.take(i - start)),
            value == decimal_value(digits.take(i - start)),
        decreases s.len() - i,
    {
        let b: u8 = s[i];
        let ghost k = i - start;
        assert(digits[k] == b);
        if b < 48 || b > 57 {
            return None;
        }
        assert(digits.take(k + 1).drop_last() =~= digits.take(k));
        assert(digits.take(k + 1) =~= digits.take(k).push(b));
        value = value * 10 + (b - 48) as u32;
        if value > 65535 {
            proof {
                if all_digits(digits) {
                    lemma_value_grows(digits, k + 1);
                }
            }
            return None;
        }
        i += 1;
    }
    assert(digits.take(digits.len() as int) =~= digits);
    Some(value as u16)
}

/// Appends the decimal notation of `n`.
pub fn push_decimal(out: &mut Vec<u8>, n: u32)
    ensures
        final(out)@ == old(out)@ + decimal(n as nat),
    decreases n,
{
    if n >= 10 {
        push_decimal(out, n / 10);
    }
    out.push(48 + (n % 10) as u8);
}

/// The digit `d` as text.
fn digit(d: u32) -> (r: &'static str)
    requires
        d < 10,
    ensures
        r@ == seq![((48 + d) as u8) as char],
{
    proof {
        reveal_strlit("0");
        reveal_strlit("1");
        reveal_strlit("2");
        reveal_strlit("3");
        reveal_strlit("4");
        reveal_strlit("5");
        reveal_strlit("6");
        reveal_strlit("7");
        reveal_strlit("8");
        reveal_strlit("9");
    }
    let r = match d {
        0 => "0",
        1 => "1",
        2 => "2",
        3 => "3",
        4 => "4",
        5 => "5",
        6 => "6",
        7 => "7",
        8 => "8",
        _ => "9",
    };
    assert(r@ =~= seq![((48 + d) as u8) as char]);
    r
}

/// Appends the decimal notation of `n` as text.
pub fn append_decimal(out: &mut String, n: u32)
    ensures
        final(out)@ == old(out)@ + decimal_text(n as nat),
    decreases n,
{
    if n >= 10 {
        append_decimal(out, n / 10);
    }
    out.append(digit(n % 10));
    assert(out@ =~= old(out)@ + decimal_text(n as nat));
}

/// A digit more makes a number ten times as large and adds the digit. If `s` is read as `r`, then `s`
/// and one more byte `d` is read as `10 * r` and the digit `d`, where that fits in 16 bits. A first
/// digit, also after a plus sign, stands for itself. No other byte may end a number, and what is no
/// number does not become one.
pub proof fn law_parse_u16_by_digits(
    s: &[u8],
    longer: &[u8],
    d: u8,
    r: Option<u16>,
    r_longer: Option<u16>,
)
    requires
        call_ensures(parse_u16, (s,), r),
        call_ensures(parse_u16, (longer,), r_longer),
        longer@ == s@.push(d),
    ensures
        s@.len() == 0 ==> r is None,
        !(48 <= d <= 57) ==> r_longer is None,
        48 <= d <= 57 && (s@.len() == 0 || s@ == seq![43u8]) ==> r_longer == Some((d - 48) as u16),
        48 <= d <= 57 && s@.len() > 0 && s@ != seq![43u8] ==> match r {
            Some(a) => if 10 * a + (d - 48) <= 65535 {
                r_longer == Some((10 * a + (d - 48)) as u16)
            } else {
                r_longer is None
            },
            None => r_longer is None,
        },
{
    let u = unsigned_part(s@);
    let v = unsigned_part(longer@);
    if s@.len() == 0 {
        assert(longer@ =~= seq![d]);
        assert(d == 43 ==> v =~= Seq::<u8>::empty());
        if d != 43 {
            assert(v[0] == d);
            assert(v.drop_last() =~= Seq::<u8>::empty());
            assert(decimal_value(v.drop_last()) == 0);
        }
    } else {
        assert(longer@[0] == s@[0]);
        assert(v =~= u.push(d));
        assert(v.drop_last() =~= u);
        assert(v[v.len() - 1] == d);
        if u.len() == 0 {
            assert(s@ =~= seq![43u8]);
            assert(decimal_value(u) == 0);
        } else if all_digits(u) && 48 <= d <= 57 {
            assert(all_digits(v));
        } else if !all_digits(u) {
            let k = choose|k: int| 0 <= k < u.len() && !(48 <= #[trigger] u[k] <= 57);
            assert(v[k] == u[k]);
        }
        if s@ == seq![43u8] {
            assert(u =~= Seq::<u8>::empty());
        }
    }
}

/// The notation of a number below ten is its digit, and the notation of any other is that of a tenth
/// of it, followed by the last digit. Nothing before it changes.
pub proof fn law_push_decimal_by_digits(out: &mut Vec<u8>, tenth: &mut Vec<u8>, n: u32)
    requires
        call_ensures(push_decimal, (out, n), ()),
        call_ensures(push_decimal, (tenth, n / 10), ()),
        old(out)@ == old(tenth)@,
    ensures
        n < 10 ==> final(out)@ == old(out)@.push((48 + n) as u8),
        n >= 10 ==> final(out)@ == final(tenth)@.push((48 + n % 10) as u8),
{
    assert(n < 10 ==> old(out)@ + decimal(n as nat) =~= old(out)@.push((48 + n) as u8));
    assert(n >= 10 ==> old(out)@ + decimal(n as nat) =~= (old(out)@ + decimal(
        (n / 10) as nat,
    )).push((48 + n % 10) as u8));
}

/// The same of numbers that are written as text.
pub proof fn law_append_decimal_by_digits(out: &mut String, tenth: &mut String, n: u32)
    requires
        call_ensures(append_decimal, (out, n), ()),
        call_ensures(append_decimal, (tenth, n / 10), ()),
        old(out)@ == old(tenth)@,
    ensures
        n < 10 ==> final(out)@ == old(out)@.push((48 + n) as char),
        n >= 10 ==> final(out)@ == final(tenth)@.push((48 + n % 10) as char),
{
    assert(n < 10 ==> old(out)@ + decimal_text(n as nat) =~= old(out)@.push((48 + n) as char));
    assert(n >= 10 ==> old(out)@ + decimal_text(n as nat) =~= (old(out)@ + decimal_text(
        (n / 10) as nat,
    )).push((48 + n % 10) as char));
}

} // verus!

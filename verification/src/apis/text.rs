//! Small string builders used to form parameter names.

use vstd::prelude::*;

verus! {

/// The decimal digit character for `d` (which is below 10).
pub open spec fn decimal_digit(d: int) -> char {
    (48 + d) as char
}

/// The decimal representation of `n`, without leading zeros.
pub open spec fn decimal(n: nat) -> Seq<char>
    decreases n,
{
    if n < 10 {
        seq![decimal_digit(n as int)]
    } else {
        decimal(n / 10).push(decimal_digit((n % 10) as int))
    }
}

/// The number that a sequence of decimal digits denotes.
pub open spec fn digits_value(s: Seq<char>) -> int
    decreases s.len(),
{
    if s.len() == 0 {
        0
    } else {
        digits_value(s.drop_last()) * 10 + (s.last() as int - 48)
    }
}

/// The decimal representation of `n` is made of digits `0`-`9`, reads back
/// as `n`, and has no leading zero unless it is `0` itself.
pub proof fn law_decimal_reads_back(n: nat)
    ensures
        decimal(n).len() > 0,
        forall|i: int| 0 <= i < decimal(n).len() ==> '0' <= #[trigger] decimal(n)[i] && decimal(n)[i] <= '9',
        digits_value(decimal(n)) == n,
        n > 0 ==> decimal(n)[0] != '0',
        n == 0 ==> decimal(n) == seq!['0'],
    decreases n,
{
    if n >= 10 {
        law_decimal_reads_back(n / 10);
        let front = decimal(n / 10);
        let d = decimal_digit((n % 10) as int);
        assert(decimal(n) == front.push(d));
        assert(decimal(n).drop_last() =~= front);
        assert(forall|i: int| 0 <= i < front.len() ==> front.push(d)[i] == front[i]);
        assert(d as int == 48 + n % 10);
        assert(digits_value(decimal(n)) == digits_value(front) * 10 + (d as int - 48));
        assert((n / 10) as int * 10 + n % 10 == n);
    } else {
        let d = decimal_digit(n as int);
        assert(d as int == 48 + n);
        assert(decimal(n).drop_last() =~= Seq::<char>::empty());
        assert(digits_value(decimal(n)) == digits_value(Seq::<char>::empty()) * 10 + (d as int - 48));
    }
}

/// `String::push`. Claimed, as std documents it: the character is appended
/// at the end.
#[verifier::external_body]
pub fn push_char(s: &mut String, c: char)
    ensures
        final(s)@ == old(s)@.push(c),
{
    s.push(c);
}

/// Appends the decimal representation of `n` to `s`.
pub fn push_decimal(s: &mut String, n: usize)
    ensures
        final(s)@ == old(s)@ + decimal(n as nat),
    decreases n,
{
    if n >= 10 {
        push_decimal(s, n / 10);
    }
    let d: u8 = (n % 10) as u8;
    let c: char = (48u8 + d) as char;
    push_char(s, c);
    assert(decimal(n as nat) == if n < 10 { seq![decimal_digit(n as int)] } else {
        decimal((n / 10) as nat).push(decimal_digit((n % 10) as int))
    });
}

} // verus!

//! Small verified text-building helpers shared by the renderer and the
//! request builder.

use vstd::prelude::*;
use crate::state::spec_digit_char;
use crate::state::digit_to_char;

verus! {

/// Relies on `String::push`: appends exactly the one character to the end
/// of the string.
#[verifier::external_body]
pub(crate) fn push_char(s: &mut String, c: char)
    ensures
        final(s)@ == old(s)@.push(c),
{
    s.push(c);
}

/// The decimal digits of `n`, most significant first; a single `'0'`-style
/// digit for values below ten.
pub open spec fn spec_decimal(n: int) -> Seq<char>
    decreases n,
{
    if n < 10 {
        seq![spec_digit_char(n)]
    } else {
        spec_decimal(n / 10).push(spec_digit_char(n % 10))
    }
}

/// Appends the decimal rendering of `n` to `s`.
pub fn append_decimal(s: &mut String, n: usize)
    ensures
        final(s)@ == old(s)@ + spec_decimal(n as int),
    decreases n,
{
    if n < 10 {
        push_char(s, digit_to_char(&n));
        assert(s@ =~= old(s)@ + spec_decimal(n as int));
    } else {
        append_decimal(s, n / 10);
        push_char(s, digit_to_char(&(n % 10)));
        assert(s@ =~= old(s)@ + spec_decimal(n as int));
    }
}

} // verus!

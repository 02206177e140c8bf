//! Small verified helpers for building and comparing strings.
//!
//! Everything in this crate that renders output assembles it as a
//! `Vec<char>` first, because character pushes have exact specifications;
//! a single trusted conversion turns the finished characters into a
//! `String`.

use vstd::prelude::*;

verus! {

/// The view of an optional owned string.
pub open spec fn opt_view(o: Option<String>) -> Option<Seq<char>> {
    match o {
        Some(v) => Some(v@),
        None => None,
    }
}

/// Relies on `core::iter::Iterator::collect` for `String`: collecting the
/// characters of a vector yields the string with exactly those characters.
#[verifier::external_body]
pub(crate) fn chars_to_string(v: &Vec<char>) -> (s: String)
    ensures
        s@ == v@,
{
    v.iter().collect()
}

/// Character-for-character string equality.
pub fn str_eq(a: &str, b: &str) -> (r: bool)
    ensures
        r == (a@ == b@),
{
    let an = a.unicode_len();
    let bn = b.unicode_len();
    if an != bn {
        proof {
            assert(a@ != b@);
        }
        return false;
    }
    let mut i: usize = 0;
    while i < an
        invariant
            an == a@.len(),
            an == b@.len(),
            0 <= i <= an,
            forall|m: int| 0 <= m < i ==> a@[m] == b@[m],
        decreases an - i,
    {
        if a.get_char(i) != b.get_char(i) {
            return false;
        }
        i += 1;
    }
    proof {
        assert(a@ =~= b@);
    }
    true
}

/// Append every character of `s` to `out`.
pub fn push_str_chars(out: &mut Vec<char>, s: &str)
    ensures
        final(out)@ == old(out)@ + s@,
{
    let n = s.unicode_len();
    let mut i: usize = 0;
    while i < n
        invariant
            n == s@.len(),
            0 <= i <= n,
            out@ == old(out)@ + s@.take(i as int),
        decreases n - i,
    {
        out.push(s.get_char(i));
        proof {
            assert(s@.take(i + 1) =~= s@.take(i as int) + seq![s@[i as int]]);
        }
        i += 1;
    }
    proof {
        assert(s@.take(n as int) =~= s@);
    }
}

/// The decimal digit character for `d` (the low decimal digit of a value).
pub open spec fn dec_digit(d: int) -> char {
    ((d % 10 + 0x30) as u8) as char
}

/// The decimal numeral of `n`, most significant digit first.
pub open spec fn decimal(n: int) -> Seq<char>
    decreases n,
{
    if n <= 9 {
        seq![dec_digit(if n < 0 { 0 } else { n })]
    } else {
        decimal(n / 10) + seq![dec_digit(n % 10)]
    }
}

/// Append the decimal numeral of `n` to `out`.
pub fn push_decimal(out: &mut Vec<char>, n: u64)
    ensures
        final(out)@ == old(out)@ + decimal(n as int),
    decreases n,
{
    if n <= 9 {
        out.push((0x30u8 + (n as u8)) as char);
        proof {
            assert(decimal(n as int) =~= seq![dec_digit(n as int)]);
        }
    } else {
        push_decimal(out, n / 10);
        out.push((0x30u8 + ((n % 10) as u8)) as char);
        proof {
            assert(out@ =~= old(out)@ + decimal(n as int));
        }
    }
}

/// `n` space characters.
pub open spec fn spaces(n: int) -> Seq<char>
    decreases n,
{
    if n <= 0 {
        Seq::empty()
    } else {
        spaces(n - 1) + seq![' ']
    }
}

/// The numeral of `n` padded on the left with spaces to `width`
/// characters; numerals already that wide are kept whole.
pub open spec fn decimal_padded(n: int, width: int) -> Seq<char> {
    spaces(width - decimal(n).len()) + decimal(n)
}

/// Append the decimal numeral of `n`, right-aligned in `width` columns.
pub fn push_decimal_padded(out: &mut Vec<char>, n: u64, width: u64)
    ensures
        final(out)@ == old(out)@ + decimal_padded(n as int, width as int),
{
    let mut digits: Vec<char> = Vec::new();
    push_decimal(&mut digits, n);
    let len = digits.len();
    let mut pad: u64 = 0;
    while (len as u64) < width && pad < width - (len as u64)
        invariant
            digits@ == decimal(n as int),
            len == digits@.len(),
            0 <= pad,
            (len as u64) < width ==> pad <= width - len,
            (len as u64) >= width ==> pad == 0,
            out@ == old(out)@ + spaces(pad as int),
        decreases width - (len as u64) - pad,
    {
        out.push(' ');
        proof {
            assert(spaces(pad + 1) =~= spaces(pad as int) + seq![' ']);
        }
        pad += 1;
    }
    proof {
        if (len as u64) < width {
            assert(pad == width - len);
        } else {
            assert(spaces(width - decimal(n as int).len()) =~= Seq::<char>::empty());
            assert(spaces(pad as int) =~= Seq::<char>::empty());
        }
    }
    let mut i: usize = 0;
    while i < len
        invariant
            digits@ == decimal(n as int),
            len == digits@.len(),
            0 <= i <= len,
            out@ == old(out)@ + spaces(width - decimal(n as int).len()) + decimal(n as int).take(
                i as int,
            ),
        decreases len - i,
    {
        out.push(digits[i]);
        proof {
            assert(decimal(n as int).take(i + 1) =~= decimal(n as int).take(i as int) + seq![
                decimal(n as int)[i as int],
            ]);
        }
        i += 1;
    }
    proof {
        assert(decimal(n as int).take(len as int) =~= decimal(n as int));
        assert(out@ =~= old(out)@ + decimal_padded(n as int, width as int));
    }
}

} // verus!

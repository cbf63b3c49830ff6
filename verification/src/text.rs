//! Characters and strings: what this library takes for granted of the
//! standard library's text functions, and decimal rendering of counts.

use vstd::prelude::*;
use vstd::std_specs::iter::IteratorSpec;

verus! {

/// Whether a character has the Unicode `Alphabetic` property, as
/// `char::is_alphabetic` reports it.
pub uninterp spec fn alphabetic(c: char) -> bool;

/// Whether a character is alphabetic or numeric in the Unicode sense, as
/// `char::is_alphanumeric` reports it.
pub uninterp spec fn alphanumeric(c: char) -> bool;

/// `char::is_alphabetic` is a fixed property of the character; this gives the
/// property a name and claims nothing further about it.
pub assume_specification[ char::is_alphabetic ](c: char) -> (r: bool)
    ensures
        r == alphabetic(c),
;

/// `char::is_alphanumeric` is a fixed property of the character; this gives
/// the property a name and claims nothing further about it.
pub assume_specification[ char::is_alphanumeric ](c: char) -> (r: bool)
    ensures
        r == alphanumeric(c),
;

/// `String::push` appends the character to the end of the string and leaves
/// the characters before it as they were.
pub assume_specification[ std::string::String::push ](s: &mut std::string::String, c: char)
    ensures
        final(s)@ == old(s)@.push(c),
;

/// Whether a character is one of the ASCII digits `0` to `9`.
pub open spec fn is_digit(c: char) -> bool {
    '0' <= c && c <= '9'
}

/// The character for a single decimal digit.
pub open spec fn digit(d: nat) -> char {
    if d == 0 {
        '0'
    } else if d == 1 {
        '1'
    } else if d == 2 {
        '2'
    } else if d == 3 {
        '3'
    } else if d == 4 {
        '4'
    } else if d == 5 {
        '5'
    } else if d == 6 {
        '6'
    } else if d == 7 {
        '7'
    } else if d == 8 {
        '8'
    } else {
        '9'
    }
}

/// The decimal numeral of a natural number: most significant digit first,
/// no leading zeros, `0` for zero.
pub open spec fn decimal(n: nat) -> Seq<char>
    decreases n,
{
    if n < 10 {
        seq![digit(n)]
    } else {
        decimal(n / 10).push(digit(n % 10))
    }
}

/// The character for a single decimal digit.
pub fn digit_char(d: usize) -> (r: char)
    requires
        d < 10,
    ensures
        r == digit(d as nat),
{
    if d == 0 {
        '0'
    } else if d == 1 {
        '1'
    } else if d == 2 {
        '2'
    } else if d == 3 {
        '3'
    } else if d == 4 {
        '4'
    } else if d == 5 {
        '5'
    } else if d == 6 {
        '6'
    } else if d == 7 {
        '7'
    } else if d == 8 {
        '8'
    } else {
        '9'
    }
}

/// Renders a count as its decimal numeral.
pub fn decimal_string(n: usize) -> (r: String)
    ensures
        r@ == decimal(n as nat),
    decreases n,
{
    if n < 10 {
        let mut s = String::new();
        s.push(digit_char(n));
        assert(s@ =~= seq![digit(n as nat)]);
        s
    } else {
        let mut s = decimal_string(n / 10);
        s.push(digit_char(n % 10));
        s
    }
}

/// The characters of a string, in order.
pub fn characters(text: &str) -> (r: Vec<char>)
    ensures
        r@ == text@,
{
    broadcast use vstd::string::group_string_axioms;

    let mut out: Vec<char> = Vec::new();
    let mut it = text.chars();
    loop
        invariant
            out@ + it.remaining() == text@,
            it.decrease() is Some,
        decreases it.decrease()->0,
    {
        match it.next() {
            Some(c) => {
                out.push(c);
                assert(out@ + it.remaining() =~= text@);
            },
            None => {
                assert(out@ =~= text@);
                return out;
            },
        }
    }
}

/// The string made of the characters at positions `from..to` of `chars`.
pub fn string_of(chars: &Vec<char>, from: usize, to: usize) -> (r: String)
    requires
        from <= to <= chars.len(),
    ensures
        r@ == chars@.subrange(from as int, to as int),
{
    let mut s = String::new();
    let mut i: usize = from;
    while i < to
        invariant
            from <= i <= to <= chars.len(),
            s@ == chars@.subrange(from as int, i as int),
        decreases to - i,
    {
        s.push(chars[i]);
        i += 1;
        assert(s@ =~= chars@.subrange(from as int, i as int));
    }
    s
}

/// Joins three pieces of text.
pub fn join3(a: &str, b: &str, c: &str) -> (r: String)
    ensures
        r@ == a@ + b@ + c@,
{
    let mut s = String::from_str(a);
    s.append(b);
    s.append(c);
    s
}

} // verus!

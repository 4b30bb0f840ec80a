//! Text that the axis writes into markup: decimal numbers, pixel sizes and
//! the small templates around them.

use crate::arith::pow10;
use vstd::prelude::*;

verus! {

/// `String::push` appends the character to the end of the string.
pub assume_specification[ String::push ](s: &mut String, c: char)
    ensures
        final(s)@ == old(s)@.push(c),
;

/// The character of a decimal digit.
pub open spec fn digit_char(d: int) -> char {
    if d == 0 {
        '0'
    } else if d == 1 {
        '1'
    } else if d == 2 {
        '2'
    } else if d == 3 {
        '3'
    } else if d == 4 {
        '4'
    } else if d == 5 {
        '5'
    } else if d == 6 {
        '6'
    } else if d == 7 {
        '7'
    } else if d == 8 {
        '8'
    } else {
        '9'
    }
}

/// The decimal digits of a natural number, without leading zeros.
pub open spec fn digits(n: nat) -> Seq<char>
    decreases n,
{
    if n < 10 {
        seq![digit_char(n as int)]
    } else {
        digits(n / 10).push(digit_char((n % 10) as int))
    }
}

/// The decimal text of an integer, with a minus sign where it is negative.
pub open spec fn integer_text(i: int) -> Seq<char> {
    if i < 0 {
        seq!['-'] + digits((-i) as nat)
    } else {
        digits(i as nat)
    }
}

/// The digits after the decimal point of `frac / 10^places`, most
/// significant first, without trailing zeros.
pub open spec fn fraction_digits(frac: nat, places: nat) -> Seq<char>
    decreases places,
{
    if frac == 0 || places == 0 {
        Seq::empty()
    } else {
        let unit = pow10((places - 1) as nat) as nat;
        seq![digit_char((frac / unit) as int % 10)] + fraction_digits(
            frac % unit,
            (places - 1) as nat,
        )
    }
}

/// A size in pixels, as markup writes it: the number and `px`.
pub open spec fn pixels_text(size: nat) -> Seq<char> {
    digits(size) + "px"@
}

/// The text with every `G` turned into `B`.
pub open spec fn billions_text(s: Seq<char>) -> Seq<char> {
    s.map_values(
        |c: char|
            if c == 'G' {
                'B'
            } else {
                c
            },
    )
}

/// The character of a decimal digit.
fn digit_of(d: u8) -> (c: char)
    requires
        d < 10,
    ensures
        c == digit_char(d as int),
{
    if d == 0 {
        '0'
    } else if d == 1 {
        '1'
    } else if d == 2 {
        '2'
    } else if d == 3 {
        '3'
    } else if d == 4 {
        '4'
    } else if d == 5 {
        '5'
    } else if d == 6 {
        '6'
    } else if d == 7 {
        '7'
    } else if d == 8 {
        '8'
    } else {
        '9'
    }
}

/// Appends the decimal digits of `n` to `out`.
pub fn push_digits(out: &mut String, n: u128)
    ensures
        final(out)@ == old(out)@ + digits(n as nat),
{
    // The digits come out least significant first; collect, then append in reverse.
    let mut rev: Vec<char> = Vec::new();
    let mut m: u128 = n;
    rev.push(digit_of((m % 10) as u8));
    m = m / 10;
    let ghost mut tail: Seq<char> = seq![digit_char((n % 10) as int)];
    while m != 0
        invariant
            rev@.len() >= 1,
            tail.len() == rev@.len(),
            forall|k: int| 0 <= k < rev@.len() ==> rev@[k] == tail[tail.len() - 1 - k],
            digits(n as nat) == if m == 0 {
                tail
            } else {
                digits(m as nat) + tail
            },
        decreases m,
    {
        let c = digit_of((m % 10) as u8);
        proof {
            let old_tail = tail;
            tail = seq![c] + old_tail;
            assert(digits(m as nat) == if m < 10 {
                seq![c]
            } else {
                digits((m / 10) as nat).push(c)
            });
            if m >= 10 {
                assert(digits((m / 10) as nat).push(c) + old_tail == digits((m / 10) as nat) + tail);
            }
        }
        rev.push(c);
        m = m / 10;
    }
    let mut i: usize = rev.len();
    let ghost start = out@;
    while i > 0
        invariant
            i <= rev@.len(),
            tail.len() == rev@.len(),
            forall|k: int| 0 <= k < rev@.len() ==> rev@[k] == tail[tail.len() - 1 - k],
            out@ == start + tail.subrange(0, rev@.len() - i),
        decreases i,
    {
        i = i - 1;
        out.push(rev[i]);
        assert(tail.subrange(0, rev@.len() - i - 1).push(rev@[i as int]) == tail.subrange(
            0,
            rev@.len() - i,
        ));
    }
    assert(tail.subrange(0, tail.len() as int) == tail);
}

/// Appends the decimal text of `i` to `out`.
pub fn push_integer(out: &mut String, i: i128)
    ensures
        final(out)@ == old(out)@ + integer_text(i as int),
{
    if i < 0 {
        out.push('-');
        let m: u128 = if i == i128::MIN {
            0x8000_0000_0000_0000_0000_0000_0000_0000
        } else {
            (-i) as u128
        };
        push_digits(out, m);
        assert(old(out)@.push('-') + digits(m as nat) == old(out)@ + (seq!['-'] + digits(
            m as nat,
        )));
    } else {
        push_digits(out, i as u128);
    }
}

/// The decimal text of an integer.
pub fn integer_to_string(i: i128) -> (s: String)
    ensures
        s@ == integer_text(i as int),
{
    let mut s = String::new();
    push_integer(&mut s, i);
    assert(Seq::<char>::empty() + integer_text(i as int) == integer_text(i as int));
    s
}

/// A size in pixels as markup writes it, such as `12px`.
pub fn pixels(size: usize) -> (s: String)
    ensures
        s@ == pixels_text(size as nat),
{
    let mut s = String::new();
    push_digits(&mut s, size as u128);
    s.append("px");
    assert(Seq::<char>::empty() + digits(size as nat) == digits(size as nat));
    s
}

/// The text with every `G` turned into `B`: the formatter writes giga, the
/// axis shows billions.
pub fn billions(s: &str) -> (r: String)
    ensures
        r@ == billions_text(s@),
{
    let mut r = String::new();
    let n: usize = s.unicode_len();
    let mut i: usize = 0;
    while i < n
        invariant
            n == s@.len(),
            i <= n,
            r@ == billions_text(s@).subrange(0, i as int),
        decreases n - i,
    {
        let c = s.get_char(i);
        let b = if c == 'G' {
            'B'
        } else {
            c
        };
        r.push(b);
        assert(billions_text(s@).subrange(0, i as int).push(b) == billions_text(s@).subrange(
            0,
            i + 1,
        ));
        i = i + 1;
    }
    assert(billions_text(s@).subrange(0, n as int) == billions_text(s@));
    r
}

} // verus!

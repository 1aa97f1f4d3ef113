//! Building text one character at a time.

use vstd::prelude::*;

verus! {

/// `String::push` appends the one character to the end of the string and
/// leaves the characters before it as they were.
pub assume_specification[ std::string::String::push ](buffer: &mut std::string::String, ch: char)
    ensures
        final(buffer)@ == old(buffer)@.push(ch),
;

/// The character that writes the decimal digit `d`.
pub open spec fn digit_char(d: nat) -> char
    recommends
        d < 10,
{
    ((48 + d) as u8) as char
}

/// The decimal notation of `n`, most significant digit first, without
/// leading zeros.
pub open spec fn decimal_digits(n: nat) -> Seq<char>
    decreases n,
{
    if n < 10 {
        seq![digit_char(n)]
    } else {
        decimal_digits(n / 10).push(digit_char(n % 10))
    }
}

/// Appends the characters `chars[from..to]` to `text`.
pub fn append_chars(text: &mut String, chars: &Vec<char>, from: usize, to: usize)
    requires
        from <= to <= chars@.len(),
    ensures
        final(text)@ == old(text)@ + chars@.subrange(from as int, to as int),
{
    let mut i: usize = from;
    while i < to
        invariant
            from <= i <= to <= chars@.len(),
            text@ == old(text)@ + chars@.subrange(from as int, i as int),
        decreases to - i,
    {
        text.push(chars[i]);
        i = i + 1;
        assert(chars@.subrange(from as int, i as int) == chars@.subrange(
            from as int,
            i as int - 1,
        ).push(chars@[i as int - 1]));
    }
}

/// Appends the decimal notation of `n` to `text`.
pub fn append_decimal(text: &mut String, n: usize)
    ensures
        final(text)@ == old(text)@ + decimal_digits(n as nat),
{
    // The digits come out least significant first.
    let mut reversed: Vec<char> = Vec::new();
    let mut rest: usize = n;
    while rest >= 10
        invariant
            decimal_digits(n as nat) == decimal_digits(rest as nat) + reversed@.reverse(),
        decreases rest,
    {
        let d: u8 = (rest % 10) as u8;
        let c: char = (48u8 + d) as char;
        assert(c == digit_char((rest % 10) as nat));
        proof {
            let lower = reversed@.reverse();
            assert(reversed@.push(c).reverse() == seq![c] + lower);
            assert(decimal_digits(rest as nat) == decimal_digits((rest / 10) as nat).push(c));
            assert(decimal_digits((rest / 10) as nat).push(c) + lower == decimal_digits(
                (rest / 10) as nat,
            ) + (seq![c] + lower));
        }
        reversed.push(c);
        rest = rest / 10;
    }
    let leading: char = (48u8 + (rest as u8)) as char;
    assert(leading == digit_char(rest as nat));
    text.push(leading);
    let mut i: usize = reversed.len();
    while i > 0
        invariant
            i <= reversed@.len(),
            text@ == old(text)@ + seq![leading] + reversed@.reverse().subrange(
                0,
                reversed@.len() - i,
            ),
        decreases i,
    {
        i = i - 1;
        text.push(reversed[i]);
        proof {
            let r = reversed@.reverse();
            let k = reversed@.len() - i;
            assert(r.subrange(0, k as int) == r.subrange(0, k - 1).push(r[k - 1]));
        }
    }
    assert(reversed@.reverse().subrange(0, reversed@.len() as int) == reversed@.reverse());
}

} // verus!

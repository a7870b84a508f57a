//! Text as sequences of characters: conversion from and to strings, prefixes,
//! and numbers written in decimal.

use vstd::prelude::*;

verus! {

/// The characters of `text`, in order.
pub(crate) fn chars_of(text: &str) -> (chars: Vec<char>)
    ensures
        chars@ == text@,
{
    let mut chars: Vec<char> = Vec::new();
    for c in it: text.chars()
        invariant
            it.seq() == text@,
            chars@.len() == it.index(),
            forall|j: int| 0 <= j < chars@.len() ==> chars@[j] == it.seq()[j],
    {
        chars.push(c);
    }
    assert(chars@ =~= text@);
    chars
}

/// Calls `String::push`: the string has the character at its end.
#[verifier::external_body]
fn push_char(text: &mut String, c: char)
    ensures
        final(text)@ == old(text)@.push(c),
{
    text.push(c)
}

/// The string that the characters spell.
pub(crate) fn string_of(chars: &Vec<char>) -> (text: String)
    ensures
        text@ == chars@,
{
    let mut text = String::new();
    let mut i: usize = 0;
    while i < chars.len()
        invariant
            i <= chars@.len(),
            text@ == chars@.subrange(0, i as int),
        decreases chars@.len() - i,
    {
        push_char(&mut text, chars[i]);
        assert(text@ =~= chars@.subrange(0, i + 1));
        i += 1;
    }
    assert(chars@.subrange(0, i as int) =~= chars@);
    text
}

/// Appends the characters of `tail` to `out`.
pub(crate) fn append_chars(out: &mut Vec<char>, tail: &Vec<char>)
    ensures
        final(out)@ == old(out)@ + tail@,
{
    let mut i: usize = 0;
    while i < tail.len()
        invariant
            i <= tail@.len(),
            out@ == old(out)@ + tail@.subrange(0, i as int),
        decreases tail@.len() - i,
    {
        out.push(tail[i]);
        assert(out@ =~= old(out)@ + tail@.subrange(0, i + 1));
        i += 1;
    }
    assert(tail@.subrange(0, tail@.len() as int) =~= tail@);
}

/// Appends the characters of the text `tail` to `out`.
pub(crate) fn append_str(out: &mut Vec<char>, tail: &str)
    ensures
        final(out)@ == old(out)@ + tail@,
{
    let chars = chars_of(tail);
    append_chars(out, &chars);
}

/// Whether `text` has `prefix` at position `at`.
pub open spec fn has_at(text: Seq<char>, at: int, prefix: Seq<char>) -> bool {
    &&& 0 <= at
    &&& at + prefix.len() <= text.len()
    &&& text.subrange(at, at + prefix.len()) == prefix
}

/// Whether `text` has `prefix` at position `at`.
pub(crate) fn starts_with_at(text: &Vec<char>, at: usize, prefix: &Vec<char>) -> (found: bool)
    ensures
        found == has_at(text@, at as int, prefix@),
{
    if at > text.len() || prefix.len() > text.len() - at {
        return false;
    }
    let total = text.len();
    let mut i: usize = 0;
    while i < prefix.len()
        invariant
            i <= prefix@.len(),
            total == text@.len(),
            at + prefix@.len() <= text@.len(),
            forall|j: int| 0 <= j < i ==> text@[at + j] == prefix@[j],
        decreases prefix@.len() - i,
    {
        if text[at + i] != prefix[i] {
            assert(text@.subrange(at as int, at + prefix@.len())[i as int] != prefix@[i as int]);
            return false;
        }
        i += 1;
    }
    assert(text@.subrange(at as int, at + prefix@.len()) =~= prefix@);
    true
}

/// The character of the decimal digit `digit`.
pub open spec fn digit_char(digit: nat) -> char {
    ((48 + digit) as u32) as char
}

/// `value` in decimal, without leading zeros.
pub open spec fn decimal(value: nat) -> Seq<char>
    decreases value,
{
    if value < 10 {
        seq![digit_char(value)]
    } else {
        decimal(value / 10).push(digit_char(value % 10))
    }
}

/// Appends `value` in decimal to `out`.
pub(crate) fn push_decimal(out: &mut Vec<char>, value: u64)
    ensures
        final(out)@ == old(out)@ + decimal(value as nat),
{
    let mut digits: Vec<char> = Vec::new();
    let mut rest: u64 = value;
    // The digits from the last to the first, then appended in reverse.
    while rest >= 10
        invariant
            decimal(value as nat) == decimal(rest as nat) + digits@.reverse(),
        decreases rest,
    {
        let digit = (rest % 10) as u8;
        let ghost before = digits@;
        digits.push((48 + digit) as char);
        proof {
            assert(decimal(rest as nat) == decimal(rest as nat / 10).push(
                digit_char(rest as nat % 10),
            ));
            assert(digits@.reverse() =~= seq![digit_char(rest as nat % 10)] + before.reverse());
            assert(decimal(rest as nat / 10).push(digit_char(rest as nat % 10)) + before.reverse()
                =~= decimal(rest as nat / 10) + digits@.reverse());
        }
        rest = rest / 10;
    }
    out.push((48 + rest as u8) as char);
    let mut k: usize = digits.len();
    assert(digits@.reverse().subrange(0, 0) =~= Seq::<char>::empty());
    while k > 0
        invariant
            k <= digits@.len(),
            out@ == old(out)@ + seq![digit_char(rest as nat)] + digits@.reverse().subrange(
                0,
                digits@.len() - k,
            ),
        decreases k,
    {
        k -= 1;
        out.push(digits[k]);
        assert(out@ =~= old(out)@ + seq![digit_char(rest as nat)] + digits@.reverse().subrange(
            0,
            digits@.len() - k,
        ));
    }
    assert(digits@.reverse().subrange(0, digits@.len() as int) =~= digits@.reverse());
    assert(decimal(rest as nat) =~= seq![digit_char(rest as nat)]);
    assert(out@ =~= old(out)@ + decimal(value as nat));
}

} // verus!

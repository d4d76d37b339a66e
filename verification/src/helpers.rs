//! Small utilities shared by the derivation and transformation passes.

use vstd::prelude::*;

use vstd::string::StrSliceExecFns;

verus! {

/// Relies on String::push: appends the given character to the end of the
/// string.
pub assume_specification [ String::push ](s: &mut String, c: char)
    ensures
        final(s)@ == old(s)@.push(c),
;

/// Whether a character is in the lowercase class. The class is a large
/// table; the name stands for exactly what the standard library answers.
pub uninterp spec fn is_lowercase_char(c: char) -> bool;

/// The uppercase letters `A` to `Z` map to `a` to `z`; every other
/// character is left unchanged.
pub open spec fn to_ascii_lower_char(c: char) -> char {
    if 65 <= c as u32 <= 90 {
        ((c as u32) + 32) as char
    } else {
        c
    }
}

/// Relies on char::is_lowercase: whether the character is lowercase; the
/// result depends on the character alone.
#[verifier::external_body]
fn char_is_lowercase(c: char) -> (r: bool)
    ensures
        r == is_lowercase_char(c),
{
    c.is_lowercase()
}

/// Relies on char::to_ascii_lowercase: maps `A`..=`Z` to `a`..=`z` and
/// leaves every other character unchanged.
#[verifier::external_body]
fn char_to_ascii_lowercase(c: char) -> (r: char)
    ensures
        r == to_ascii_lower_char(c),
{
    c.to_ascii_lowercase()
}

/// The snake-cased form of a name: each character lowercased, with an
/// underscore inserted wherever a non-lowercase character follows a
/// character that came out lowercase.
pub open spec fn snake_of(s: Seq<char>) -> Seq<char>
    decreases s.len(),
{
    if s.len() == 0 {
        Seq::empty()
    } else {
        let pre = snake_of(s.drop_last());
        let c = s.last();
        if pre.len() > 0 && is_lowercase_char(pre.last()) && !is_lowercase_char(c) {
            pre.push('_').push(to_ascii_lower_char(c))
        } else {
            pre.push(to_ascii_lower_char(c))
        }
    }
}

/// Converts a camel-cased name to its snake-cased form, the spelling used
/// for derived constructor methods.
pub fn snake_case_name(ident: &String) -> (r: String)
    ensures
        r@ == snake_of(ident@),
{
    let n = ident.as_str().unicode_len();
    let mut acc = String::new();
    let mut i: usize = 0;
    while i < n
        invariant
            0 <= i <= n,
            n == ident@.len(),
            acc@ == snake_of(ident@.take(i as int)),
        decreases n - i,
    {
        let c = ident.as_str().get_char(i);
        let acc_len = acc.as_str().unicode_len();
        let pred_lower: bool = if acc_len > 0 {
            char_is_lowercase(acc.as_str().get_char(acc_len - 1))
        } else {
            false
        };
        if pred_lower && !char_is_lowercase(c) {
            acc.push('_');
        }
        acc.push(char_to_ascii_lowercase(c));
        proof {
            assert(ident@.take(i + 1).drop_last() =~= ident@.take(i as int));
            assert(ident@.take(i + 1).last() == ident@[i as int]);
        }
        i += 1;
    }
    proof {
        assert(ident@.take(n as int) =~= ident@);
    }
    acc
}

/// Appends one element to a vector and hands the vector back, so that a
/// fold can thread an accumulator through without naming a temporary.
pub fn fold_with<T>(v: Vec<T>, t: T) -> (r: Vec<T>)
    ensures
        r@ == v@.push(t),
{
    let mut v = v;
    v.push(t);
    v
}

} // verus!

//! Identifier case conversion.

use crate::text::{char_is_lower, char_is_upper, char_lower, chars_of, is_lower, is_upper, lower, push_char};
use vstd::prelude::*;

verus! {

/// Whether an underscore goes in front of the character at index `i`: the
/// character is an upper-case letter that is not the first one and does not
/// follow an underscore, and it is followed or preceded by a lower-case
/// letter.
pub open spec fn needs_separator(s: Seq<char>, i: int) -> bool {
    &&& 0 < i < s.len()
    &&& is_upper(s[i])
    &&& s[i - 1] != '_'
    &&& ((i + 1 < s.len() && is_lower(s[i + 1])) || is_lower(s[i - 1]))
}

/// The snake-case form of the first `n` characters of `s`.
pub open spec fn snake_prefix(s: Seq<char>, n: nat) -> Seq<char>
    decreases n,
{
    if n == 0 {
        Seq::empty()
    } else {
        let i = (n - 1) as nat;
        if needs_separator(s, i as int) {
            snake_prefix(s, i).push('_').push(lower(s[i as int]))
        } else {
            snake_prefix(s, i).push(lower(s[i as int]))
        }
    }
}

/// The snake-case form of `s`: every character in lower case, with an
/// underscore at each word boundary.
pub open spec fn snake(s: Seq<char>) -> Seq<char> {
    snake_prefix(s, s.len())
}

/// Converts a Pascal-case, camel-case or all-capitals identifier to
/// lower-case words joined by underscores.
pub fn to_snake(s: &String) -> (r: String)
    ensures
        r@ == snake(s@),
{
    let chars = chars_of(s.as_str());
    let mut result = String::new();
    let mut i: usize = 0;
    while i < chars.len()
        invariant
            i <= chars.len(),
            chars@ == s@,
            result@ == snake_prefix(s@, i as nat),
        decreases chars.len() - i,
    {
        let current = chars[i];
        if char_is_upper(current) && i != 0 && chars[i - 1] != '_' && ((i + 1 < chars.len()
            && char_is_lower(chars[i + 1])) || char_is_lower(chars[i - 1])) {
            push_char(&mut result, '_');
        }
        push_char(&mut result, char_lower(current));
        i += 1;
    }
    result
}

/// No character of `s` is an upper-case ASCII letter.
pub open spec fn no_upper(s: Seq<char>) -> bool {
    forall|i: int| 0 <= i < s.len() ==> !is_upper(#[trigger] s[i])
}

/// The snake-case form of a prefix holds no upper-case ASCII letter.
pub proof fn lemma_snake_prefix_no_upper(s: Seq<char>, n: nat)
    requires
        n <= s.len(),
    ensures
        no_upper(snake_prefix(s, n)),
    decreases n,
{
    if n > 0 {
        lemma_snake_prefix_no_upper(s, (n - 1) as nat);
    }
}

proof fn lemma_snake_prefix_fixed(s: Seq<char>, n: nat)
    requires
        n <= s.len(),
        no_upper(s),
    ensures
        snake_prefix(s, n) == s.take(n as int),
    decreases n,
{
    if n > 0 {
        lemma_snake_prefix_fixed(s, (n - 1) as nat);
        assert(s.take(n as int) =~= s.take(n - 1).push(s[n - 1]));
    } else {
        assert(s.take(0) =~= Seq::<char>::empty());
    }
}

/// The snake-case form of a string holds no upper-case ASCII letter.
pub proof fn lemma_snake_no_upper(s: Seq<char>)
    ensures
        no_upper(snake(s)),
{
    lemma_snake_prefix_no_upper(s, s.len());
}

/// A string without upper-case ASCII letters is its own snake-case form.
pub proof fn lemma_snake_fixed_point(s: Seq<char>)
    requires
        no_upper(s),
    ensures
        snake(s) == s,
{
    lemma_snake_prefix_fixed(s, s.len());
    assert(s.take(s.len() as int) =~= s);
}

/// Converting to snake case twice gives what converting once gives.
pub proof fn lemma_snake_idempotent(s: Seq<char>)
    ensures
        snake(snake(s)) == snake(s),
{
    lemma_snake_no_upper(s);
    lemma_snake_fixed_point(snake(s));
}

} // verus!

//! Character and string primitives shared by the parser and the generator.

use crate::ordered::Order;
use vstd::prelude::*;

verus! {

/// `c` is one of the ASCII letters `A` to `Z`.
pub open spec fn is_upper(c: char) -> bool {
    'A' <= c && c <= 'Z'
}

/// `c` is one of the ASCII letters `a` to `z`.
pub open spec fn is_lower(c: char) -> bool {
    'a' <= c && c <= 'z'
}

/// The ASCII lower-case form of `c`; every other character is unchanged.
pub open spec fn lower(c: char) -> char {
    if is_upper(c) {
        ((c as u8) + 32) as char
    } else {
        c
    }
}

/// The ASCII upper-case form of `c`; every other character is unchanged.
pub open spec fn upper(c: char) -> char {
    if is_lower(c) {
        ((c as u8) - 32) as char
    } else {
        c
    }
}

/// Whether `c` is an upper-case ASCII letter.
pub fn char_is_upper(c: char) -> (r: bool)
    ensures
        r == is_upper(c),
{
    'A' <= c && c <= 'Z'
}

/// Whether `c` is a lower-case ASCII letter.
pub fn char_is_lower(c: char) -> (r: bool)
    ensures
        r == is_lower(c),
{
    'a' <= c && c <= 'z'
}

/// `c` in ASCII lower case.
pub fn char_lower(c: char) -> (r: char)
    ensures
        r == lower(c),
{
    if char_is_upper(c) {
        let b: u8 = c as u8;
        (b + 32) as char
    } else {
        c
    }
}

/// The characters of `s`, in order.
pub fn chars_of(s: &str) -> (v: Vec<char>)
    ensures
        v@ == s@,
{
    broadcast use vstd::string::group_string_axioms;

    let mut v: Vec<char> = Vec::new();
    for c in it: s.chars()
        invariant
            it.seq() == s@,
            v@ == it.seq().take(it.index() as int),
    {
        v.push(c);
    }
    assert(v@ == s@);
    v
}

/// `String::push` of std: appends the one character `c` to `s`.
#[verifier::external_body]
pub(crate) fn push_char(s: &mut String, c: char)
    ensures
        final(s)@ == old(s)@.push(c),
{
    s.push(c)
}

/// The string made of the characters `v[from..to]`.
pub fn string_of(v: &Vec<char>, from: usize, to: usize) -> (s: String)
    requires
        from <= to <= v.len(),
    ensures
        s@ == v@.subrange(from as int, to as int),
{
    let mut s = String::new();
    let mut i: usize = from;
    while i < to
        invariant
            from <= i <= to <= v.len(),
            s@ == v@.subrange(from as int, i as int),
        decreases to - i,
    {
        push_char(&mut s, v[i]);
        i += 1;
    }
    s
}

/// Whether two strings hold the same characters.
pub fn str_eq(a: &str, b: &str) -> (r: bool)
    ensures
        r == (a@ == b@),
{
    let x = a.to_owned();
    let y = b.to_owned();
    x == y
}

/// The first index at or after `i` at which `s` holds `c`; the length of
/// `s` if there is none.
pub open spec fn index_from(s: Seq<char>, c: char, i: int) -> int
    decreases s.len() - i,
{
    if i < 0 || i >= s.len() || s[i] == c {
        i
    } else {
        index_from(s, c, i + 1)
    }
}

/// The index of the first `c` in `s`; the length of `s` if `c` does not
/// occur in it.
pub open spec fn index_of(s: Seq<char>, c: char) -> int {
    index_from(s, c, 0)
}

/// Finds the first `c` in `v`.
pub fn find_char(v: &Vec<char>, c: char) -> (r: usize)
    ensures
        r == index_of(v@, c),
        r <= v.len(),
{
    let mut i: usize = 0;
    while i < v.len() && v[i] != c
        invariant
            i <= v.len(),
            index_of(v@, c) == index_from(v@, c, i as int),
        decreases v.len() - i,
    {
        i += 1;
    }
    i
}

/// Lexicographic order by code point, from index `i` on: the order in which
/// std compares strings.
pub open spec fn lt_from(a: Seq<char>, b: Seq<char>, i: int) -> bool
    decreases a.len() - i,
{
    if i < 0 || i >= b.len() {
        false
    } else if i >= a.len() {
        true
    } else if a[i] != b[i] {
        a[i] < b[i]
    } else {
        lt_from(a, b, i + 1)
    }
}

/// `a` comes strictly before `b` in lexicographic order by code point.
pub open spec fn str_lt(a: Seq<char>, b: Seq<char>) -> bool {
    lt_from(a, b, 0)
}

/// No string comes before itself.
pub proof fn lemma_lt_irreflexive(a: Seq<char>, i: int)
    requires
        0 <= i,
    ensures
        !lt_from(a, a, i),
    decreases a.len() - i,
{
    if i < a.len() {
        lemma_lt_irreflexive(a, i + 1);
    }
}

/// What comes before a string comes before all that the string comes
/// before.
pub proof fn lemma_lt_transitive(a: Seq<char>, b: Seq<char>, c: Seq<char>, i: int)
    requires
        0 <= i,
        lt_from(a, b, i),
        lt_from(b, c, i),
    ensures
        lt_from(a, c, i),
    decreases a.len() - i,
{
    if i < a.len() && a[i] == b[i] && b[i] == c[i] {
        lemma_lt_transitive(a, b, c, i + 1);
    }
}

/// Of two strings that differ from `i` on, one comes before the other.
pub proof fn lemma_lt_total(a: Seq<char>, b: Seq<char>, i: int)
    requires
        0 <= i <= a.len(),
        i <= b.len(),
    ensures
        lt_from(a, b, i) || lt_from(b, a, i) || a.skip(i) == b.skip(i),
    decreases a.len() - i,
{
    if i < a.len() && i < b.len() && a[i] == b[i] {
        lemma_lt_total(a, b, i + 1);
        if a.skip(i + 1) == b.skip(i + 1) {
            assert(a.skip(i) =~= seq![a[i]] + a.skip(i + 1));
            assert(b.skip(i) =~= seq![b[i]] + b.skip(i + 1));
        }
    } else if i == a.len() && i == b.len() {
        assert(a.skip(i) =~= b.skip(i));
    }
}

/// Compares two strings as std orders them.
pub fn str_compare(a: &str, b: &str) -> (o: Order)
    ensures
        match o {
            Order::Less => str_lt(a@, b@),
            Order::Equal => a@ == b@,
            Order::Greater => str_lt(b@, a@),
        },
{
    let x = chars_of(a);
    let y = chars_of(b);
    let mut i: usize = 0;
    while i < x.len() && i < y.len()
        invariant
            i <= x.len(),
            i <= y.len(),
            x@ == a@,
            y@ == b@,
            forall|j: int| 0 <= j < i ==> x[j] == y[j],
            lt_from(a@, b@, 0) == lt_from(a@, b@, i as int),
            lt_from(b@, a@, 0) == lt_from(b@, a@, i as int),
        decreases x.len() - i,
    {
        if x[i] < y[i] {
            return Order::Less;
        }
        if y[i] < x[i] {
            return Order::Greater;
        }
        i += 1;
    }
    if i < y.len() {
        Order::Less
    } else if i < x.len() {
        Order::Greater
    } else {
        assert(a@ =~= b@);
        Order::Equal
    }
}

/// `c` is one of the digits `0` to `9`.
pub open spec fn is_digit(c: char) -> bool {
    '0' <= c && c <= '9'
}

/// Every character of `s` is a digit.
pub open spec fn all_digits(s: Seq<char>) -> bool {
    forall|i: int| 0 <= i < s.len() ==> is_digit(#[trigger] s[i])
}

/// The number that the first `n` characters of `s` write in base ten.
pub open spec fn digits_value(s: Seq<char>, n: nat) -> int
    decreases n,
{
    if n == 0 {
        0
    } else {
        digits_value(s, (n - 1) as nat) * 10 + (s[n - 1] as int - '0' as int)
    }
}

/// The number that `s` writes in base ten, where `s` is a run of digits,
/// after a `+` or not, and the number fits in 32 bits: what std reads a
/// `u32` from.
pub open spec fn decimal_u32(s: Seq<char>) -> Option<u32> {
    let d = if s.len() > 0 && s[0] == '+' {
        s.skip(1)
    } else {
        s
    };
    if d.len() > 0 && all_digits(d) && digits_value(d, d.len()) <= u32::MAX {
        Some(digits_value(d, d.len()) as u32)
    } else {
        None
    }
}

proof fn lemma_digits_value_grows(s: Seq<char>, n: nat, m: nat)
    requires
        n <= m <= s.len(),
        all_digits(s),
    ensures
        0 <= digits_value(s, n) <= digits_value(s, m),
    decreases m,
{
    if n < m {
        lemma_digits_value_grows(s, n, (m - 1) as nat);
        assert(is_digit(s[m - 1]));
    } else if n > 0 {
        lemma_digits_value_grows(s, (n - 1) as nat, (m - 1) as nat);
        assert(is_digit(s[n - 1]));
    }
}

/// Reads a `u32` in base ten.
pub fn parse_u32(s: &str) -> (r: Option<u32>)
    ensures
        r == decimal_u32(s@),
{
    let chars = chars_of(s);
    let start: usize = if chars.len() > 0 && chars[0] == '+' {
        1
    } else {
        0
    };
    let ghost d = chars@.skip(start as int);
    assert(start == 0 ==> d =~= s@);
    if start == chars.len() {
        return None;
    }
    let mut value: u64 = 0;
    let mut i: usize = start;
    while i < chars.len()
        invariant
            start <= i <= chars.len(),
            start == 0 ==> d == s@,
            chars@ == s@,
            start < chars.len(),
            start == (if s@.len() > 0 && s@[0] == '+' { 1int } else { 0int }),
            d == chars@.skip(start as int),
            forall|j: int| 0 <= j < i - start ==> is_digit(#[trigger] d[j]),
            value == digits_value(d, (i - start) as nat),
            value <= u32::MAX,
        decreases chars.len() - i,
    {
        let c = chars[i];
        assert(d[i - start] == c);
        if !('0' <= c && c <= '9') {
            assert(!is_digit(d[i - start]));
            return None;
        }
        let digit: u64 = (c as u32 - '0' as u32) as u64;
        value = value * 10 + digit;
        i += 1;
        assert(value == digits_value(d, (i - start) as nat)) by {
            assert(digits_value(d, (i - start) as nat) == digits_value(d, (i - start - 1) as nat)
                * 10 + (d[i - start - 1] as int - '0' as int));
        }
        if value > 0xffff_ffff {
            proof {
                if all_digits(d) {
                    lemma_digits_value_grows(d, (i - start) as nat, d.len());
                }
            }
            return None;
        }
    }
    assert(all_digits(d));
    Some(value as u32)
}

} // verus!

//! Characters and strings: the character classes the rest of the crate
//! speaks of, and the conversions between `&str`, `Vec<char>` and `String`.

use vstd::prelude::*;

verus! {

/// Whether `c` is white space in the sense of Unicode's `White_Space`
/// property, which is the sense in which text is split into words.
pub open spec fn whitespace(c: char) -> bool {
    let n = c as u32;
    ||| 0x09 <= n <= 0x0D
    ||| n == 0x20
    ||| n == 0x85
    ||| n == 0xA0
    ||| n == 0x1680
    ||| 0x2000 <= n <= 0x200A
    ||| n == 0x2028
    ||| n == 0x2029
    ||| n == 0x202F
    ||| n == 0x205F
    ||| n == 0x3000
}

/// Whether `c` is one of the 32 ASCII punctuation characters
/// ``!"#$%&'()*+,-./:;<=>?@[\]^_`{|}~``.
pub open spec fn punctuation(c: char) -> bool {
    let n = c as u32;
    ||| 0x21 <= n <= 0x2F
    ||| 0x3A <= n <= 0x40
    ||| 0x5B <= n <= 0x60
    ||| 0x7B <= n <= 0x7E
}

/// Whether `c` is an ASCII capital letter.
pub open spec fn uppercase(c: char) -> bool {
    'A' <= c && c <= 'Z'
}

/// Whether `c` is an ASCII decimal digit.
pub open spec fn digit(c: char) -> bool {
    '0' <= c && c <= '9'
}

/// ASCII case folding of one character: `A`..`Z` become `a`..`z`, every
/// other character stays.
pub open spec fn lower(c: char) -> char {
    if uppercase(c) {
        ((c as u8) + 32) as char
    } else {
        c
    }
}

/// ASCII case folding of a text, character by character.
pub open spec fn lowercase(s: Seq<char>) -> Seq<char> {
    s.map_values(|c: char| lower(c))
}

/// Whether `c` is white space: see [`whitespace`].
pub fn is_whitespace(c: char) -> (r: bool)
    ensures
        r == whitespace(c),
{
    let n: u32 = c as u32;
    (0x09 <= n && n <= 0x0D) || n == 0x20 || n == 0x85 || n == 0xA0 || n == 0x1680 || (0x2000 <= n
        && n <= 0x200A) || n == 0x2028 || n == 0x2029 || n == 0x202F || n == 0x205F || n == 0x3000
}

/// Whether `c` is one of `0` to `9`.
pub fn is_digit(c: char) -> (r: bool)
    ensures
        r == digit(c),
{
    '0' <= c && c <= '9'
}

/// `c` in lower case, if it is an ASCII capital letter, else `c`.
pub fn to_lower(c: char) -> (r: char)
    ensures
        r == lower(c),
{
    if 'A' <= c && c <= 'Z' {
        let b: u8 = c as u8;
        (b + 32) as char
    } else {
        c
    }
}

/// `String::push` of the standard library appends one character to the end
/// of the string and changes nothing else.
pub assume_specification[ String::push ](s: &mut String, c: char)
    ensures
        final(s)@ == old(s)@.push(c),
;

/// The characters of `s`, in order.
pub fn chars_of(s: &str) -> (chars: Vec<char>)
    ensures
        chars@ == s@,
{
    let mut chars: Vec<char> = Vec::new();
    for c in it: s.chars()
        invariant
            chars@ == it.seq().take(it.index() as int),
    {
        chars.push(c);
    }
    chars
}

/// The string made of `chars[from..to]`.
pub fn string_of(chars: &Vec<char>, from: usize, to: usize) -> (s: String)
    requires
        from <= to <= chars.len(),
    ensures
        s@ == chars@.subrange(from as int, to as int),
{
    let mut s = String::new();
    let mut i: usize = from;
    while i < to
        invariant
            from <= i <= to <= chars.len(),
            s@ == chars@.subrange(from as int, i as int),
        decreases to - i,
    {
        s.push(chars[i]);
        i += 1;
    }
    s
}

/// `s` with every ASCII capital letter replaced by its small letter.
pub fn to_lowercase(s: &str) -> (folded: String)
    ensures
        folded@ == lowercase(s@),
{
    let mut folded = String::new();
    for c in it: s.chars()
        invariant
            folded@ == lowercase(it.seq().take(it.index() as int)),
    {
        folded.push(to_lower(c));
    }
    folded
}

} // verus!

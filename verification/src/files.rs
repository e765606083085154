//! Image files: which directory entries count as images, and what a post
//! takes from an image's file name.

use crate::error::PostError;
use crate::text::{chars_of, digit, is_digit, string_of};
use vstd::prelude::*;

verus! {

/// Whether `name` ends with `.jpg`, in exactly this spelling.
pub open spec fn jpg_name(name: Seq<char>) -> bool {
    &&& name.len() >= 4
    &&& name.subrange(name.len() - 4, name.len() as int) == seq!['.', 'j', 'p', 'g']
}

/// Position of the last `.` in `name`, or -1 where it has none.
pub open spec fn last_dot(name: Seq<char>) -> int
    decreases name.len(),
{
    if name.len() == 0 {
        -1
    } else if name.last() == '.' {
        name.len() - 1
    } else {
        last_dot(name.drop_last())
    }
}

/// The stem of a file name (a name without directories before it): what
/// stands before its last `.`. A name without a `.`, or whose last `.` is its
/// first character, is its own stem.
pub open spec fn stem_of(name: Seq<char>) -> Seq<char> {
    let dot = last_dot(name);
    if dot <= 0 {
        name
    } else {
        name.subrange(0, dot)
    }
}

/// The number that a run of decimal digits writes.
pub open spec fn digits_value(digits: Seq<char>) -> int
    decreases digits.len(),
{
    if digits.len() == 0 {
        0
    } else {
        digits_value(digits.drop_last()) * 10 + (digits.last() as int - '0' as int)
    }
}

/// Whether every character of `s` is a decimal digit.
pub open spec fn all_digits(s: Seq<char>) -> bool {
    forall|i: int| 0 <= i < s.len() ==> digit(#[trigger] s[i])
}

/// The integer that `text` writes in decimal, if it writes one that fits in
/// 32 bits: an optional `+` or `-`, then one or more digits and nothing else.
pub open spec fn integer_value(text: Seq<char>) -> Option<int> {
    let signed = text.len() > 0 && (text[0] == '-' || text[0] == '+');
    let digits = if signed {
        text.drop_first()
    } else {
        text
    };
    let magnitude = digits_value(digits);
    let value = if signed && text[0] == '-' {
        -magnitude
    } else {
        magnitude
    };
    if digits.len() > 0 && all_digits(digits) && i32::MIN <= value <= i32::MAX {
        Some(value)
    } else {
        None
    }
}

/// A stem without its last two characters; empty where the stem has two
/// characters or fewer.
pub open spec fn significant_part(stem: Seq<char>) -> Seq<char> {
    if stem.len() >= 2 {
        stem.subrange(0, stem.len() - 2)
    } else {
        Seq::empty()
    }
}

/// Whether `name` ends with `.jpg`: see [`jpg_name`].
pub fn is_jpg_name(name: &str) -> (jpg: bool)
    ensures
        jpg == jpg_name(name@),
{
    let chars = chars_of(name);
    let n = chars.len();
    if n < 4 {
        return false;
    }
    let jpg = chars[n - 4] == '.' && chars[n - 3] == 'j' && chars[n - 2] == 'p' && chars[n - 1]
        == 'g';
    proof {
        let tail = name@.subrange(n - 4, n as int);
        let extension = seq!['.', 'j', 'p', 'g'];
        if jpg {
            assert(tail =~= extension);
        } else {
            assert(tail[0] == name@[n - 4] && tail[1] == name@[n - 3] && tail[2] == name@[n - 2]
                && tail[3] == name@[n - 1]);
            assert(extension[0] == '.' && extension[1] == 'j' && extension[2] == 'p'
                && extension[3] == 'g');
        }
    }
    jpg
}

/// The names among `names` that end with `.jpg`, in the order in which
/// `names` lists them.
pub fn select_jpg_names(names: &Vec<String>) -> (selected: Vec<String>)
    ensures
        selected.deep_view() == names.deep_view().filter(|name: Seq<char>| jpg_name(name)),
        forall|i: int| 0 <= i < selected.len() ==> jpg_name(#[trigger] selected.deep_view()[i]),
{
    let ghost wanted = |name: Seq<char>| jpg_name(name);
    let mut selected: Vec<String> = Vec::new();
    let mut i: usize = 0;
    proof {
        reveal(Seq::filter);
        assert(names.deep_view().take(0) == Seq::<Seq<char>>::empty());
    }
    while i < names.len()
        invariant
            i <= names.len(),
            wanted == |name: Seq<char>| jpg_name(name),
            selected.deep_view() == names.deep_view().take(i as int).filter(wanted),
        decreases names.len() - i,
    {
        let ghost before = selected.deep_view();
        proof {
            reveal(Seq::filter);
            assert(names.deep_view().take(i + 1).drop_last() == names.deep_view().take(i as int));
            assert(names.deep_view().take(i + 1).last() == names[i as int]@);
        }
        if is_jpg_name(names[i].as_str()) {
            let name = names[i].clone();
            selected.push(name);
            assert(selected.deep_view() == before.push(names[i as int]@));
        }
        i += 1;
    }
    proof {
        assert(names.deep_view().take(names.len() as int) == names.deep_view());
        assert forall|i: int| 0 <= i < selected.len() implies jpg_name(
            #[trigger] selected.deep_view()[i],
        ) by {
            names.deep_view().lemma_filter_pred(wanted, i);
        }
    }
    selected
}

/// The stem of `name`: see [`stem_of`].
pub fn file_stem(name: &str) -> (stem: String)
    ensures
        stem@ == stem_of(name@),
{
    let chars = chars_of(name);
    let mut end: usize = chars.len();
    assert(name@.take(chars.len() as int) == name@);
    while end > 0 && chars[end - 1] != '.'
        invariant
            end <= chars.len(),
            chars@ == name@,
            last_dot(name@) == last_dot(name@.take(end as int)),
        decreases end,
    {
        proof {
            assert(name@.take(end as int).drop_last() == name@.take(end - 1));
        }
        end -= 1;
    }
    proof {
        assert(name@.take(chars.len() as int) == name@);
        if end > 0 {
            assert(name@.take(end as int).last() == '.');
        }
    }
    if end <= 1 {
        proof {
            assert(name@.subrange(0, name@.len() as int) == name@);
        }
        string_of(&chars, 0, chars.len())
    } else {
        string_of(&chars, 0, end - 1)
    }
}

/// Adding digits to a run of digits does not make its number smaller.
proof fn lemma_digits_value_grows(digits: Seq<char>, n: int)
    requires
        all_digits(digits),
        0 <= n <= digits.len(),
    ensures
        0 <= digits_value(digits.take(n)) <= digits_value(digits),
    decreases digits.len() - n,
{
    if n == digits.len() {
        assert(digits.take(n) == digits);
        lemma_digits_value_nonnegative(digits);
    } else {
        lemma_digits_value_grows(digits, n + 1);
        let longer = digits.take(n + 1);
        assert(longer.drop_last() == digits.take(n));
        assert(digit(digits[n]));
        assert(longer.last() == digits[n]);
        lemma_digits_value_nonnegative(digits.take(n));
    }
}

/// A run of digits writes no negative number.
proof fn lemma_digits_value_nonnegative(digits: Seq<char>)
    requires
        all_digits(digits),
    ensures
        0 <= digits_value(digits),
    decreases digits.len(),
{
    if digits.len() > 0 {
        let shorter = digits.drop_last();
        assert forall|i: int| 0 <= i < shorter.len() implies digit(#[trigger] shorter[i]) by {
            assert(shorter[i] == digits[i]);
        }
        lemma_digits_value_nonnegative(shorter);
        assert(digit(digits[digits.len() - 1]));
    }
}

/// The number that the digits `chars[start..]` write, unless one of them is
/// no digit or the number is above 2^31.
fn parse_magnitude(chars: &Vec<char>, start: usize) -> (magnitude: Option<i64>)
    requires
        start <= chars.len(),
    ensures
        match magnitude {
            Some(m) => all_digits(chars@.skip(start as int)) && m == digits_value(
                chars@.skip(start as int),
            ) && 0 <= m <= 2_147_483_648,
            None => !all_digits(chars@.skip(start as int)) || digits_value(
                chars@.skip(start as int),
            ) > 2_147_483_648,
        },
{
    let ghost digits = chars@.skip(start as int);
    let n = chars.len();
    let mut magnitude: i64 = 0;
    let mut i: usize = start;
    assert(digits.take(0) == Seq::<char>::empty());
    while i < n
        invariant
            start <= i <= n,
            n == chars.len(),
            digits == chars@.skip(start as int),
            forall|k: int| start <= k < i ==> digit(#[trigger] chars@[k]),
            magnitude == digits_value(digits.take(i - start)),
            0 <= magnitude <= 2_147_483_648,
        decreases n - i,
    {
        let c = chars[i];
        if !is_digit(c) {
            assert(!digit(digits[i - start]));
            return None;
        }
        let d: i64 = (c as u32 - '0' as u32) as i64;
        proof {
            let longer = digits.take(i - start + 1);
            assert(longer.drop_last() == digits.take(i - start));
            assert(longer.last() == c);
        }
        magnitude = magnitude * 10 + d;
        if magnitude > 2_147_483_648 {
            proof {
                if all_digits(digits) {
                    lemma_digits_value_grows(digits, i - start + 1);
                }
            }
            return None;
        }
        i += 1;
    }
    proof {
        assert(digits.take(n - start) == digits);
        assert forall|k: int| 0 <= k < digits.len() implies digit(#[trigger] digits[k]) by {
            assert(digits[k] == chars@[start + k]);
        }
    }
    Some(magnitude)
}

/// The integer that `text` writes: see [`integer_value`].
pub fn parse_integer(text: &str) -> (value: Option<i32>)
    ensures
        match integer_value(text@) {
            Some(v) => value == Some(v as i32),
            None => value is None,
        },
{
    let chars = chars_of(text);
    let n = chars.len();
    let signed = n > 0 && (chars[0] == '-' || chars[0] == '+');
    let negative = signed && chars[0] == '-';
    let start: usize = if signed {
        1
    } else {
        0
    };
    proof {
        if signed {
            assert(text@.skip(1) == text@.drop_first());
        } else {
            assert(text@.skip(0) == text@);
        }
    }
    if start == n {
        return None;
    }
    match parse_magnitude(&chars, start) {
        None => None,
        Some(magnitude) => {
            if negative {
                Some((-magnitude) as i32)
            } else if magnitude <= 2_147_483_647 {
                Some(magnitude as i32)
            } else {
                None
            }
        },
    }
}

/// What a post takes from an image's file name.
pub struct ImageParts {
    /// The file name without its extension.
    pub stem: Seq<char>,
    /// The integer that the stem writes.
    pub numeric_id: int,
    /// The stem without its last two characters.
    pub significant_digits: Seq<char>,
}

/// What the file name `name` gives, if its stem writes an integer.
pub open spec fn image_parts(name: Seq<char>) -> Option<ImageParts> {
    let stem = stem_of(name);
    match integer_value(stem) {
        Some(numeric_id) => Some(
            ImageParts { stem, numeric_id, significant_digits: significant_part(stem) },
        ),
        None => None,
    }
}

/// An image to write a post for. Its stem writes an integer.
#[derive(Debug, PartialEq, Eq)]
pub struct ImageFile {
    stem: String,
    numeric_id: i32,
    significant_digits: String,
}

impl View for ImageFile {
    type V = ImageParts;

    closed spec fn view(&self) -> ImageParts {
        ImageParts {
            stem: self.stem@,
            numeric_id: self.numeric_id as int,
            significant_digits: self.significant_digits@,
        }
    }
}

impl ImageFile {
    #[verifier::type_invariant]
    spec fn well_formed(self) -> bool {
        &&& integer_value(self.stem@) == Some(self.numeric_id as int)
        &&& self.significant_digits@ == significant_part(self.stem@)
    }

    /// Reads an image's file name. Fails where the stem is not an integer.
    pub fn parse(file_name: &str) -> (parsed: Result<ImageFile, PostError>)
        ensures
            match image_parts(file_name@) {
                Some(parts) => parsed is Ok && parsed->Ok_0@ == parts,
                None => parsed is Err && parsed->Err_0 == PostError::InvalidFileName,
            },
    {
        let stem = file_stem(file_name);
        match parse_integer(stem.as_str()) {
            None => Err(PostError::InvalidFileName),
            Some(numeric_id) => {
                let chars = chars_of(stem.as_str());
                let kept: usize = if chars.len() >= 2 {
                    chars.len() - 2
                } else {
                    0
                };
                let significant_digits = string_of(&chars, 0, kept);
                assert(significant_digits@ == significant_part(stem@));
                assert(integer_value(stem@) == Some(numeric_id as int));
                Ok(ImageFile { stem, numeric_id, significant_digits })
            },
        }
    }

    /// The file name without its extension.
    pub fn stem(&self) -> (stem: &String)
        ensures
            stem@ == self@.stem,
    {
        &self.stem
    }

    /// The integer that the stem writes.
    pub fn numeric_id(&self) -> (id: i32)
        ensures
            id == self@.numeric_id,
            integer_value(self@.stem) == Some(id as int),
    {
        proof {
            use_type_invariant(self);
        }
        self.numeric_id
    }

    /// The stem without its last two characters.
    pub fn significant_digits(&self) -> (digits: &String)
        ensures
            digits@ == self@.significant_digits,
            digits@ == significant_part(self@.stem),
    {
        proof {
            use_type_invariant(self);
        }
        &self.significant_digits
    }
}

} // verus!

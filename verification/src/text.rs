//! Characters and text: the three character classes, how often a class or a
//! code point occurs in a text, and the searches that format detection makes.

use vstd::prelude::*;
use vstd::std_specs::iter::IteratorSpec;

verus! {

broadcast use vstd::string::group_string_axioms;

/// Whether `char::is_alphabetic` holds of `c`.
pub uninterp spec fn is_alphabetic_char(c: char) -> bool;

/// `char::is_alphabetic` of the standard library, which tells whether a
/// character has the Unicode property Alphabetic. The answer depends on the
/// character alone; nothing else is claimed of it.
pub assume_specification[ char::is_alphabetic ](c: char) -> (b: bool)
    ensures
        b == is_alphabetic_char(c),
;

/// Whether `code` is one of the ten code points that begin at `zero`.
pub open spec fn in_digit_block(code: u32, zero: u32) -> bool {
    zero <= code < zero + 10
}

/// Whether `c` is a decimal digit: a character of the Unicode general
/// category Nd, as of Unicode 16.0. The decimal digits of a script are ten
/// code points in a row, from its digit zero to its digit nine; each block is
/// given here by the code point of its zero.
pub open spec fn is_decimal_digit_char(c: char) -> bool {
    let code = c as u32;
    in_digit_block(code, 0x0030)
    || in_digit_block(code, 0x0660)
    || in_digit_block(code, 0x06F0)
    || in_digit_block(code, 0x07C0)
    || in_digit_block(code, 0x0966)
    || in_digit_block(code, 0x09E6)
    || in_digit_block(code, 0x0A66)
    || in_digit_block(code, 0x0AE6)
    || in_digit_block(code, 0x0B66)
    || in_digit_block(code, 0x0BE6)
    || in_digit_block(code, 0x0C66)
    || in_digit_block(code, 0x0CE6)
    || in_digit_block(code, 0x0D66)
    || in_digit_block(code, 0x0DE6)
    || in_digit_block(code, 0x0E50)
    || in_digit_block(code, 0x0ED0)
    || in_digit_block(code, 0x0F20)
    || in_digit_block(code, 0x1040)
    || in_digit_block(code, 0x1090)
    || in_digit_block(code, 0x17E0)
    || in_digit_block(code, 0x1810)
    || in_digit_block(code, 0x1946)
    || in_digit_block(code, 0x19D0)
    || in_digit_block(code, 0x1A80)
    || in_digit_block(code, 0x1A90)
    || in_digit_block(code, 0x1B50)
    || in_digit_block(code, 0x1BB0)
    || in_digit_block(code, 0x1C40)
    || in_digit_block(code, 0x1C50)
    || in_digit_block(code, 0xA620)
    || in_digit_block(code, 0xA8D0)
    || in_digit_block(code, 0xA900)
    || in_digit_block(code, 0xA9D0)
    || in_digit_block(code, 0xA9F0)
    || in_digit_block(code, 0xAA50)
    || in_digit_block(code, 0xABF0)
    || in_digit_block(code, 0xFF10)
    || in_digit_block(code, 0x104A0)
    || in_digit_block(code, 0x10D30)
    || in_digit_block(code, 0x10D40)
    || in_digit_block(code, 0x11066)
    || in_digit_block(code, 0x110F0)
    || in_digit_block(code, 0x11136)
    || in_digit_block(code, 0x111D0)
    || in_digit_block(code, 0x112F0)
    || in_digit_block(code, 0x11450)
    || in_digit_block(code, 0x114D0)
    || in_digit_block(code, 0x11650)
    || in_digit_block(code, 0x116C0)
    || in_digit_block(code, 0x116D0)
    || in_digit_block(code, 0x116DA)
    || in_digit_block(code, 0x11730)
    || in_digit_block(code, 0x118E0)
    || in_digit_block(code, 0x11950)
    || in_digit_block(code, 0x11BF0)
    || in_digit_block(code, 0x11C50)
    || in_digit_block(code, 0x11D50)
    || in_digit_block(code, 0x11DA0)
    || in_digit_block(code, 0x11F50)
    || in_digit_block(code, 0x16130)
    || in_digit_block(code, 0x16A60)
    || in_digit_block(code, 0x16AC0)
    || in_digit_block(code, 0x16B50)
    || in_digit_block(code, 0x16D70)
    || in_digit_block(code, 0x1CCF0)
    || in_digit_block(code, 0x1D7CE)
    || in_digit_block(code, 0x1D7D8)
    || in_digit_block(code, 0x1D7E2)
    || in_digit_block(code, 0x1D7EC)
    || in_digit_block(code, 0x1D7F6)
    || in_digit_block(code, 0x1E140)
    || in_digit_block(code, 0x1E2F0)
    || in_digit_block(code, 0x1E4F0)
    || in_digit_block(code, 0x1E5F1)
    || in_digit_block(code, 0x1E950)
    || in_digit_block(code, 0x1FBF0)
}

/// The class under which a character is counted.
#[derive(Clone, Copy, Debug, PartialEq, Eq, Structural)]
pub enum CharClass {
    Numeric,
    Alphabetic,
    Special,
}

/// Every character has exactly one class: numeric if it is a decimal digit,
/// else alphabetic if it has the Unicode property Alphabetic, else special.
pub open spec fn class_of(c: char) -> CharClass {
    if is_decimal_digit_char(c) {
        CharClass::Numeric
    } else if is_alphabetic_char(c) {
        CharClass::Alphabetic
    } else {
        CharClass::Special
    }
}

/// How many characters of `text` have the class `class`.
pub open spec fn count_class(text: Seq<char>, class: CharClass) -> nat
    decreases text.len(),
{
    if text.len() == 0 {
        0
    } else {
        count_class(text.drop_last(), class) + if class_of(text.last()) == class {
            1nat
        } else {
            0nat
        }
    }
}

/// How many characters of `text` have the code point `code`.
pub open spec fn occurrences(text: Seq<char>, code: u32) -> nat
    decreases text.len(),
{
    if text.len() == 0 {
        0
    } else {
        occurrences(text.drop_last(), code) + if text.last() as u32 == code {
            1nat
        } else {
            0nat
        }
    }
}

/// The three classes share out the characters of a text: their counts add up
/// to its length.
pub proof fn lemma_classes_partition(text: Seq<char>)
    ensures
        count_class(text, CharClass::Numeric) + count_class(text, CharClass::Alphabetic)
            + count_class(text, CharClass::Special) == text.len(),
    decreases text.len(),
{
    if text.len() > 0 {
        lemma_classes_partition(text.drop_last());
    }
}

/// A code point occurs at most once per character, and only where the text
/// holds a character with that code point.
pub proof fn lemma_occurrences_bound(text: Seq<char>, code: u32)
    ensures
        occurrences(text, code) <= text.len(),
        occurrences(text, code) > 0 <==> exists|i: int|
            0 <= i < text.len() && text[i] as u32 == code,
    decreases text.len(),
{
    if text.len() > 0 {
        let front = text.drop_last();
        lemma_occurrences_bound(front, code);
        if exists|i: int| 0 <= i < text.len() && text[i] as u32 == code {
            let i = choose|i: int| 0 <= i < text.len() && text[i] as u32 == code;
            if i < front.len() {
                assert(front[i] as u32 == code);
            }
        }
    }
}

/// Counting goes through a text from its start: one more character adds one
/// to the count of its class and of its code point.
pub proof fn lemma_count_step(text: Seq<char>, i: int)
    requires
        0 <= i < text.len(),
    ensures
        forall|class: CharClass| #[trigger]
            count_class(text.take(i + 1), class) == count_class(text.take(i), class) + if class_of(
                text[i],
            ) == class {
                1nat
            } else {
                0nat
            },
        forall|code: u32| #[trigger]
            occurrences(text.take(i + 1), code) == occurrences(text.take(i), code)
                + if text[i] as u32 == code {
                1nat
            } else {
                0nat
            },
{
    assert(text.take(i + 1).drop_last() =~= text.take(i));
}

/// The texts that a list of strings holds, in order.
pub open spec fn texts(list: Seq<String>) -> Seq<Seq<char>> {
    Seq::new(list.len(), |i: int| list[i]@)
}

/// Whether `code` is one of the ten code points that begin at `zero`.
fn within_digit_block(code: u32, zero: u32) -> (within: bool)
    requires
        zero <= 0x10FFFF,
    ensures
        within == in_digit_block(code, zero),
{
    zero <= code && code < zero + 10
}

/// Whether `c` is a decimal digit.
pub fn is_decimal_digit(c: char) -> (b: bool)
    ensures
        b == is_decimal_digit_char(c),
{
    let code = c as u32;
    within_digit_block(code, 0x0030)
    || within_digit_block(code, 0x0660)
    || within_digit_block(code, 0x06F0)
    || within_digit_block(code, 0x07C0)
    || within_digit_block(code, 0x0966)
    || within_digit_block(code, 0x09E6)
    || within_digit_block(code, 0x0A66)
    || within_digit_block(code, 0x0AE6)
    || within_digit_block(code, 0x0B66)
    || within_digit_block(code, 0x0BE6)
    || within_digit_block(code, 0x0C66)
    || within_digit_block(code, 0x0CE6)
    || within_digit_block(code, 0x0D66)
    || within_digit_block(code, 0x0DE6)
    || within_digit_block(code, 0x0E50)
    || within_digit_block(code, 0x0ED0)
    || within_digit_block(code, 0x0F20)
    || within_digit_block(code, 0x1040)
    || within_digit_block(code, 0x1090)
    || within_digit_block(code, 0x17E0)
    || within_digit_block(code, 0x1810)
    || within_digit_block(code, 0x1946)
    || within_digit_block(code, 0x19D0)
    || within_digit_block(code, 0x1A80)
    || within_digit_block(code, 0x1A90)
    || within_digit_block(code, 0x1B50)
    || within_digit_block(code, 0x1BB0)
    || within_digit_block(code, 0x1C40)
    || within_digit_block(code, 0x1C50)
    || within_digit_block(code, 0xA620)
    || within_digit_block(code, 0xA8D0)
    || within_digit_block(code, 0xA900)
    || within_digit_block(code, 0xA9D0)
    || within_digit_block(code, 0xA9F0)
    || within_digit_block(code, 0xAA50)
    || within_digit_block(code, 0xABF0)
    || within_digit_block(code, 0xFF10)
    || within_digit_block(code, 0x104A0)
    || within_digit_block(code, 0x10D30)
    || within_digit_block(code, 0x10D40)
    || within_digit_block(code, 0x11066)
    || within_digit_block(code, 0x110F0)
    || within_digit_block(code, 0x11136)
    || within_digit_block(code, 0x111D0)
    || within_digit_block(code, 0x112F0)
    || within_digit_block(code, 0x11450)
    || within_digit_block(code, 0x114D0)
    || within_digit_block(code, 0x11650)
    || within_digit_block(code, 0x116C0)
    || within_digit_block(code, 0x116D0)
    || within_digit_block(code, 0x116DA)
    || within_digit_block(code, 0x11730)
    || within_digit_block(code, 0x118E0)
    || within_digit_block(code, 0x11950)
    || within_digit_block(code, 0x11BF0)
    || within_digit_block(code, 0x11C50)
    || within_digit_block(code, 0x11D50)
    || within_digit_block(code, 0x11DA0)
    || within_digit_block(code, 0x11F50)
    || within_digit_block(code, 0x16130)
    || within_digit_block(code, 0x16A60)
    || within_digit_block(code, 0x16AC0)
    || within_digit_block(code, 0x16B50)
    || within_digit_block(code, 0x16D70)
    || within_digit_block(code, 0x1CCF0)
    || within_digit_block(code, 0x1D7CE)
    || within_digit_block(code, 0x1D7D8)
    || within_digit_block(code, 0x1D7E2)
    || within_digit_block(code, 0x1D7EC)
    || within_digit_block(code, 0x1D7F6)
    || within_digit_block(code, 0x1E140)
    || within_digit_block(code, 0x1E2F0)
    || within_digit_block(code, 0x1E4F0)
    || within_digit_block(code, 0x1E5F1)
    || within_digit_block(code, 0x1E950)
    || within_digit_block(code, 0x1FBF0)
}

/// The class of `c`.
pub fn classify_char(c: char) -> (class: CharClass)
    ensures
        class == class_of(c),
{
    if is_decimal_digit(c) {
        CharClass::Numeric
    } else if c.is_alphabetic() {
        CharClass::Alphabetic
    } else {
        CharClass::Special
    }
}

/// How many characters of a text fall under each class.
#[derive(Clone, Copy, Debug, PartialEq, Eq, Structural)]
pub struct ClassCounts {
    pub numeric: usize,
    pub alphabetic: usize,
    pub special: usize,
}

/// Counts the characters of `text` by class.
pub fn count_classes(text: &str) -> (counts: ClassCounts)
    ensures
        counts.numeric == count_class(text@, CharClass::Numeric),
        counts.alphabetic == count_class(text@, CharClass::Alphabetic),
        counts.special == count_class(text@, CharClass::Special),
        counts.numeric + counts.alphabetic + counts.special == text@.len(),
{
    let length: usize = text.unicode_len();
    let mut counts = ClassCounts { numeric: 0, alphabetic: 0, special: 0 };
    for c in it: text.chars()
        invariant
            it.seq() == text@,
            length == text@.len(),
            counts.numeric == count_class(text@.take(it.index()), CharClass::Numeric),
            counts.alphabetic == count_class(text@.take(it.index()), CharClass::Alphabetic),
            counts.special == count_class(text@.take(it.index()), CharClass::Special),
            counts.numeric + counts.alphabetic + counts.special == it.index(),
    {
        proof {
            lemma_count_step(text@, it.index());
        }
        match classify_char(c) {
            CharClass::Numeric => {
                counts.numeric = counts.numeric + 1;
            },
            CharClass::Alphabetic => {
                counts.alphabetic = counts.alphabetic + 1;
            },
            CharClass::Special => {
                counts.special = counts.special + 1;
            },
        }
    }
    assert(text@.take(text@.len() as int) =~= text@);
    counts
}

/// Whether `c` occurs in `text`.
pub fn contains_char(text: &str, c: char) -> (found: bool)
    ensures
        found == text@.contains(c),
{
    let mut found = false;
    for x in it: text.chars()
        invariant
            it.seq() == text@,
            found <==> exists|j: int| 0 <= j < it.index() && text@[j] == c,
    {
        if x == c {
            found = true;
        }
    }
    found
}

/// Whether `text` begins with `prefix`.
pub fn starts_with(text: &str, prefix: &str) -> (found: bool)
    ensures
        found == prefix@.is_prefix_of(text@),
{
    let mut rest = text.chars();
    let mut agree = true;
    for p in it: prefix.chars()
        invariant
            it.seq() == prefix@,
            agree ==> it.index() <= text@.len() && rest.remaining() == text@.skip(it.index())
                && text@.take(it.index()) == prefix@.take(it.index()),
            !agree ==> !prefix@.is_prefix_of(text@),
    {
        if agree {
            match rest.next() {
                Some(t) => {
                    if t != p {
                        agree = false;
                    }
                },
                None => {
                    agree = false;
                },
            }
        }
    }
    agree
}

/// Whether `item` is among the strings of `list`.
pub fn contains_text(list: &Vec<String>, item: &String) -> (found: bool)
    ensures
        found == texts(list@).contains(item@),
{
    let mut i: usize = 0;
    while i < list.len()
        invariant
            i <= list.len(),
            forall|j: int| 0 <= j < i ==> texts(list@)[j] != item@,
        decreases list.len() - i,
    {
        if list[i] == *item {
            assert(texts(list@)[i as int] == item@);
            return true;
        }
        i = i + 1;
    }
    false
}

} // verus!

//! Comparison, search and concatenation of text.

use vstd::prelude::*;
use vstd::string::*;

verus! {

/// `needle` occurs in `text` as a run of consecutive elements.
pub open spec fn occurs_in<T>(needle: Seq<T>, text: Seq<T>) -> bool {
    exists|at: int| #[trigger] occurs_at(needle, text, at)
}

/// `needle` occurs in `text`, starting at the element with index `at`.
pub open spec fn occurs_at<T>(needle: Seq<T>, text: Seq<T>, at: int) -> bool {
    &&& 0 <= at
    &&& at + needle.len() <= text.len()
    &&& text.subrange(at, at + needle.len()) == needle
}

/// The characters of each text.
pub open spec fn text_views(texts: Seq<String>) -> Seq<Seq<char>> {
    texts.map_values(|text: String| text@)
}

/// The decimal digits of `n`, without leading zeros.
pub open spec fn decimal(n: nat) -> Seq<char>
    decreases n,
{
    if n < 10 {
        seq![digit(n)]
    } else {
        decimal(n / 10).push(digit(n % 10))
    }
}

/// The character for the digit `d`.
pub open spec fn digit(d: nat) -> char {
    ('0' as u32 + d) as char
}

/// Tells whether the two texts hold the same characters.
pub fn same_text(left: &str, right: &str) -> (same: bool)
    ensures
        same == (left@ == right@),
{
    left.to_owned() == right.to_owned()
}

/// Tells whether `needle` occurs in `text`.
pub fn contains_text(text: &str, needle: &str) -> (found: bool)
    ensures
        found == occurs_in(needle@, text@),
{
    let text_len: usize = text.unicode_len();
    let needle_len: usize = needle.unicode_len();
    if needle_len > text_len {
        return false;
    }
    if needle_len == 0 {
        assert(text@.subrange(0, 0) =~= needle@);
        assert(occurs_at(needle@, text@, 0));
        return true;
    }
    let mut at: usize = 0;
    while at <= text_len - needle_len
        invariant
            text_len == text@.len(),
            needle_len == needle@.len(),
            0 < needle_len <= text_len,
            at <= text_len - needle_len + 1,
            forall|k: int| 0 <= k < at ==> !#[trigger] occurs_at(needle@, text@, k),
        decreases text_len - needle_len + 1 - at,
    {
        if same_text(text.substring_char(at, at + needle_len), needle) {
            assert(occurs_at(needle@, text@, at as int));
            return true;
        }
        at = at + 1;
    }
    false
}

/// The digit `d` as text.
fn digit_text(d: u32) -> (text: &'static str)
    requires
        d < 10,
    ensures
        text@ == seq![digit(d as nat)],
{
    proof {
        reveal_strlit("0");
        reveal_strlit("1");
        reveal_strlit("2");
        reveal_strlit("3");
        reveal_strlit("4");
        reveal_strlit("5");
        reveal_strlit("6");
        reveal_strlit("7");
        reveal_strlit("8");
        reveal_strlit("9");
    }
    match d {
        0 => "0",
        1 => "1",
        2 => "2",
        3 => "3",
        4 => "4",
        5 => "5",
        6 => "6",
        7 => "7",
        8 => "8",
        _ => "9",
    }
}

/// The decimal digits of `n`.
pub fn decimal_text(n: u32) -> (digits: String)
    ensures
        digits@ == decimal(n as nat),
    decreases n,
{
    if n < 10 {
        digit_text(n).to_owned()
    } else {
        let mut digits: String = decimal_text(n / 10);
        digits.append(digit_text(n % 10));
        digits
    }
}

} // verus!

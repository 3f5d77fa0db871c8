//! The order of paging tokens, and the cursor that follows them.

use vstd::prelude::*;
use vstd::string::*;

verus! {

/// Where an event stands among all events of the ledger.
#[derive(Debug, Clone, Copy, PartialEq, Eq, Structural)]
pub struct Position {
    /// Number of the operation that the event belongs to.
    pub operation: u64,
    /// Number of the event within the operation.
    pub index: u64,
}

impl Position {
    /// The position comes before `other`.
    pub open spec fn before(self, other: Position) -> bool {
        self.operation < other.operation || (self.operation == other.operation && self.index
            < other.index)
    }

    /// Tells whether the position comes before `other`.
    pub fn is_before(&self, other: &Position) -> (before: bool)
        ensures
            before == self.before(*other),
    {
        self.operation < other.operation || (self.operation == other.operation && self.index
            < other.index)
    }
}

/// The character is a decimal digit.
pub open spec fn is_digit(c: char) -> bool {
    '0' <= c <= '9'
}

/// The text is made of decimal digits.
pub open spec fn is_number(text: Seq<char>) -> bool {
    text.len() > 0 && forall|i: int| 0 <= i < text.len() ==> is_digit(#[trigger] text[i])
}

/// The number that decimal digits stand for.
pub open spec fn number(digits: Seq<char>) -> nat
    decreases digits.len(),
{
    if digits.len() == 0 {
        0
    } else {
        number(digits.drop_last()) * 10 + (digits.last() as nat - '0' as nat) as nat
    }
}

/// The number that a text stands for, if it is one of at most 64 bits.
pub open spec fn number_of(text: Seq<char>) -> Option<u64> {
    if is_number(text) && number(text) <= u64::MAX {
        Some(number(text) as u64)
    } else {
        None
    }
}

/// The position that a paging token stands for: the number of the operation, and
/// after a dash that of the event. A token of another form stands for none.
pub open spec fn position(token: Seq<char>) -> Option<Position> {
    match token.index_of_first('-') {
        Some(dash) => match (
            number_of(token.take(dash)),
            number_of(token.skip(dash + 1)),
        ) {
            (Some(operation), Some(index)) => Some(Position { operation, index }),
            _ => None,
        },
        None => match number_of(token) {
            Some(operation) => Some(Position { operation, index: 0 }),
            None => None,
        },
    }
}

/// The cursor has reached the event of the token: a request from this cursor does
/// not ask for it.
pub open spec fn reached(cursor: Seq<char>, token: Seq<char>) -> bool {
    match (position(cursor), position(token)) {
        (Some(at), Some(event)) => !at.before(event),
        _ => false,
    }
}

/// Following the token would take the cursor back: both stand for a position, and that
/// of the token comes first. Tokens of another form have no place in the order.
pub open spec fn stays_for(cursor: Seq<char>, token: Seq<char>) -> bool {
    match (position(cursor), position(token)) {
        (Some(at), Some(event)) => event.before(at),
        _ => false,
    }
}

/// The cursor after an event: it moves to the token of the event, unless that would
/// take it back.
pub open spec fn advanced(cursor: Seq<char>, token: Seq<char>) -> Seq<char> {
    if stays_for(cursor, token) {
        cursor
    } else {
        token
    }
}

/// Where the cursor `later` stands is not behind where `earlier` stands.
pub open spec fn not_behind(later: Seq<char>, earlier: Seq<char>) -> bool {
    position(earlier) is Some ==> reached(later, earlier)
}

/// The numbers of longer texts of digits are at least as large.
proof fn lemma_number_grows(digits: Seq<char>, m: int)
    requires
        0 <= m <= digits.len(),
        forall|i: int| 0 <= i < digits.len() ==> is_digit(#[trigger] digits[i]),
    ensures
        number(digits.take(m)) <= number(digits),
    decreases digits.len() - m,
{
    if m == digits.len() {
        assert(digits.take(m) =~= digits);
    } else {
        let shorter = digits.drop_last();
        assert forall|i: int| 0 <= i < shorter.len() implies is_digit(#[trigger] shorter[i]) by {
            assert(shorter[i] == digits[i]);
        }
        assert(shorter.take(m) =~= digits.take(m));
        lemma_number_grows(shorter, m);
    }
}

/// Reads the characters from index `start` up to `end` as a number.
fn read_number(text: &str, start: usize, end: usize) -> (read: Option<u64>)
    requires
        start <= end <= text@.len(),
    ensures
        read == number_of(text@.subrange(start as int, end as int)),
{
    let ghost part = text@.subrange(start as int, end as int);
    if start == end {
        return None;
    }
    let mut value: u64 = 0;
    let mut at: usize = start;
    while at < end
        invariant
            start <= at <= end <= text@.len(),
            start < end,
            part == text@.subrange(start as int, end as int),
            forall|i: int| 0 <= i < at - start ==> is_digit(#[trigger] part[i]),
            value == number(part.take(at - start)),
        decreases end - at,
    {
        let c: char = text.get_char(at);
        assert(part[at - start] == c);
        if c < '0' || c > '9' {
            return None;
        }
        let digit: u64 = (c as u32 - '0' as u32) as u64;
        proof {
            let longer = part.take(at - start + 1);
            assert(longer.drop_last() =~= part.take(at - start));
            assert(longer.last() == c);
            if is_number(part) {
                lemma_number_grows(part, at - start + 1);
            }
        }
        value = match value.checked_mul(10) {
            Some(tens) => match tens.checked_add(digit) {
                Some(sum) => sum,
                None => {
                    return None;
                },
            },
            None => {
                return None;
            },
        };
        at = at + 1;
    }
    assert(part.take(at - start) =~= part);
    Some(value)
}

/// Reads the position that a paging token stands for.
pub fn read_position(token: &str) -> (read: Option<Position>)
    ensures
        read == position(token@),
{
    let len: usize = token.unicode_len();
    let mut dash: usize = 0;
    while dash < len && token.get_char(dash) != '-'
        invariant
            dash <= len,
            len == token@.len(),
            forall|i: int| 0 <= i < dash ==> #[trigger] token@[i] != '-',
        decreases len - dash,
    {
        dash = dash + 1;
    }
    proof {
        token@.index_of_first_ensures('-');
        assert(token@.subrange(0, len as int) =~= token@);
    }
    if dash == len {
        assert(token@.index_of_first('-') is None);
        return match read_number(token, 0, len) {
            Some(operation) => Some(Position { operation, index: 0 }),
            None => None,
        };
    }
    proof {
        assert(token@.contains('-'));
        assert(token@.index_of_first('-') == Some(dash as int));
        assert(token@.subrange(0, dash as int) =~= token@.take(dash as int));
        assert(token@.subrange(dash + 1, len as int) =~= token@.skip(dash + 1));
    }
    match (read_number(token, 0, dash), read_number(token, dash + 1, len)) {
        (Some(operation), Some(index)) => Some(Position { operation, index }),
        _ => None,
    }
}

/// Tells whether following the token would take the cursor back.
pub fn cursor_stays(cursor: &str, token: &str) -> (stays: bool)
    ensures
        stays == stays_for(cursor@, token@),
{
    match (read_position(cursor), read_position(token)) {
        (Some(at), Some(event)) => event.is_before(&at),
        _ => false,
    }
}

/// After an event the cursor is not behind the event. If the token of the event stands
/// for a position, the cursor is not behind where it was either; a token of another
/// form is always followed.
pub proof fn law_cursor_advances(cursor: Seq<char>, token: Seq<char>)
    ensures
        not_behind(advanced(cursor, token), token),
        position(token) is Some ==> not_behind(advanced(cursor, token), cursor),
        position(token) is None ==> advanced(cursor, token) == token,
{
}

/// What an earlier cursor has reached, a cursor that is not behind it has reached too.
pub proof fn law_reached_stays_reached(
    later: Seq<char>,
    earlier: Seq<char>,
    token: Seq<char>,
)
    requires
        not_behind(later, earlier),
        reached(earlier, token),
    ensures
        reached(later, token),
{
}

} // verus!

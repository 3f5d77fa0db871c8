//! What holds of texts, numbers and paging tokens.

use crate::paging::{cursor_stays, is_digit, is_number, number, read_position, Position};
use crate::text::{
    contains_text, decimal, decimal_text, digit, occurs_at, occurs_in, same_text, text_views,
};
use vstd::prelude::*;
use vstd::string::*;

verus! {

/// Somewhere in `text` the elements of `run` follow one another.
pub open spec fn holds_run<T>(text: Seq<T>, run: Seq<T>) -> bool {
    exists|at: int| 0 <= at <= text.len() && run.is_prefix_of(#[trigger] text.skip(at))
}

/// To occur in a text is to be a run of it.
pub proof fn law_occurs_is_run<T>(needle: Seq<T>, text: Seq<T>)
    ensures
        occurs_in(needle, text) <==> holds_run(text, needle),
{
    if occurs_in(needle, text) {
        let at = choose|at: int| #[trigger] occurs_at(needle, text, at);
        assert(text.skip(at).subrange(0, needle.len() as int) =~= text.subrange(
            at,
            at + needle.len(),
        ));
        assert(needle.is_prefix_of(text.skip(at)));
    }
    if holds_run(text, needle) {
        let at = choose|at: int|
            0 <= at <= text.len() && needle.is_prefix_of(#[trigger] text.skip(at));
        assert(text.skip(at).subrange(0, needle.len() as int) =~= text.subrange(
            at,
            at + needle.len(),
        ));
        assert(occurs_at(needle, text, at));
    }
}

/// Whatever stands before and after it, a run is found; what is found is a run.
pub proof fn law_contains_finds_runs(
    text: &str,
    needle: &str,
    found: bool,
    before: Seq<char>,
    after: Seq<char>,
)
    requires
        call_ensures(contains_text, (text, needle), found),
    ensures
        found <==> holds_run(text@, needle@),
        text@ == before + needle@ + after ==> found,
{
    law_occurs_is_run(needle@, text@);
    if text@ == before + needle@ + after {
        let at = before.len() as int;
        assert(text@.subrange(at, at + needle@.len()) =~= needle@);
        assert(occurs_at(needle@, text@, at));
    }
}

/// Two texts are the same exactly if they hold the same characters.
pub proof fn law_same_text(left: &str, right: &str, same: bool)
    requires
        call_ensures(same_text, (left, right), same),
    ensures
        same <==> left@ == right@,
{
}

/// The views of texts are their characters, one for one.
pub proof fn law_text_views(texts: Seq<String>, i: int)
    requires
        0 <= i < texts.len(),
    ensures
        text_views(texts).len() == texts.len(),
        text_views(texts)[i] == texts[i]@,
{
}

/// A further digit makes a number ten times as large and adds itself.
pub proof fn law_number_is_decimal(digits: Seq<char>, last: char)
    requires
        '0' <= last <= '9',
    ensures
        number(Seq::<char>::empty()) == 0,
        number(digits.push(last)) == 10 * number(digits) + (last as int - 48),
{
    assert(digits.push(last).drop_last() =~= digits);
}

/// The digits of a number stand for it, and do not begin with a zero but for zero
/// itself.
pub proof fn law_decimal_text_is_the_number(n: u32, digits: String, i: int)
    requires
        call_ensures(decimal_text, (n,), digits),
    ensures
        digits@.len() > 0,
        0 <= i < digits@.len() ==> '0' <= digits@[i] <= '9',
        number(digits@) == n,
        n == 0 ==> digits@.len() == 1,
        n > 0 ==> digits@[0] != '0',
{
    lemma_decimal(n as nat, i);
}

/// So it is with the digits of any number.
proof fn lemma_decimal(n: nat, i: int)
    ensures
        decimal(n).len() > 0,
        0 <= i < decimal(n).len() ==> '0' <= decimal(n)[i] <= '9',
        number(decimal(n)) == n,
        n < 10 ==> decimal(n).len() == 1,
        n > 0 ==> decimal(n)[0] != '0',
    decreases n,
{
    if n < 10 {
        assert(decimal(n) =~= Seq::<char>::empty().push(digit(n)));
        law_number_is_decimal(Seq::<char>::empty(), digit(n));
    } else {
        lemma_decimal(n / 10, i);
        law_number_is_decimal(decimal(n / 10), digit(n % 10));
    }
}

/// Digits and nothing else.
proof fn lemma_digits_are_number(text: Seq<char>)
    ensures
        is_number(text) <==> text.len() > 0 && forall|i: int|
            0 <= i < text.len() ==> '0' <= #[trigger] text[i] <= '9',
{
    if forall|i: int| 0 <= i < text.len() ==> '0' <= #[trigger] text[i] <= '9' {
        assert forall|i: int| 0 <= i < text.len() implies is_digit(#[trigger] text[i]) by {
            assert('0' <= text[i] <= '9');
        }
    }
    if is_number(text) {
        assert forall|i: int| 0 <= i < text.len() implies '0' <= #[trigger] text[i] <= '9' by {
            assert(is_digit(text[i]));
        }
    }
}

/// A token of two numbers with a dash between them stands for the operation and the
/// event of these numbers, if both fit into 64 bits, and otherwise for nothing.
pub proof fn law_token_of_two_numbers(
    token: &str,
    operation: Seq<char>,
    index: Seq<char>,
    found: Option<Position>,
)
    requires
        call_ensures(read_position, (token,), found),
        token@ == operation.push('-') + index,
        operation.len() > 0,
        index.len() > 0,
        forall|i: int| 0 <= i < operation.len() ==> '0' <= #[trigger] operation[i] <= '9',
        forall|i: int| 0 <= i < index.len() ==> '0' <= #[trigger] index[i] <= '9',
    ensures
        found is Some <==> number(operation) <= u64::MAX && number(index) <= u64::MAX,
        found matches Some(position) ==> position.operation == number(operation)
            && position.index == number(index),
{
    let dash = operation.len() as int;
    assert(token@[dash] == '-');
    assert forall|i: int| 0 <= i < dash implies token@[i] != '-' by {
        assert('0' <= operation[i] <= '9');
    }
    token@.index_of_first_ensures('-');
    assert(token@.contains('-'));
    assert(token@.index_of_first('-') == Some(dash));
    assert(token@.take(dash) =~= operation);
    assert(token@.skip(dash + 1) =~= index);
    lemma_digits_are_number(operation);
    lemma_digits_are_number(index);
}

/// A token of one number stands for the first event of the operation of this number, if
/// it fits into 64 bits, and otherwise for nothing.
pub proof fn law_token_of_one_number(token: &str, found: Option<Position>)
    requires
        call_ensures(read_position, (token,), found),
        token@.len() > 0,
        forall|i: int| 0 <= i < token@.len() ==> '0' <= #[trigger] token@[i] <= '9',
    ensures
        found is Some <==> number(token@) <= u64::MAX,
        found matches Some(position) ==> position.operation == number(token@)
            && position.index == 0,
{
    token@.index_of_first_ensures('-');
    if token@.contains('-') {
        let i = choose|i: int| 0 <= i < token@.len() && token@[i] == '-';
        assert('0' <= token@[i] <= '9');
    }
    lemma_digits_are_number(token@);
}

/// A token that stands for a position is made of digits and at most one dash, which
/// stands between digits.
pub proof fn law_other_tokens_have_no_position(
    token: &str,
    found: Option<Position>,
    i: int,
    j: int,
)
    requires
        call_ensures(read_position, (token,), found),
        found is Some,
        0 <= i < token@.len(),
        0 <= j < token@.len(),
    ensures
        token@[i] == '-' || '0' <= token@[i] <= '9',
        token@[i] == '-' && token@[j] == '-' ==> i == j,
        token@[0] != '-',
        token@.last() != '-',
{
    token@.index_of_first_ensures('-');
    match token@.index_of_first('-') {
        Some(dash) => {
            let operation = token@.take(dash);
            let index = token@.skip(dash + 1);
            lemma_digits_are_number(operation);
            lemma_digits_are_number(index);
            assert(operation.len() > 0 && index.len() > 0);
            assert forall|k: int| 0 <= k < token@.len() && k != dash implies '0'
                <= #[trigger] token@[k] <= '9' by {
                if k < dash {
                    assert(operation[k] == token@[k]);
                } else {
                    assert(index[k - dash - 1] == token@[k]);
                }
            }
        },
        None => {
            lemma_digits_are_number(token@);
        },
    }
}

/// The empty token stands for nothing.
pub proof fn law_empty_token_has_no_position(token: &str, found: Option<Position>)
    requires
        call_ensures(read_position, (token,), found),
        token@.len() == 0,
    ensures
        found is None,
{
    token@.index_of_first_ensures('-');
}

/// Positions are ordered by the operation, and within one by the event.
pub proof fn law_positions_are_ordered(left: &Position, right: &Position, before: bool)
    requires
        call_ensures(Position::is_before, (left, right), before),
    ensures
        left.operation < right.operation ==> before,
        left.operation > right.operation ==> !before,
        left.operation == right.operation ==> (before <==> left.index < right.index),
{
}

/// The cursor stays exactly if both it and the token stand for positions and that of the
/// token comes first.
pub proof fn law_cursor_stays_before_earlier_tokens(
    cursor: &str,
    token: &str,
    at: Option<Position>,
    event: Option<Position>,
    stays: bool,
)
    requires
        call_ensures(read_position, (cursor,), at),
        call_ensures(read_position, (token,), event),
        call_ensures(cursor_stays, (cursor, token), stays),
    ensures
        stays <==> at is Some && event is Some && (event->0.operation < at->0.operation
            || event->0.operation == at->0.operation && event->0.index < at->0.index),
{
}

} // verus!

//! Page cursors: a creation time and an ID in one string.

use vstd::prelude::*;

use crate::store::types::{StoreError, StoreErrorView};
use crate::text::{decimal_text, joined, joined3, parse_i64, split_once};

verus! {

/// The cursor of a record.
pub open spec fn cursor_text(created_at: i64, id: Seq<char>) -> Seq<char> {
    crate::text::decimal(created_at as int) + ":"@ + id
}

/// What a cursor is read as: the time before its first colon and the ID behind
/// it.
pub open spec fn cursor_reading(cursor: Seq<char>) -> Result<(i64, Seq<char>), StoreErrorView> {
    if !cursor.contains(':') {
        Err(StoreErrorView::Database("invalid cursor format: "@ + cursor))
    } else {
        let colon = cursor.index_of_first(':')->0;
        let time = cursor.take(colon);
        match crate::text::i64_of_text(time) {
            Some(created_at) => Ok((created_at, cursor.skip(colon + 1))),
            None => Err(
                StoreErrorView::Database("invalid cursor timestamp: "@ + crate::text::i64_error_text(time)),
            ),
        }
    }
}

/// Makes the cursor of a record.
pub fn encode_cursor(created_at: i64, id: &str) -> (cursor: String)
    ensures
        cursor@ == cursor_text(created_at, id@),
        cursor_reading(cursor@) == Ok::<(i64, Seq<char>), StoreErrorView>((created_at, id@)),
{
    let time = decimal_text(created_at);
    proof {
        lemma_cursor_reads_back(created_at, id@);
    }
    joined3(time.as_str(), ":", id)
}

/// The time of a cursor, from what was made of the text before its colon.
pub fn cursor_time(parsed: Result<i64, String>) -> (time: Result<i64, StoreError>)
    ensures
        match (parsed, time) {
            (Ok(given), Ok(taken)) => taken == given,
            (Err(message), Err(error)) => error@ == StoreErrorView::Database(
                "invalid cursor timestamp: "@ + message@,
            ),
            _ => false,
        },
{
    match parsed {
        Ok(created_at) => Ok(created_at),
        Err(message) => Err(StoreError::Database(joined("invalid cursor timestamp: ", message.as_str()))),
    }
}

/// Reads a cursor.
pub fn parse_cursor(cursor: &str) -> (parsed: Result<(i64, &str), StoreError>)
    ensures
        match parsed {
            Ok((created_at, id)) => cursor_reading(cursor@) == Ok::<(i64, Seq<char>), StoreErrorView>((created_at, id@)),
            Err(error) => cursor_reading(cursor@) == Err::<(i64, Seq<char>), StoreErrorView>(error@),
        },
{
    match split_once(cursor, ':') {
        None => Err(StoreError::Database(joined("invalid cursor format: ", cursor))),
        Some((time, id)) => {
            proof {
                lemma_first_colon(time@, id@);
            }
            match cursor_time(parse_i64(time)) {
                Ok(created_at) => Ok((created_at, id)),
                Err(error) => Err(error),
            }
        },
    }
}

proof fn lemma_first_colon(before: Seq<char>, after: Seq<char>)
    requires
        !before.contains(':'),
    ensures
        ({
            let whole = before + seq![':'] + after;
            &&& whole.contains(':')
            &&& whole.index_of_first(':') == Some(before.len() as int)
            &&& whole.take(before.len() as int) == before
            &&& whole.skip(before.len() as int + 1) == after
        }),
{
    let whole = before + seq![':'] + after;
    assert(whole[before.len() as int] == ':');
    whole.index_of_first_ensures(':');
    let at = whole.index_of_first(':')->0;
    if at < before.len() {
        assert(before[at] == ':');
    }
    assert(whole.take(before.len() as int) =~= before);
    assert(whole.skip(before.len() as int + 1) =~= after);
}

/// Reading the cursor of a record gives the record's time and ID back, whatever
/// the ID holds.
pub proof fn lemma_cursor_reads_back(created_at: i64, id: Seq<char>)
    ensures
        cursor_reading(cursor_text(created_at, id)) == Ok::<(i64, Seq<char>), StoreErrorView>((created_at, id)),
{
    let time = crate::text::decimal(created_at as int);
    reveal_strlit(":");
    assert(":"@ =~= seq![':']);
    crate::text::lemma_decimal_lacks(created_at as int, ':');
    crate::text::lemma_decimal_reads_back(created_at);
    lemma_first_colon(time, id);
}

/// A cursor is split at its first colon: what is before it has to be an integer
/// and what is behind it is the ID, whole.
pub proof fn lemma_cursor_is_split_at_its_first_colon(time: Seq<char>, id: Seq<char>)
    requires
        !time.contains(':'),
    ensures
        crate::text::i64_of_text(time) matches Some(created_at) ==> cursor_reading(time + seq![':'] + id) == Ok::<
            (i64, Seq<char>),
            StoreErrorView,
        >((created_at, id)),
        crate::text::i64_of_text(time) is None ==> cursor_reading(time + seq![':'] + id) == Err::<
            (i64, Seq<char>),
            StoreErrorView,
        >(StoreErrorView::Database("invalid cursor timestamp: "@ + crate::text::i64_error_text(time))),
        cursor_reading(time) == Err::<(i64, Seq<char>), StoreErrorView>(
            StoreErrorView::Database("invalid cursor format: "@ + time),
        ),
{
    lemma_first_colon(time, id);
}

/// The cursor of a record is its time in decimal, a colon and its ID, whole.
pub proof fn lemma_cursor_in_words(created_at: i64, id: Seq<char>)
    ensures
        cursor_text(created_at, id) == crate::text::decimal(created_at as int) + ":"@ + id,
{
}

} // verus!

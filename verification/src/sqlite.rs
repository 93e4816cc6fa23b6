//! What SQLite reads off a JSON text.

use vstd::prelude::*;
use crate::json::{json_text, JsonV};

verus! {

/// The path to a member of an object.
pub open spec fn member_path(key: Seq<char>) -> Seq<char> {
    "$."@ + key
}

/// The name of a member that stands in a path as it is.
pub open spec fn plain_key(key: Seq<char>) -> bool {
    &&& key.len() > 0
    &&& forall|i: int| 0 <= i < key.len() ==> 'a' <= #[trigger] key[i] <= 'z' || key[i] == '_'
}

/// How long a text may be for what is said of it here.
pub open spec fn short_enough(text: Seq<char>) -> bool {
    text.len() <= 100_000_000
}

/// `text` is the compact text of `j`, and neither too deep nor too long.
pub open spec fn written_as(text: Seq<char>, j: JsonV) -> bool {
    &&& j.printable()
    &&& j.depth_at_most(127)
    &&& text == json_text(j)
    &&& short_enough(text)
}

/// Whether the member at a path of a JSON text is a given text, or why that cannot be
/// said: what `COALESCE(json_extract(text, path) = value, 0)` gives in SQLite.
pub uninterp spec fn member_is(text: Seq<char>, path: Seq<char>, value: Seq<char>) -> Result<
    bool,
    Seq<char>,
>;

/// The number at a path of a JSON text, 0 where there is nothing, or why there is no
/// number: what `COALESCE(json_extract(text, path), 0)` gives in SQLite.
pub uninterp spec fn member_number(text: Seq<char>, path: Seq<char>) -> Result<i64, Seq<char>>;

/// What is known of a comparison with a member of a text that was written for `j`.
pub open spec fn compares(
    text: Seq<char>,
    path: Seq<char>,
    value: Seq<char>,
    found: Result<bool, Seq<char>>,
) -> bool {
    forall|j: JsonV, key: Seq<char>|
        #![trigger written_as(text, j), member_path(key)]
        written_as(text, j) && path == member_path(key) && plain_key(key) && short_enough(value)
            ==> match j.get(key) {
            Some(JsonV::Str(s)) => found == Ok::<bool, Seq<char>>(s == value),
            Some(JsonV::Null) | Some(JsonV::Bool(_)) | Some(JsonV::Int(_)) | None => found == Ok::<
                bool,
                Seq<char>,
            >(false),
            _ => true,
        }
}

/// What is known of the number at a member of a text that was written for `j`.
pub open spec fn numbers(
    text: Seq<char>,
    path: Seq<char>,
    found: Result<i64, Seq<char>>,
) -> bool {
    forall|j: JsonV, key: Seq<char>|
        #![trigger written_as(text, j), member_path(key)]
        written_as(text, j) && path == member_path(key) && plain_key(key) ==> match j.get(key) {
            Some(JsonV::Int(n)) => i64::MIN <= n <= i64::MAX ==> found == Ok::<i64, Seq<char>>(
                n as i64,
            ),
            Some(JsonV::Null) | None => found == Ok::<i64, Seq<char>>(0),
            _ => true,
        }
}

/// What an outcome stands for.
pub open spec fn outcome_of<T>(r: Result<T, String>) -> Result<T, Seq<char>> {
    match r {
        Ok(x) => Ok(x),
        Err(e) => Err(e@),
    }
}

/// Calls SQLite's `json_extract`, through rusqlite, and has SQLite compare the member
/// that it gives with a text. The outcome depends on the three texts alone, while
/// memory lasts. Of a text that was written for an object it says whether the member
/// is that text; a member that is missing, null, true, false or a whole number is none.
/// What a list, an object or a fraction compares as is not said, nor what SQLite makes
/// of texts that were written in another way: it takes more than JSON, and of members
/// with one name the first.
#[verifier::external_body]
pub(crate) fn json_member_is(text: &str, path: &str, value: &str) -> (r: Result<bool, String>)
    ensures
        outcome_of(r) == member_is(text@, path@, value@),
        compares(text@, path@, value@, outcome_of(r)),
{
    let sql = "SELECT COALESCE(json_extract(?1, ?2) = ?3, 0)";
    match rusqlite::Connection::open_in_memory() {
        Ok(conn) => match conn.query_row(sql, [text, path, value], |row| row.get::<usize, bool>(0)) {
            Ok(is) => Ok(is),
            Err(e) => Err(e.to_string()),
        },
        Err(e) => Err(e.to_string()),
    }
}

/// Calls SQLite's `json_extract`, through rusqlite, and takes the member that it gives
/// as a number, 0 where it gives nothing. The outcome depends on the two texts alone,
/// while memory lasts. Of a text that was written for an object it is the member where
/// that is a whole number in range, and 0 where it is missing or null. What other
/// members give is not said, nor what SQLite makes of texts that were written in
/// another way.
#[verifier::external_body]
pub(crate) fn json_member_number(text: &str, path: &str) -> (r: Result<i64, String>)
    ensures
        outcome_of(r) == member_number(text@, path@),
        numbers(text@, path@, outcome_of(r)),
{
    let sql = "SELECT COALESCE(json_extract(?1, ?2), 0)";
    match rusqlite::Connection::open_in_memory() {
        Ok(conn) => match conn.query_row(sql, [text, path], |row| row.get::<usize, i64>(0)) {
            Ok(n) => Ok(n),
            Err(e) => Err(e.to_string()),
        },
        Err(e) => Err(e.to_string()),
    }
}

} // verus!

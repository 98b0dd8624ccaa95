//! The statements sent to the backend, and the names that may stand in them.
//!
//! A table name is spliced into statement text, so it is held to the shape
//! of a plain identifier when the store is made and never quoted afterwards.

use vstd::prelude::*;

verus! {

/// The longest name the backend keeps in full.
pub const MAX_IDENTIFIER_LEN: usize = 63;

/// The statement that deletes a collection's row; `$1` is its identity.
pub const REMOVE_COLLECTION: &'static str = "DELETE FROM collection WHERE uuid = $1";

/// The search for the rows of one namespace, nearest first: `$1` is the
/// query vector, `$2` the namespace and `$3` the number of rows wanted.
pub const SEARCH_NEAREST: &'static str =
    "SELECT content, namespace, (vectors <=> $1) as distance FROM vector_docs WHERE namespace = $2 ORDER BY distance ASC LIMIT $3";

/// The same search without a bound on the number of rows.
pub const SEARCH_ALL: &'static str =
    "SELECT content, namespace, (vectors <=> $1) as distance FROM vector_docs WHERE namespace = $2 ORDER BY distance ASC";

pub open spec fn ascii_letter(c: char) -> bool {
    ('a' <= c && c <= 'z') || ('A' <= c && c <= 'Z')
}

pub open spec fn ascii_digit(c: char) -> bool {
    '0' <= c && c <= '9'
}

/// A plain identifier: a letter or an underscore, then letters, digits and
/// underscores, at most `MAX_IDENTIFIER_LEN` characters in all.
pub open spec fn identifier(s: Seq<char>) -> bool {
    &&& 0 < s.len() <= MAX_IDENTIFIER_LEN
    &&& ascii_letter(s[0]) || s[0] == '_'
    &&& forall|i: int|
        0 <= i < s.len() ==> ascii_letter(#[trigger] s[i]) || ascii_digit(s[i]) || s[i] == '_'
}

/// Whether `name` is a plain identifier.
pub fn is_identifier(name: &str) -> (b: bool)
    ensures
        b == identifier(name@),
{
    let len: usize = name.unicode_len();
    if len == 0 || len > MAX_IDENTIFIER_LEN {
        return false;
    }
    let first: char = name.get_char(0);
    if !(is_letter(first) || first == '_') {
        return false;
    }
    let mut i: usize = 0;
    while i < len
        invariant
            i <= len,
            len == name@.len(),
            forall|j: int|
                0 <= j < i ==> ascii_letter(#[trigger] name@[j]) || ascii_digit(name@[j])
                    || name@[j] == '_',
        decreases len - i,
    {
        let c: char = name.get_char(i);
        if !(is_letter(c) || is_digit(c) || c == '_') {
            return false;
        }
        i = i + 1;
    }
    true
}

fn is_letter(c: char) -> (b: bool)
    ensures
        b == ascii_letter(c),
{
    ('a' <= c && c <= 'z') || ('A' <= c && c <= 'Z')
}

fn is_digit(c: char) -> (b: bool)
    ensures
        b == ascii_digit(c),
{
    '0' <= c && c <= '9'
}

/// The text of the statement that drops `table` if it is there.
pub open spec fn drop_table_text(table: Seq<char>) -> Seq<char> {
    "DROP TABLE IF EXISTS "@ + table
}

/// The text of the statement that inserts one row into `table`: `$1` is the
/// row's identity, `$2` its text, `$3` its embedding, `$4` its metadata and
/// `$5` the identity of its collection.
pub open spec fn insert_row_text(table: Seq<char>) -> Seq<char> {
    "INSERT INTO "@ + table
        + " \n(uuid, document, embedding, cmetadata, collection_id) VALUES ($1, $2, $3, $4, $5)"@
}

/// The statement that drops `table` if it is there.
pub fn drop_table(table: &str) -> (sql: String)
    ensures
        sql@ == drop_table_text(table@),
{
    String::from_str("DROP TABLE IF EXISTS ").concat(table)
}

/// The statement that inserts one row into `table`.
pub fn insert_row(table: &str) -> (sql: String)
    ensures
        sql@ == insert_row_text(table@),
{
    String::from_str("INSERT INTO ").concat(table).concat(
        " \n(uuid, document, embedding, cmetadata, collection_id) VALUES ($1, $2, $3, $4, $5)",
    )
}

} // verus!

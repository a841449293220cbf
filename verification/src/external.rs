//! Every item whose contract Verus takes on trust: the outside types that the
//! library carries, and the calls into `chrono`, `uuid`, `serde_json`, `sha2`
//! and `rusqlite`.

use vstd::prelude::*;

use crate::text::views;

verus! {

// ── Outside types ──

/// `rusqlite::Error`, carried through the library as an opaque value.
#[verifier::external_type_specification]
#[verifier::external_body]
pub struct ExSqlError(rusqlite::Error);

/// `serde_json::Error`, carried through the library as an opaque value.
#[verifier::external_type_specification]
#[verifier::external_body]
pub struct ExJsonError(serde_json::Error);

/// `rusqlite::Connection`: an open SQLite database.
#[verifier::external_type_specification]
#[verifier::external_body]
pub struct ExConnection(rusqlite::Connection);

/// `rusqlite::Statement`: a prepared SQL statement.
#[verifier::external_type_specification]
#[verifier::external_body]
pub struct ExStatement<'conn>(rusqlite::Statement<'conn>);

/// `rusqlite::Rows`: the rows a query is producing.
#[verifier::external_type_specification]
#[verifier::external_body]
pub struct ExRows<'stmt>(rusqlite::Rows<'stmt>);

/// `rusqlite::Row`: one row of a query's result.
#[verifier::external_type_specification]
#[verifier::external_body]
pub struct ExRow<'stmt>(rusqlite::Row<'stmt>);

// ── chrono ──

/// What `chrono` prints for the pattern `"%Y-%m-%d %H:%M"` of the instant
/// that an RFC 3339 text denotes, read as a `DateTime<Utc>`; `None` when the
/// text does not parse as one.
pub uninterp spec fn minute_stamp(rfc3339: Seq<char>) -> Option<Seq<char>>;

/// Parses the text with `str::parse::<chrono::DateTime<chrono::Utc>>` and
/// formats the instant with `DateTime::format("%Y-%m-%d %H:%M")`; `None` when
/// the text does not parse. The claim is only that the result is
/// `minute_stamp` of the text.
#[verifier::external_body]
pub fn format_minute(rfc3339: &str) -> (r: Option<String>)
    ensures
        match r {
            Some(t) => minute_stamp(rfc3339@) == Some(t@),
            None => minute_stamp(rfc3339@) is None,
        },
{
    match rfc3339.parse::<chrono::DateTime<chrono::Utc>>() {
        Ok(t) => Some(t.format("%Y-%m-%d %H:%M").to_string()),
        Err(_) => None,
    }
}

/// The canonical text (`DateTime::<Utc>::to_rfc3339`) of the instant that a
/// text denotes when `str::parse::<chrono::DateTime<chrono::Utc>>` accepts it,
/// and `None` when it refuses it.
pub uninterp spec fn utc_rfc3339(text: Seq<char>) -> Option<Seq<char>>;

/// Parses the text with `str::parse::<chrono::DateTime<chrono::Utc>>` and
/// writes the instant back with `DateTime::to_rfc3339`. The claim is only that
/// the result is `utc_rfc3339` of the text.
#[verifier::external_body]
pub fn normalize_timestamp(text: &str) -> (r: Option<String>)
    ensures
        match r {
            Some(t) => utc_rfc3339(text@) == Some(t@),
            None => utc_rfc3339(text@) is None,
        },
{
    match text.parse::<chrono::DateTime<chrono::Utc>>() {
        Ok(t) => Some(t.to_rfc3339()),
        Err(_) => None,
    }
}

/// `chrono::Utc::now().to_rfc3339()`: the current time, which depends on the
/// clock. The claim is only that the text is in chrono's canonical form: it
/// parses back as a `DateTime<Utc>` and writes out as itself.
#[verifier::external_body]
pub fn now_timestamp() -> (r: String)
    ensures
        utc_rfc3339(r@) == Some(r@),
{
    chrono::Utc::now().to_rfc3339()
}

// ── uuid ──

/// A lowercase hexadecimal digit.
pub open spec fn is_lower_hex(c: char) -> bool {
    ('0' <= c && c <= '9') || ('a' <= c && c <= 'f')
}

/// The hyphenated lowercase form of a version 4 UUID: 36 characters, hyphens
/// at positions 8, 13, 18 and 23, the version digit 4 at position 14, and
/// lowercase hex digits everywhere else.
pub open spec fn is_uuid_v4_text(s: Seq<char>) -> bool {
    &&& s.len() == 36
    &&& forall|i: int|
        0 <= i < 36 ==> if i == 8 || i == 13 || i == 18 || i == 23 {
            #[trigger] s[i] == '-'
        } else {
            is_lower_hex(s[i])
        }
    &&& s[14] == '4'
}

/// `uuid::Uuid::new_v4().to_string()`: a fresh random identifier. Which one
/// depends on chance; its form is what `Uuid`'s `Display` writes (the
/// lowercase hyphenated form, `fmt.rs`) of a value whose version bits
/// `new_v4` sets to 4 (`v4.rs`).
#[verifier::external_body]
pub fn new_id() -> (r: String)
    ensures
        is_uuid_v4_text(r@),
{
    uuid::Uuid::new_v4().to_string()
}

// ── serde_json ──

/// A lowercase hexadecimal digit of a number below sixteen.
pub open spec fn hex_digit(n: int) -> char {
    if n < 10 {
        (('0' as int) + n) as char
    } else {
        (('a' as int) + n - 10) as char
    }
}

/// How `serde_json` writes a character inside a string: a quote and a
/// backslash behind a backslash, backspace, tab, line feed, form feed and
/// carriage return as `\b`, `\t`, `\n`, `\f`, `\r`, the other control
/// characters below 0x20 as `\u00` and two lowercase hexadecimal digits, and
/// every other character as it is.
pub open spec fn json_char(c: char) -> Seq<char> {
    if c == '"' {
        seq!['\\', '"']
    } else if c == '\\' {
        seq!['\\', '\\']
    } else if c == '\u{8}' {
        seq!['\\', 'b']
    } else if c == '\t' {
        seq!['\\', 't']
    } else if c == '\n' {
        seq!['\\', 'n']
    } else if c == '\u{c}' {
        seq!['\\', 'f']
    } else if c == '\r' {
        seq!['\\', 'r']
    } else if (c as int) < 0x20 {
        seq!['\\', 'u', '0', '0', hex_digit((c as int) / 16), hex_digit((c as int) % 16)]
    } else {
        seq![c]
    }
}

/// The characters of a text as `serde_json` writes them inside a string.
pub open spec fn json_chars(s: Seq<char>) -> Seq<char>
    decreases s.len(),
{
    if s.len() == 0 {
        Seq::empty()
    } else {
        json_chars(s.drop_last()) + json_char(s.last())
    }
}

/// The strings of a list as `serde_json` writes them, each in quotes,
/// separated by commas.
pub open spec fn json_items(items: Seq<Seq<char>>) -> Seq<char>
    decreases items.len(),
{
    if items.len() == 0 {
        Seq::empty()
    } else if items.len() == 1 {
        seq!['"'] + json_chars(items[0]) + seq!['"']
    } else {
        json_items(items.drop_last()) + seq![','] + seq!['"'] + json_chars(items.last()) + seq!['"']
    }
}

/// The JSON text that `serde_json::to_string` writes for a list of strings:
/// the compact form, in brackets, with no spaces.
pub open spec fn json_of_strings(items: Seq<Seq<char>>) -> Seq<char> {
    seq!['['] + json_items(items) + seq![']']
}

/// `serde_json::to_string` of a list of strings. The claim is that it
/// succeeds and gives `json_of_strings` of the list: its documentation names
/// only a failing `Serialize` impl or a map with non-string keys as causes of
/// failure, neither of which a slice of strings has, and it writes into a
/// `Vec`, which does not fail.
#[verifier::external_body]
pub fn encode_strings(items: &[String]) -> (r: Result<String, serde_json::Error>)
    ensures
        r is Ok,
        r matches Ok(t) ==> t@ == json_of_strings(views(items@)),
{
    serde_json::to_string(items)
}

/// The list of strings that `serde_json::from_str::<Vec<String>>` reads from a
/// text, and `None` when it refuses the text.
pub uninterp spec fn strings_of_json(text: Seq<char>) -> Option<Seq<Seq<char>>>;

/// `serde_json::from_str::<Vec<String>>`, its error turned into `None`. The
/// claim is only that the result is `strings_of_json` of the text.
#[verifier::external_body]
pub fn decode_strings(text: &str) -> (r: Option<Vec<String>>)
    ensures
        match r {
            Some(v) => strings_of_json(text@) == Some(views(v@)),
            None => strings_of_json(text@) is None,
        },
{
    serde_json::from_str::<Vec<String>>(text).ok()
}

// ── sha2 ──

/// The SHA-256 digest of a byte string.
pub uninterp spec fn sha256(data: Seq<u8>) -> Seq<u8>;

/// `sha2::Sha256::digest`, copied into a vector. The claim is that the result
/// is `sha256` of the bytes and 32 bytes long, as the digest's type
/// (`GenericArray<u8, U32>`) fixes.
#[verifier::external_body]
pub fn sha256_digest(data: &[u8]) -> (r: Vec<u8>)
    ensures
        r@ == sha256(data@),
        r@.len() == 32,
{
    <sha2::Sha256 as sha2::Digest>::digest(data).to_vec()
}

// ── std::path ──

/// `std::path::Path::is_dir` of a path: whether a directory is there, with a
/// ghost record of the path it was asked about. Nothing is claimed of the
/// answer, which depends on the file system.
#[verifier::external_body]
pub fn path_is_dir(path: &str) -> (r: (bool, Ghost<Seq<char>>))
    ensures
        r.1@ == path@,
{
    (std::path::Path::new(path).is_dir(), Ghost(path@))
}

// ── Error texts ──

/// The text that `rusqlite::Error`'s `Display` writes. Nothing is claimed of
/// it.
#[verifier::external_body]
pub fn sql_error_text(e: &rusqlite::Error) -> String {
    e.to_string()
}

/// The text that `serde_json::Error`'s `Display` writes. Nothing is claimed
/// of it.
#[verifier::external_body]
pub fn json_error_text(e: &serde_json::Error) -> String {
    e.to_string()
}

// ── rusqlite ──

/// `rusqlite::Connection::open`: opens or creates the database file, with a
/// ghost record of the path it was handed. Nothing is claimed of the outcome,
/// which depends on the file system.
#[verifier::external_body]
pub fn sql_open(path: &str) -> (r: (Result<rusqlite::Connection, rusqlite::Error>, Ghost<Seq<char>>))
    ensures
        r.1@ == path@,
{
    (rusqlite::Connection::open(path), Ghost(path@))
}

/// `rusqlite::Connection::open_in_memory`. Nothing is claimed of the outcome.
#[verifier::external_body]
pub fn sql_open_in_memory() -> Result<rusqlite::Connection, rusqlite::Error> {
    rusqlite::Connection::open_in_memory()
}

/// `rusqlite::Connection::execute_batch`: runs SQL statements, with a ghost
/// record of the SQL it was handed. Nothing is claimed of the outcome, which
/// depends on the database.
#[verifier::external_body]
pub fn sql_execute_batch(conn: &rusqlite::Connection, sql: &str) -> (r: (Result<(), rusqlite::Error>, Ghost<
    Seq<char>,
>))
    ensures
        r.1@ == sql@,
{
    (conn.execute_batch(sql), Ghost(sql@))
}

/// `rusqlite::Connection::execute` with the text parameters bound in order
/// (`None` binds NULL), with a ghost record of the SQL and parameters it was
/// handed. On success SQLite's count of changed rows comes back; nothing is
/// claimed of it, which depends on the database.
#[verifier::external_body]
pub fn sql_execute(
    conn: &rusqlite::Connection,
    sql: &str,
    params: &Vec<Option<String>>,
) -> (r: (Result<usize, rusqlite::Error>, Ghost<(Seq<char>, Seq<Option<String>>)>))
    ensures
        r.1@ == (sql@, params@),
{
    (conn.execute(sql, rusqlite::params_from_iter(params.iter())), Ghost((sql@, params@)))
}

/// `rusqlite::Connection::prepare`, with a ghost record of the SQL it was
/// handed. Nothing is claimed of the outcome.
#[verifier::external_body]
pub fn sql_prepare<'c>(conn: &'c rusqlite::Connection, sql: &str) -> (r: (Result<
    rusqlite::Statement<'c>,
    rusqlite::Error,
>, Ghost<Seq<char>>))
    ensures
        r.1@ == sql@,
{
    (conn.prepare(sql), Ghost(sql@))
}

/// `rusqlite::Statement::query` with the text parameters bound in order,
/// with a ghost record of the parameters it was handed. Nothing is claimed of
/// the outcome.
#[verifier::external_body]
pub fn sql_query<'s, 'c>(
    stmt: &'s mut rusqlite::Statement<'c>,
    params: &Vec<Option<String>>,
) -> (r: (Result<rusqlite::Rows<'s>, rusqlite::Error>, Ghost<Seq<Option<String>>>))
    ensures
        r.1@ == params@,
{
    (stmt.query(rusqlite::params_from_iter(params.iter())), Ghost(params@))
}

/// `rusqlite::Rows::next`: the next row, or `None` when the query is done.
/// Nothing is claimed of the outcome, which depends on the database.
#[verifier::external_body]
pub fn sql_next_row<'r, 's>(rows: &'r mut rusqlite::Rows<'s>) -> Result<
    Option<&'r rusqlite::Row<'s>>,
    rusqlite::Error,
> {
    rows.next()
}

/// `rusqlite::Row::get::<usize, Option<String>>`: the text in a column, `None`
/// for NULL. Nothing is claimed of the outcome, which depends on the database.
#[verifier::external_body]
pub fn sql_text_column(row: &rusqlite::Row<'_>, index: usize) -> Result<
    Option<String>,
    rusqlite::Error,
> {
    row.get::<usize, Option<String>>(index)
}

} // verus!

use vstd::prelude::*;

use crate::store::filter_view;

verus! {

/// The parameterized INSERT the store issues; the database assigns
/// the id.
pub fn insert_sql() -> (s: &'static str)
    ensures
        s@ == "INSERT INTO phonebook VALUES (default, $1, $2)"@,
{
    "INSERT INTO phonebook VALUES (default, $1, $2)"
}

/// The parameterized DELETE the store issues once per id.
pub fn delete_sql() -> (s: &'static str)
    ensures
        s@ == "DELETE FROM phonebook WHERE id=$1"@,
{
    "DELETE FROM phonebook WHERE id=$1"
}

/// The parameterized UPDATE the store issues inside a transaction.
pub fn update_sql() -> (s: &'static str)
    ensures
        s@ == "UPDATE phonebook SET name = $1, phone = $2 WHERE id = $3"@,
{
    "UPDATE phonebook SET name = $1, phone = $2 WHERE id = $3"
}

/// The parameterized point SELECT behind get-by-id.
pub fn select_by_id_sql() -> (s: &'static str)
    ensures
        s@ == "SELECT * FROM phonebook WHERE id = $1"@,
{
    "SELECT * FROM phonebook WHERE id = $1"
}

/// The idempotent table creation run once at startup.
pub fn create_table_sql() -> (s: &'static str)
    ensures
        s@ == "CREATE TABLE IF NOT EXISTS phonebook(\"id\" SERIAL PRIMARY KEY, \"name\" varchar(50), \"phone\" varchar(100))"@,
{
    "CREATE TABLE IF NOT EXISTS phonebook(\"id\" SERIAL PRIMARY KEY, \"name\" varchar(50), \"phone\" varchar(100))"
}

/// The SELECT behind listing: the whole table, optionally narrowed by
/// a LIKE pattern built around the substring, ordered by ascending id.
pub open spec fn spec_show_query(f: Option<Seq<char>>) -> Seq<char> {
    match f {
        Some(sub) => "SELECT * FROM phonebook WHERE name LIKE '%"@ + sub
            + "%' ORDER BY id"@,
        None => "SELECT * FROM phonebook  ORDER BY id"@,
    }
}

/// Builds the listing SELECT for an optional name substring, exactly
/// as [`spec_show_query`] lays it out.
pub fn show_query(filter: Option<&str>) -> (s: String)
    ensures
        s@ == spec_show_query(filter_view(filter)),
{
    match filter {
        Some(sub) => {
            let mut s = "SELECT * FROM phonebook WHERE name LIKE '%".to_owned();
            s.append(sub);
            s.append("%' ORDER BY id");
            proof {
                assert(s@ =~= spec_show_query(filter_view(filter)));
            }
            s
        },
        None => "SELECT * FROM phonebook  ORDER BY id".to_owned(),
    }
}

} // verus!

//! Changes to the tables of the database.

use crate::text;
use vstd::prelude::*;

verus! {

pub open spec fn column_query(table: Seq<char>, column: Seq<char>) -> Seq<char> {
    "SELECT COUNT(*) FROM pragma_table_info('"@ + table + "') WHERE name = '"@ + column + "'"@
}

/// The query that counts the columns of a table with a name.
pub fn column_count_query(table: &str, column: &str) -> (r: String)
    ensures
        r@ == column_query(table@, column@),
{
    let mut q = text::owned("SELECT COUNT(*) FROM pragma_table_info('");
    q.append(table);
    q.append("') WHERE name = '");
    q.append(column);
    q.append("'");
    q
}

/// The statement that adds a column, unless the table has it.
pub fn add_column_if_not_exists(table: &str, column: &str, col_type: &str, found: i64) -> (r: Option<
    String,
>)
    ensures
        r.deep_view() == (if found == 0 {
            Some("ALTER TABLE "@ + table@ + " ADD COLUMN "@ + column@ + " "@ + col_type@)
        } else {
            None
        }),
{
    if found != 0 {
        return None;
    }
    let mut q = text::owned("ALTER TABLE ");
    q.append(table);
    q.append(" ADD COLUMN ");
    q.append(column);
    q.append(" ");
    q.append(col_type);
    Some(q)
}

/// The statement that renames a column, where the table has the former name and not yet
/// the new one.
pub fn rename_column_if_exists(
    table: &str,
    old_name: &str,
    new_name: &str,
    old_found: i64,
    new_found: i64,
) -> (r: Option<String>)
    ensures
        r.deep_view() == (if old_found > 0 && new_found == 0 {
            Some(
                "ALTER TABLE "@ + table@ + " RENAME COLUMN "@ + old_name@ + " TO "@ + new_name@,
            )
        } else {
            None
        }),
{
    if !(old_found > 0 && new_found == 0) {
        return None;
    }
    let mut q = text::owned("ALTER TABLE ");
    q.append(table);
    q.append(" RENAME COLUMN ");
    q.append(old_name);
    q.append(" TO ");
    q.append(new_name);
    Some(q)
}

} // verus!

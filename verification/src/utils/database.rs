//! The text of the statements that keep the registry in a relational
//! store. Running them is left to the program around the library.

use vstd::prelude::*;
use vstd::string::StringExecFns;

verus! {

/// The texts of `parts`, each followed by `sep` but the last.
pub open spec fn joined(parts: Seq<Seq<char>>, sep: Seq<char>) -> Seq<char>
    decreases parts.len(),
{
    if parts.len() == 0 {
        Seq::empty()
    } else if parts.len() == 1 {
        parts[0]
    } else {
        joined(parts.drop_last(), sep) + sep + parts.last()
    }
}

/// The characters of each text of `parts`.
pub open spec fn texts(parts: Seq<&str>) -> Seq<Seq<char>> {
    parts.map_values(|p: &str| p@)
}

/// `n` placeholders.
pub open spec fn placeholders(n: nat) -> Seq<Seq<char>> {
    Seq::new(n, |i: int| "?"@)
}

/// Each keyword followed by ` = ?`.
pub open spec fn assignments(keywords: Seq<Seq<char>>) -> Seq<Seq<char>> {
    keywords.map_values(|k: Seq<char>| k + " = ?"@)
}

/// The digit `d` as text.
pub open spec fn digit(d: nat) -> Seq<char> {
    if d == 0 {
        "0"@
    } else if d == 1 {
        "1"@
    } else if d == 2 {
        "2"@
    } else if d == 3 {
        "3"@
    } else if d == 4 {
        "4"@
    } else if d == 5 {
        "5"@
    } else if d == 6 {
        "6"@
    } else if d == 7 {
        "7"@
    } else if d == 8 {
        "8"@
    } else {
        "9"@
    }
}

/// The number `n` in decimal digits, without leading zeros.
pub open spec fn decimal(n: nat) -> Seq<char>
    decreases n,
{
    if n < 10 {
        digit(n)
    } else {
        decimal(n / 10) + digit(n % 10)
    }
}

/// The statement that inserts a row of `n` values into `table`.
pub open spec fn insert_values_text(table: Seq<char>, n: nat) -> Seq<char> {
    "INSERT INTO "@ + table + " VALUES ("@ + joined(placeholders(n), ", "@) + ")"@
}

/// The statement that inserts a row with the columns `keywords` into
/// `table`.
pub open spec fn insert_text(table: Seq<char>, keywords: Seq<Seq<char>>) -> Seq<char> {
    "INSERT INTO "@ + table + " ("@ + joined(keywords, ", "@) + ") VALUES ("@ + joined(
        placeholders(keywords.len()),
        ", "@,
    ) + ")"@
}

/// The query for the last id given out for `table`.
pub open spec fn sequence_text(table: Seq<char>) -> Seq<char> {
    "select seq from sqlite_sequence where name='"@ + table + "';"@
}

/// The query for the rows of `table`, all or those that meet `condition`.
pub open spec fn select_text(table: Seq<char>, condition: Option<Seq<char>>) -> Seq<char> {
    "SELECT * FROM "@ + table + " "@ + match condition {
        Some(c) => "WHERE "@ + c,
        None => Seq::empty(),
    }
}

/// The condition that the column `key` holds `id`.
pub open spec fn key_condition_text(key: Seq<char>, id: nat) -> Seq<char> {
    key + " == "@ + decimal(id)
}

/// The statement that sets the columns `keywords` of the rows of `table`
/// that meet `condition`.
pub open spec fn update_text(table: Seq<char>, keywords: Seq<Seq<char>>, condition: Seq<char>)
    -> Seq<char> {
    "UPDATE "@ + table + " SET "@ + joined(assignments(keywords), ", "@) + " = ?1 WHERE "@
        + condition
}

/// The statement that sets the column `keyword` of one row of `table`,
/// found by its id.
pub open spec fn update_single_text(table: Seq<char>, keyword: Seq<char>) -> Seq<char> {
    "UPDATE "@ + table + " SET "@ + keyword + " = ?1 WHERE id = ?2"@
}

/// The statement that deletes the rows of `table` that meet `condition`.
pub open spec fn delete_text(table: Seq<char>, condition: Seq<char>) -> Seq<char> {
    "DELETE FROM "@ + table + " WHERE "@ + condition
}

fn digit_str(d: u64) -> (text: &'static str)
    requires
        d < 10,
    ensures
        text@ == digit(d as nat),
{
    if d == 0 {
        "0"
    } else if d == 1 {
        "1"
    } else if d == 2 {
        "2"
    } else if d == 3 {
        "3"
    } else if d == 4 {
        "4"
    } else if d == 5 {
        "5"
    } else if d == 6 {
        "6"
    } else if d == 7 {
        "7"
    } else if d == 8 {
        "8"
    } else {
        "9"
    }
}

fn append_decimal(out: &mut String, n: u64)
    ensures
        final(out)@ == old(out)@ + decimal(n as nat),
    decreases n,
{
    if n >= 10 {
        append_decimal(out, n / 10);
    }
    out.append(digit_str(n % 10));
    proof {
        if n >= 10 {
            assert(out@ =~= old(out)@ + (decimal((n / 10) as nat) + digit((n % 10) as nat)));
        }
    }
}

/// The number `n` in decimal digits.
pub fn decimal_string(n: u64) -> (text: String)
    ensures
        text@ == decimal(n as nat),
{
    let mut text = String::new();
    append_decimal(&mut text, n);
    assert(text@ =~= decimal(n as nat));
    text
}

fn append_joined(out: &mut String, parts: &Vec<&str>, sep: &str)
    ensures
        final(out)@ == old(out)@ + joined(texts(parts@), sep@),
{
    let ghost all = texts(parts@);
    let ghost start = out@;
    let mut i: usize = 0;
    proof {
        assert(all.take(0) =~= Seq::empty());
        assert(out@ =~= start + joined(all.take(0), sep@));
    }
    while i < parts.len()
        invariant
            i <= parts.len(),
            all == texts(parts@),
            out@ == start + joined(all.take(i as int), sep@),
        decreases parts.len() - i,
    {
        let ghost before = out@;
        if i > 0 {
            out.append(sep);
        }
        out.append(parts[i]);
        proof {
            let now = all.take(i + 1);
            assert(now.drop_last() =~= all.take(i as int));
            assert(now.last() == parts@[i as int]@);
            if i > 0 {
                assert(out@ =~= start + (joined(all.take(i as int), sep@) + sep@ + now.last()));
            } else {
                assert(out@ =~= start + now.last());
            }
        }
        i += 1;
    }
    proof {
        assert(all.take(i as int) =~= all);
    }
}

fn append_placeholders(out: &mut String, n: usize)
    ensures
        final(out)@ == old(out)@ + joined(placeholders(n as nat), ", "@),
{
    let ghost start = out@;
    let mut i: usize = 0;
    proof {
        assert(out@ =~= start + joined(placeholders(0), ", "@));
    }
    while i < n
        invariant
            i <= n,
            out@ == start + joined(placeholders(i as nat), ", "@),
        decreases n - i,
    {
        if i > 0 {
            out.append(", ");
        }
        out.append("?");
        proof {
            let now = placeholders((i + 1) as nat);
            assert(now.drop_last() =~= placeholders(i as nat));
            if i > 0 {
                assert(out@ =~= start + (joined(placeholders(i as nat), ", "@) + ", "@
                    + now.last()));
            } else {
                assert(out@ =~= start + now.last());
            }
        }
        i += 1;
    }
}

fn append_assignments(out: &mut String, keywords: &Vec<&str>)
    ensures
        final(out)@ == old(out)@ + joined(assignments(texts(keywords@)), ", "@),
{
    let ghost all = assignments(texts(keywords@));
    let ghost start = out@;
    let mut i: usize = 0;
    proof {
        assert(all.take(0) =~= Seq::empty());
        assert(out@ =~= start + joined(all.take(0), ", "@));
    }
    while i < keywords.len()
        invariant
            i <= keywords.len(),
            all == assignments(texts(keywords@)),
            out@ == start + joined(all.take(i as int), ", "@),
        decreases keywords.len() - i,
    {
        if i > 0 {
            out.append(", ");
        }
        out.append(keywords[i]);
        out.append(" = ?");
        proof {
            let now = all.take(i + 1);
            assert(now.drop_last() =~= all.take(i as int));
            assert(now.last() == keywords@[i as int]@ + " = ?"@);
            if i > 0 {
                assert(out@ =~= start + (joined(all.take(i as int), ", "@) + ", "@ + now.last()));
            } else {
                assert(out@ =~= start + now.last());
            }
        }
        i += 1;
    }
    proof {
        assert(all.take(i as int) =~= all);
    }
}

/// The statement that inserts a row of `args_n` values into `table_name`.
pub fn generate_insert_sql(table_name: &str, args_n: u16) -> (sql: String)
    ensures
        sql@ == insert_values_text(table_name@, args_n as nat),
{
    let mut sql = String::from_str("INSERT INTO ");
    sql.append(table_name);
    sql.append(" VALUES (");
    append_placeholders(&mut sql, args_n as usize);
    sql.append(")");
    sql
}

/// The statement that inserts a row with the columns `keywords` into
/// `table_name`, one placeholder for each.
pub fn insert_command(table_name: &str, keywords: &Vec<&str>) -> (sql: String)
    ensures
        sql@ == insert_text(table_name@, texts(keywords@)),
{
    let mut sql = String::from_str("INSERT INTO ");
    sql.append(table_name);
    sql.append(" (");
    append_joined(&mut sql, keywords, ", ");
    sql.append(") VALUES (");
    append_placeholders(&mut sql, keywords.len());
    sql.append(")");
    sql
}

/// The query for the last id given out for `table_name`.
pub fn sequence_query(table_name: &str) -> (sql: String)
    ensures
        sql@ == sequence_text(table_name@),
{
    let mut sql = String::from_str("select seq from sqlite_sequence where name='");
    sql.append(table_name);
    sql.append("';");
    sql
}

/// The query for the rows of `table_name`: all of them, or those that
/// meet `where_args`.
pub fn select_command(table_name: &str, where_args: Option<String>) -> (sql: String)
    ensures
        sql@ == select_text(
            table_name@,
            match where_args {
                Some(c) => Some(c@),
                None => None,
            },
        ),
{
    let mut sql = String::from_str("SELECT * FROM ");
    sql.append(table_name);
    sql.append(" ");
    match where_args {
        Some(condition) => {
            sql.append("WHERE ");
            sql.append(condition.as_str());
            proof {
                assert(sql@ =~= select_text(table_name@, Some(condition@)));
            }
        },
        None => {
            proof {
                assert(sql@ =~= select_text(table_name@, None));
            }
        },
    }
    sql
}

/// The condition that the column `primary_key_name` holds `item_id`.
pub fn key_condition(primary_key_name: &str, item_id: u64) -> (sql: String)
    ensures
        sql@ == key_condition_text(primary_key_name@, item_id as nat),
{
    let mut sql = String::from_str(primary_key_name);
    sql.append(" == ");
    append_decimal(&mut sql, item_id);
    sql
}

/// The statement that sets the columns `set_keywords` of the rows of
/// `table_name` that meet `where_args`.
pub fn update_command(table_name: &str, set_keywords: &Vec<&str>, where_args: &str) -> (sql:
    String)
    ensures
        sql@ == update_text(table_name@, texts(set_keywords@), where_args@),
{
    let mut sql = String::from_str("UPDATE ");
    sql.append(table_name);
    sql.append(" SET ");
    append_assignments(&mut sql, set_keywords);
    sql.append(" = ?1 WHERE ");
    sql.append(where_args);
    sql
}

/// The statement that sets the column `keyword` of the row of
/// `table_name` with a given id.
pub fn update_single_command(table_name: &str, keyword: &str) -> (sql: String)
    ensures
        sql@ == update_single_text(table_name@, keyword@),
{
    let mut sql = String::from_str("UPDATE ");
    sql.append(table_name);
    sql.append(" SET ");
    sql.append(keyword);
    sql.append(" = ?1 WHERE id = ?2");
    sql
}

/// The statement that deletes the rows of `table_name` that meet
/// `where_args`.
pub fn delete_command(table_name: &str, where_args: &str) -> (sql: String)
    ensures
        sql@ == delete_text(table_name@, where_args@),
{
    let mut sql = String::from_str("DELETE FROM ");
    sql.append(table_name);
    sql.append(" WHERE ");
    sql.append(where_args);
    sql
}

} // verus!

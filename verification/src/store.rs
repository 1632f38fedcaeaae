//! What the book store's operations answer, given what the database said.
//!
//! The database itself is the caller's business. Each function here takes
//! the outcome of the statement that the operation ran, with an error
//! already turned into its message, and builds the operation's answer.

use crate::response::{Book, Chapter, DbResponse};
use vstd::prelude::*;

verus! {

/// The statement that selects chapters by a caller's condition, before the
/// condition.
pub open spec fn chapter_query_head() -> Seq<char> {
    "SELECT * FROM ee_chapter WHERE "@
}

/// The statement that updates a chapter's label and content.
pub open spec fn update_with_content() -> Seq<char> {
    "UPDATE ee_chapter SET label = ?, content = ?, updateTime = ? WHERE id = ?"@
}

/// The statement that updates a chapter's label alone.
pub open spec fn update_label_only() -> Seq<char> {
    "UPDATE ee_chapter SET label = ?, updateTime = ? WHERE id = ?"@
}

/// The answer to an operation whose statement gave `outcome`: success with
/// the outcome's value, or failure with its message.
pub fn answer<T>(outcome: Result<T, String>) -> (r: DbResponse<T>)
    ensures
        r.well_formed(),
        match outcome {
            Ok(value) => r.succeeded() && r.payload() == Some(value),
            Err(message) => !r.succeeded() && r.failure() == Some(message@),
        },
{
    match outcome {
        Ok(value) => DbResponse::success(value),
        Err(message) => DbResponse::error(message),
    }
}

/// The answer to adding a book: on success the book as it now stands in
/// the store, under the row id that the insertion gave, created and
/// updated at `current_time`.
pub fn add_book(
    title: String,
    author: String,
    description: String,
    toc: String,
    current_time: String,
    inserted: Result<i64, String>,
) -> (r: DbResponse<Book>)
    ensures
        r.well_formed(),
        match inserted {
            Ok(id) => r.succeeded() && r.payload() == Some(
                Book {
                    id,
                    title,
                    author,
                    description,
                    toc,
                    create_time: current_time,
                    update_time: current_time,
                },
            ),
            Err(message) => !r.succeeded() && r.failure() == Some(message@),
        },
{
    match inserted {
        Ok(id) => {
            let update_time = current_time.clone();
            DbResponse::success(
                Book { id, title, author, description, toc, create_time: current_time, update_time },
            )
        },
        Err(message) => DbResponse::error(message),
    }
}

/// The answer to adding a chapter: on success the row id that the
/// insertion gave.
pub fn add_chapter(inserted: Result<i64, String>) -> (r: DbResponse<i64>)
    ensures
        r.well_formed(),
        match inserted {
            Ok(id) => r.succeeded() && r.payload() == Some(id),
            Err(message) => !r.succeeded() && r.failure() == Some(message@),
        },
{
    answer(inserted)
}

/// The statement that updates a chapter: its content is written only
/// where there is content to write.
pub fn update_chapter_statement(content: &Option<String>) -> (sql: &'static str)
    ensures
        sql@ == if content is Some {
            update_with_content()
        } else {
            update_label_only()
        },
{
    if content.is_none() {
        "UPDATE ee_chapter SET label = ?, updateTime = ? WHERE id = ?"
    } else {
        "UPDATE ee_chapter SET label = ?, content = ?, updateTime = ? WHERE id = ?"
    }
}

/// The answer to updating a chapter.
pub fn update_chapter(updated: Result<usize, String>) -> (r: DbResponse<()>)
    ensures
        r.well_formed(),
        match updated {
            Ok(_) => r.succeeded() && r.payload() == Some(()),
            Err(message) => !r.succeeded() && r.failure() == Some(message@),
        },
{
    match updated {
        Ok(_) => DbResponse::success(()),
        Err(message) => DbResponse::error(message),
    }
}

/// The answer to an update of one row, whatever the number of rows that
/// the statement reports: on success, 1.
pub fn one_row_updated(updated: Result<usize, String>) -> (r: DbResponse<i64>)
    ensures
        r.well_formed(),
        match updated {
            Ok(_) => r.succeeded() && r.payload() == Some(1i64),
            Err(message) => !r.succeeded() && r.failure() == Some(message@),
        },
{
    match updated {
        Ok(_) => DbResponse::success(1),
        Err(message) => DbResponse::error(message),
    }
}

/// The answer to replacing a book's table of contents.
pub fn update_toc(updated: Result<usize, String>) -> (r: DbResponse<i64>)
    ensures
        r.well_formed(),
        match updated {
            Ok(_) => r.succeeded() && r.payload() == Some(1i64),
            Err(message) => !r.succeeded() && r.failure() == Some(message@),
        },
{
    one_row_updated(updated)
}

/// The answer to marking a book as deleted.
pub fn delete_book(updated: Result<usize, String>) -> (r: DbResponse<i64>)
    ensures
        r.well_formed(),
        match updated {
            Ok(_) => r.succeeded() && r.payload() == Some(1i64),
            Err(message) => !r.succeeded() && r.failure() == Some(message@),
        },
{
    one_row_updated(updated)
}

/// The answer to updating a book's title, author and description.
pub fn update_book(updated: Result<usize, String>) -> (r: DbResponse<i64>)
    ensures
        r.well_formed(),
        match updated {
            Ok(_) => r.succeeded() && r.payload() == Some(1i64),
            Err(message) => !r.succeeded() && r.failure() == Some(message@),
        },
{
    one_row_updated(updated)
}

/// Whether none of the first `n` rows is an error.
pub open spec fn rows_read<T>(rows: Seq<Result<T, String>>, n: int) -> bool {
    forall|k: int| 0 <= k < n ==> (#[trigger] rows[k]) is Ok
}

/// The values of rows none of which is an error.
pub open spec fn row_values<T>(rows: Seq<Result<T, String>>) -> Seq<T> {
    rows.map_values(|row: Result<T, String>| row->Ok_0)
}

/// The rows of a query, or the message of the first row that could not be
/// read.
pub fn collect_rows<T>(rows: Vec<Result<T, String>>) -> (r: Result<Vec<T>, String>)
    ensures
        match r {
            Ok(values) => rows_read(rows@, rows@.len() as int) && values@ == row_values(rows@),
            Err(message) => exists|k: int|
                0 <= k < rows@.len() && rows_read(rows@, k) && #[trigger] rows@[k] == Err::<
                    T,
                    String,
                >(message),
        },
{
    let mut values: Vec<T> = Vec::new();
    let ghost all = rows@;
    for row in it: rows
        invariant
            it.seq() == all,
            all == rows@,
            rows_read(all, it.index() as int),
            values@ == row_values(all.take(it.index() as int)),
    {
        let ghost k = it.index() as int;
        match row {
            Ok(value) => {
                values.push(value);
                proof {
                    assert(all.take(k + 1) =~= all.take(k).push(all[k]));
                    assert(values@ =~= row_values(all.take(k + 1)));
                }
            },
            Err(message) => {
                assert(rows_read(all, k) && all[k] == Err::<T, String>(message));
                return Err(message);
            },
        }
    }
    proof {
        assert(all.take(all.len() as int) =~= all);
    }
    Ok(values)
}

/// The answer to listing the books that are not deleted: all of them, or
/// the message of the first row that could not be read, which fails the
/// operation itself.
pub fn get_all_books(rows: Vec<Result<Book, String>>) -> (r: Result<DbResponse<Vec<Book>>, String>)
    ensures
        match r {
            Ok(response) => {
                &&& rows_read(rows@, rows@.len() as int)
                &&& response.well_formed()
                &&& response.payload() matches Some(books) && books@ == row_values(rows@)
            },
            Err(message) => exists|k: int|
                0 <= k < rows@.len() && rows_read(rows@, k) && #[trigger] rows@[k] == Err::<
                    Book,
                    String,
                >(message),
        },
{
    match collect_rows(rows) {
        Ok(books) => Ok(DbResponse::success(books)),
        Err(message) => Err(message),
    }
}

/// The answer to fetching chapters: all the rows, or the message of the
/// first row that could not be read, which fails the operation itself.
pub fn get_chapter(rows: Vec<Result<Chapter, String>>) -> (r: Result<
    DbResponse<Vec<Chapter>>,
    String,
>)
    ensures
        match r {
            Ok(response) => {
                &&& rows_read(rows@, rows@.len() as int)
                &&& response.well_formed()
                &&& response.payload() matches Some(chapters) && chapters@ == row_values(rows@)
            },
            Err(message) => exists|k: int|
                0 <= k < rows@.len() && rows_read(rows@, k) && #[trigger] rows@[k] == Err::<
                    Chapter,
                    String,
                >(message),
        },
{
    match collect_rows(rows) {
        Ok(chapters) => Ok(DbResponse::success(chapters)),
        Err(message) => Err(message),
    }
}

/// The statement that selects the chapters meeting the caller's
/// condition: the condition is taken as it is written.
pub fn get_chapter_where(where_str: &str) -> (sql: String)
    ensures
        sql@ == chapter_query_head() + where_str@,
{
    let mut sql = "SELECT * FROM ee_chapter WHERE ".to_owned();
    sql.append(where_str);
    sql
}

} // verus!

use appdata_backup::clock::{decimal_text, get_current_time_string, time_string};
use appdata_backup::image::read_image;
use appdata_backup::response::{Book, Chapter};
use appdata_backup::shell::{
    get_files_from_argv, open_folder, path_of_argument, starts_with_dash, Platform,
};
use appdata_backup::store::{
    add_book, add_chapter, answer, collect_rows, delete_book, get_all_books, get_chapter,
    get_chapter_where, update_book, update_chapter, update_chapter_statement, update_toc,
};

fn strings(items: &[&str]) -> Vec<String> {
    items.iter().map(|s| s.to_string()).collect()
}

#[test]
fn decimal_text_matches_the_numeral() {
    assert_eq!(decimal_text(0), "0");
    assert_eq!(decimal_text(7), "7");
    assert_eq!(decimal_text(10), "10");
    assert_eq!(decimal_text(1_730_150_000), "1730150000");
    assert_eq!(decimal_text(u64::MAX), "18446744073709551615");
}

#[test]
fn time_string_of_a_clock_before_the_epoch_is_zero() {
    assert_eq!(time_string(None), "0");
    assert_eq!(time_string(Some(0)), "0");
    assert_eq!(time_string(Some(86_400)), "86400");
}

#[test]
fn current_time_string_is_a_numeral() {
    let text = get_current_time_string();
    assert!(!text.is_empty());
    assert!(text.chars().all(|c| c.is_ascii_digit()));
    assert_eq!(decimal_text(text.parse::<u64>().unwrap()), text);
}

#[test]
fn image_is_encoded_as_standard_base64() {
    assert_eq!(read_image(&Vec::new()), Some(String::new()));
    assert_eq!(read_image(&b"f".to_vec()), Some("Zg==".to_string()));
    assert_eq!(read_image(&b"fo".to_vec()), Some("Zm8=".to_string()));
    assert_eq!(read_image(&b"foo".to_vec()), Some("Zm9v".to_string()));
    assert_eq!(read_image(&b"foobar".to_vec()), Some("Zm9vYmFy".to_string()));
    assert_eq!(read_image(&vec![0xfb, 0xff]), Some("+/8=".to_string()));
}

#[test]
fn folder_opener_depends_on_the_platform() {
    assert_eq!(open_folder(Platform::MacOs), "open");
    assert_eq!(open_folder(Platform::Windows), "explorer");
    assert_eq!(open_folder(Platform::Linux), "xdg-open");
}

#[test]
fn argv_without_program_name_and_flags() {
    let argv = strings(&["app", "-v", "book.epub", "--flag", "file:///tmp/b.epub", "", "-"]);
    assert_eq!(get_files_from_argv(&argv), strings(&["book.epub", "file:///tmp/b.epub", ""]));
    assert!(get_files_from_argv(&Vec::new()).is_empty());
    assert!(get_files_from_argv(&strings(&["only-the-program"])).is_empty());
    assert!(get_files_from_argv(&strings(&["-looks-like-a-flag"])).is_empty());
    assert_eq!(get_files_from_argv(&strings(&["app", "a", "b"])), strings(&["a", "b"]));
}

#[test]
fn dash_marks_a_flag() {
    assert!(starts_with_dash("-f"));
    assert!(starts_with_dash("--flag"));
    assert!(starts_with_dash("-"));
    assert!(!starts_with_dash(""));
    assert!(!starts_with_dash("file-name"));
}

#[test]
fn argument_stands_for_its_file_url_path_if_it_has_one() {
    assert_eq!(path_of_argument("file:///a".to_string(), Some("/a".to_string())), "/a");
    assert_eq!(path_of_argument("plain/path".to_string(), None), "plain/path");
}

#[test]
fn answer_follows_the_outcome() {
    assert_eq!(answer(Ok(5)).into_parts(), (true, Some(5), None));
    assert_eq!(
        answer::<i64>(Err("locked".to_string())).into_parts(),
        (false, None, Some("locked".to_string()))
    );
}

#[test]
fn added_book_carries_its_row_id_and_time() {
    let r = add_book(
        "T".to_string(),
        "A".to_string(),
        "D".to_string(),
        "[]".to_string(),
        "1700000000".to_string(),
        Ok(42),
    );
    assert_eq!(
        r.into_parts(),
        (
            true,
            Some(Book {
                id: 42,
                title: "T".to_string(),
                author: "A".to_string(),
                description: "D".to_string(),
                toc: "[]".to_string(),
                create_time: "1700000000".to_string(),
                update_time: "1700000000".to_string(),
            }),
            None
        )
    );
    let failed = add_book(
        "T".to_string(),
        "A".to_string(),
        "D".to_string(),
        "[]".to_string(),
        "1".to_string(),
        Err("disk full".to_string()),
    );
    assert_eq!(failed.into_parts(), (false, None, Some("disk full".to_string())));
}

#[test]
fn updates_of_one_row_answer_one() {
    for rows in [0usize, 1, 5] {
        assert_eq!(update_toc(Ok(rows)).into_parts(), (true, Some(1), None));
        assert_eq!(delete_book(Ok(rows)).into_parts(), (true, Some(1), None));
        assert_eq!(update_book(Ok(rows)).into_parts(), (true, Some(1), None));
        assert_eq!(update_chapter(Ok(rows)).into_parts(), (true, Some(()), None));
    }
    assert_eq!(
        update_toc(Err("e".to_string())).into_parts(),
        (false, None, Some("e".to_string()))
    );
    assert_eq!(
        update_chapter(Err("e".to_string())).into_parts(),
        (false, None, Some("e".to_string()))
    );
    assert_eq!(add_chapter(Ok(9)).into_parts(), (true, Some(9), None));
}

#[test]
fn chapter_statement_writes_content_only_if_given() {
    assert_eq!(
        update_chapter_statement(&None),
        "UPDATE ee_chapter SET label = ?, updateTime = ? WHERE id = ?"
    );
    assert_eq!(
        update_chapter_statement(&Some(String::new())),
        "UPDATE ee_chapter SET label = ?, content = ?, updateTime = ? WHERE id = ?"
    );
}

#[test]
fn chapter_query_takes_the_condition_as_written() {
    assert_eq!(get_chapter_where("bookId = 3"), "SELECT * FROM ee_chapter WHERE bookId = 3");
    assert_eq!(get_chapter_where(""), "SELECT * FROM ee_chapter WHERE ");
}

#[test]
fn rows_are_collected_until_the_first_error() {
    assert_eq!(collect_rows(vec![Ok(1), Ok(2), Ok(3)]), Ok(vec![1, 2, 3]));
    assert_eq!(collect_rows::<i32>(Vec::new()), Ok(Vec::new()));
    assert_eq!(
        collect_rows(vec![Ok(1), Err("second".to_string()), Err("third".to_string())]),
        Err("second".to_string())
    );
}

#[test]
fn listing_answers_with_all_rows_or_fails() {
    let chapter = |id| Chapter {
        id,
        book_id: 1,
        label: "l".to_string(),
        href: "h".to_string(),
        content: "c".to_string(),
    };
    let r = get_chapter(vec![Ok(chapter(1)), Ok(chapter(2))]).unwrap();
    assert!(r.is_success());
    assert_eq!(r.data().unwrap().len(), 2);
    assert_eq!(r.data().unwrap()[1].id, 2);
    assert_eq!(
        get_chapter(vec![Ok(chapter(1)), Err("bad row".to_string())]),
        Err("bad row".to_string())
    );
    let no_books = get_all_books(Vec::new()).unwrap();
    assert_eq!(no_books.into_parts(), (true, Some(Vec::new()), None));
}

use appdata_backup::response::{Book, Chapter, DbResponse};

#[test]
fn success_carries_data_and_no_message() {
    let r = DbResponse::success(7i64);
    assert!(r.is_success());
    assert_eq!(r.data(), Some(&7));
    assert_eq!(r.error_message(), None);
    assert_eq!(r.into_parts(), (true, Some(7), None));
}

#[test]
fn error_carries_message_and_no_data() {
    let r: DbResponse<i64> = DbResponse::error("no such table".to_string());
    assert!(!r.is_success());
    assert_eq!(r.data(), None);
    assert_eq!(r.error_message(), Some(&"no such table".to_string()));
    assert_eq!(r.into_parts(), (false, None, Some("no such table".to_string())));
}

#[test]
fn unit_success_is_still_a_success() {
    let r = DbResponse::success(());
    assert!(r.is_success());
    assert_eq!(r.data(), Some(&()));
}

#[test]
fn records_hold_their_fields() {
    let book = Book {
        id: 1,
        title: "t".to_string(),
        author: "a".to_string(),
        description: "d".to_string(),
        toc: "[]".to_string(),
        create_time: "10".to_string(),
        update_time: "11".to_string(),
    };
    let chapter = Chapter {
        id: 2,
        book_id: book.id,
        label: "l".to_string(),
        href: "h".to_string(),
        content: "c".to_string(),
    };
    let r = DbResponse::success(vec![chapter]);
    assert_eq!(r.data().unwrap()[0].book_id, 1);
    assert_eq!(book.update_time, "11");
}

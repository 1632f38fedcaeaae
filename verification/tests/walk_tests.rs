use appdata_backup::walk::{Found, ItemKind, ListedItem, TreeWalker, WalkError, DEFAULT_MAX_DEPTH};

fn item(name: &str, kind: ItemKind) -> ListedItem {
    ListedItem { name: name.to_string(), kind }
}

fn names(found: &[Found]) -> Vec<String> {
    found.iter().map(|f| f.name().clone()).collect()
}

#[test]
fn walk_visits_root_then_subdirectories() {
    let mut walker = TreeWalker::new(DEFAULT_MAX_DEPTH);
    assert_eq!(walker.advance(), Some(String::new()));
    let found = walker
        .record(&vec![
            item("a.txt", ItemKind::File),
            item("sub", ItemKind::Directory),
            item("link", ItemKind::Other),
        ])
        .unwrap();
    assert_eq!(names(&found), ["a.txt", "sub/"]);
    assert!(matches!(found[0], Found::File { .. }));
    assert!(matches!(found[1], Found::Directory { .. }));

    assert_eq!(walker.advance(), Some("sub".to_string()));
    let found = walker
        .record(&vec![item("b.txt", ItemKind::File), item("empty", ItemKind::Directory)])
        .unwrap();
    assert_eq!(names(&found), ["sub/b.txt", "sub/empty/"]);

    assert_eq!(walker.advance(), Some("sub/empty".to_string()));
    assert!(walker.record(&Vec::new()).unwrap().is_empty());
    assert!(walker.is_finished());
    assert_eq!(walker.advance(), None);
    assert!(walker.is_finished());
}

#[test]
fn last_listed_subdirectory_is_walked_first() {
    let mut walker = TreeWalker::new(4);
    walker.advance();
    walker
        .record(&vec![item("one", ItemKind::Directory), item("two", ItemKind::Directory)])
        .unwrap();
    assert_eq!(walker.advance(), Some("two".to_string()));
    walker.record(&vec![item("inner", ItemKind::Directory)]).unwrap();
    assert_eq!(walker.advance(), Some("two/inner".to_string()));
    walker.record(&Vec::new()).unwrap();
    assert_eq!(walker.advance(), Some("one".to_string()));
}

#[test]
fn listing_without_a_directory_is_refused() {
    let mut walker = TreeWalker::new(4);
    assert_eq!(walker.record(&Vec::new()), Err(WalkError::NoDirectory));
    walker.advance();
    walker.record(&Vec::new()).unwrap();
    assert_eq!(walker.record(&Vec::new()).unwrap_err(), WalkError::NoDirectory);
}

#[test]
fn unfit_names_refuse_the_listing() {
    for bad in ["", ".", "..", "a/b", "/", "a\\b", "..\\x"] {
        let mut walker = TreeWalker::new(4);
        walker.advance();
        let listing = vec![item("fine", ItemKind::File), item(bad, ItemKind::File)];
        assert_eq!(walker.record(&listing).unwrap_err(), WalkError::InvalidName { index: 1 });
        // The walker is as it was: the same listing, mended, is accepted.
        let mended = vec![item("fine", ItemKind::File)];
        assert_eq!(names(&walker.record(&mended).unwrap()), ["fine"]);
    }
}

#[test]
fn unfit_name_of_a_passed_over_item_does_not_matter() {
    let mut walker = TreeWalker::new(4);
    walker.advance();
    let listing = vec![item("..", ItemKind::Other), item("kept", ItemKind::File)];
    assert_eq!(names(&walker.record(&listing).unwrap()), ["kept"]);
}

#[test]
fn depth_beyond_the_limit_is_refused() {
    let mut walker = TreeWalker::new(1);
    walker.advance();
    walker.record(&vec![item("level1", ItemKind::Directory)]).unwrap();
    assert_eq!(walker.advance(), Some("level1".to_string()));
    let listing = vec![item("file", ItemKind::File), item("level2", ItemKind::Directory)];
    assert_eq!(walker.record(&listing).unwrap_err(), WalkError::DepthExceeded { index: 1 });
    // Files at the limit are still accepted.
    let found = walker.record(&vec![item("file", ItemKind::File)]).unwrap();
    assert_eq!(names(&found), ["level1/file"]);
}

#[test]
fn limit_zero_allows_only_the_roots_files() {
    let mut walker = TreeWalker::new(0);
    walker.advance();
    assert_eq!(
        walker.record(&vec![item("d", ItemKind::Directory)]).unwrap_err(),
        WalkError::DepthExceeded { index: 0 }
    );
    assert_eq!(names(&walker.record(&vec![item("f", ItemKind::File)]).unwrap()), ["f"]);
}

#[test]
fn first_fault_in_listing_order_decides() {
    let mut walker = TreeWalker::new(0);
    walker.advance();
    let listing = vec![item("d", ItemKind::Directory), item("..", ItemKind::File)];
    assert_eq!(walker.record(&listing).unwrap_err(), WalkError::DepthExceeded { index: 0 });
    let listing = vec![item("..", ItemKind::File), item("d", ItemKind::Directory)];
    assert_eq!(walker.record(&listing).unwrap_err(), WalkError::InvalidName { index: 0 });
}

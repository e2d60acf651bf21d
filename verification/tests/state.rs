use boundbook::cli::state::{save_filename, save_filename_for_hash, BookState};

#[test]
fn test_save_filename_is_deterministic() {
    let f1 = save_filename("some/book.bbf");
    let f2 = save_filename("some/book.bbf");
    assert!(f1 == f2);
}

#[test]
fn test_save_filename_differs_for_different_paths() {
    let f1 = save_filename("book_a.bbf");
    let f2 = save_filename("book_b.bbf");
    assert!(f1 != f2);
}

#[test]
fn test_save_filename_format_is_hex_toml() {
    let f = save_filename("test.bbf");
    assert!(f.ends_with(".toml"));
    let hex_part = &f[..f.len() - 5];
    assert!(hex_part.len() == 16);
    assert!(hex_part.chars().all(|c| c.is_ascii_hexdigit()));
}

#[test]
fn test_bookstate_default_values() {
    let state = BookState::default();
    assert!(state.current_page == 0);
    assert!(state.bookmarks.is_empty());
    assert!(state.source_path.is_empty());
}

#[test]
fn test_save_filename_of_known_hashes() {
    assert_eq!(save_filename_for_hash(0), "0000000000000000.toml");
    assert_eq!(save_filename_for_hash(0xABCDEF), "0000000000abcdef.toml");
    assert_eq!(save_filename_for_hash(u64::MAX), "ffffffffffffffff.toml");
    assert_eq!(save_filename_for_hash(0x0123_4567_89AB_CDEF), "0123456789abcdef.toml");
    // The hash of the empty path is the hash of no bytes.
    assert_eq!(save_filename(""), "2d06800538d394c2.toml");
}

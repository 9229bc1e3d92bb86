use llm_context_gen::classify::{
    classify, contains_null, extension, is_binary_name, is_listed_extension, path_too_long,
    Classification, FileFacts,
};

fn facts(prefix: Option<&[u8]>, size: Option<u64>) -> FileFacts {
    FileFacts { prefix: prefix.map(|b| b.to_vec()), size }
}

#[test]
fn extensions() {
    assert_eq!(extension("a.tar.gz"), Some("gz".to_string()));
    assert_eq!(extension("main.rs"), Some("rs".to_string()));
    assert_eq!(extension(".bashrc"), None);
    assert_eq!(extension("Makefile"), None);
    assert_eq!(extension("foo."), Some("".to_string()));
    assert_eq!(extension(".env.local"), Some("local".to_string()));
}

#[test]
fn listed_extensions_are_lower_case() {
    assert!(is_listed_extension(&"png".to_string()));
    assert!(is_listed_extension(&"7z".to_string()));
    assert!(!is_listed_extension(&"PNG".to_string()));
    assert!(!is_listed_extension(&"rs".to_string()));
}

#[test]
fn binary_names_any_case() {
    assert!(is_binary_name("photo.png"));
    assert!(is_binary_name("PHOTO.PNG"));
    assert!(is_binary_name("archive.Tar"));
    assert!(!is_binary_name("main.rs"));
    assert!(!is_binary_name("png"));
    assert!(!is_binary_name(".png"));
}

#[test]
fn null_bytes_in_prefix() {
    assert!(contains_null(b"ab\0cd"));
    assert!(!contains_null(b"hello"));
    assert!(!contains_null(b""));
    let mut late = vec![b'a'; 9000];
    late[8500] = 0;
    assert!(!contains_null(&late));
    late[8191] = 0;
    assert!(contains_null(&late));
}

#[test]
fn photo_png_with_text_is_binary() {
    let f = facts(Some(b"just some text"), Some(14));
    assert_eq!(classify("photo.png", "photo.png", &f), Classification::Binary);
    assert_eq!(classify("img/Photo.PNG", "Photo.PNG", &f), Classification::Binary);
}

#[test]
fn null_byte_is_binary_whatever_size() {
    let f = facts(Some(b"a\0b"), Some(3));
    assert_eq!(classify("data.txt", "data.txt", &f), Classification::Binary);
    let big = facts(Some(b"a\0b"), Some(5_000_000));
    assert_eq!(classify("data.txt", "data.txt", &big), Classification::Binary);
}

#[test]
fn unreadable_is_binary() {
    let f = facts(None, Some(10));
    assert_eq!(classify("a.txt", "a.txt", &f), Classification::Binary);
}

#[test]
fn empty_file_is_not_binary() {
    let f = facts(Some(b""), Some(0));
    assert_eq!(classify("empty.txt", "empty.txt", &f), Classification::Normal);
    assert_eq!(classify("empty.png", "empty.png", &f), Classification::Binary);
}

#[test]
fn too_large_over_a_million_bytes() {
    let at = facts(Some(b"text"), Some(1_000_000));
    assert_eq!(classify("a.txt", "a.txt", &at), Classification::Normal);
    let over = facts(Some(b"text"), Some(1_000_001));
    assert_eq!(classify("a.txt", "a.txt", &over), Classification::TooLarge);
    let unknown = facts(Some(b"text"), None);
    assert_eq!(classify("a.txt", "a.txt", &unknown), Classification::Normal);
}

#[test]
fn long_path_comes_first() {
    let rel = format!("{}/x.png", "d".repeat(200));
    assert!(path_too_long(&rel));
    let f = facts(None, Some(9_999_999));
    assert_eq!(classify(&rel, "x.png", &f), Classification::TooLongPath);
    let exact = "p".repeat(200);
    assert!(!path_too_long(&exact));
    assert!(path_too_long(&"p".repeat(201)));
}

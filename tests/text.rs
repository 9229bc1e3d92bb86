use llm_context_gen::text::{decimal, get_indent, sanitize_filename};

#[test]
fn indent_levels() {
    assert_eq!(get_indent(0), "");
    assert_eq!(get_indent(1), "│   ");
    assert_eq!(get_indent(3), "│   │   │   ");
}

#[test]
fn indent_capped_at_ten_levels() {
    let ten = get_indent(10);
    assert_eq!(ten, "│   ".repeat(10));
    assert_eq!(get_indent(11), ten);
    assert_eq!(get_indent(usize::MAX), ten);
}

#[test]
fn decimal_numbers() {
    assert_eq!(decimal(0), "0");
    assert_eq!(decimal(7), "7");
    assert_eq!(decimal(2000), "2000");
    assert_eq!(decimal(usize::MAX), usize::MAX.to_string());
}

#[test]
fn sanitize_replaces_both_separators() {
    assert_eq!(sanitize_filename("src/lib/a\\b.rs"), "src_lib_a_b.rs");
    assert_eq!(sanitize_filename("a.txt"), "a.txt");
    assert_eq!(sanitize_filename(""), "");
}

#[test]
fn sanitize_truncates_to_150_chars() {
    let long = "d/".repeat(120);
    let r = sanitize_filename(&long);
    assert_eq!(r.chars().count(), 150);
    assert_eq!(r, "d_".repeat(75));
    let wide = "é".repeat(160);
    assert_eq!(sanitize_filename(&wide), "é".repeat(150));
}

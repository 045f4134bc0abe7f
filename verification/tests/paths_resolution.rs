use mdbook_tectonic::paths::{join_path, parent_dir, resolve_image, strip_dot_segments};

#[test]
fn strip_leading_dot_segments() {
    assert_eq!(strip_dot_segments("./img/a.png"), "img/a.png");
    assert_eq!(strip_dot_segments("././img/a.png"), "img/a.png");
}

#[test]
fn strip_leaves_inner_segments() {
    assert_eq!(strip_dot_segments("img/./a.png"), "img/./a.png");
    assert_eq!(strip_dot_segments("img/a.png"), "img/a.png");
}

#[test]
fn join_inserts_separator() {
    assert_eq!(join_path("a", "b"), "a/b");
    assert_eq!(join_path("a/", "b"), "a/b");
    assert_eq!(join_path("", "b"), "b");
    assert_eq!(join_path("a", ""), "a");
}

#[test]
fn parent_of_nested_path() {
    assert_eq!(parent_dir("a/b/c.png"), Some("a/b".to_string()));
}

#[test]
fn parent_of_bare_name() {
    assert_eq!(parent_dir("c.png"), None);
}

#[test]
fn resolved_reference_mirrors_chapter_path() {
    let r = resolve_image("./img/pic.png", "chapter1", "book/src", "out");
    assert_eq!(r.reference, "images/chapter1/img/pic.png");
    assert_eq!(r.source, "book/src/chapter1/img/pic.png");
    assert_eq!(r.target, "out/images/chapter1/img/pic.png");
}

#[test]
fn resolved_reference_at_book_root() {
    let r = resolve_image("pic.png", "", "book/src", "out");
    assert_eq!(r.reference, "images/pic.png");
    assert_eq!(r.source, "book/src/pic.png");
    assert_eq!(r.target, "out/images/pic.png");
}

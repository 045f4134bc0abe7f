use mdbook_tectonic::errors::RenderError;
use mdbook_tectonic::events::{rewrite_events, traverse_markdown, MdEvent};
use mdbook_tectonic::relocate::relocate_image;
use mdbook_tectonic::render::{aggregate_chapters, assemble_latex, included_chapters, Chapter};
use pulldown_cmark::{Event, LinkType, Options, Parser};

fn parse_all(content: &str) -> Vec<Event<'_>> {
    Parser::new_ext(content, Options::all()).collect()
}

#[test]
fn no_images_round_trips_to_equivalent_markdown() {
    let content = "# Title\n\nHello *world* and `code`.\n\n- one\n- two\n";
    let out = traverse_markdown(content, "ch", "nowhere/src", "nowhere/out").unwrap();
    assert_eq!(parse_all(content), parse_all(&out));
}

#[test]
fn image_reference_is_rewritten_and_file_copied() {
    let _ = fs_err::remove_dir_all("/tmp/mbt_image_rewrite");
    fs_err::create_dir_all("/tmp/mbt_image_rewrite/src/ch/img").unwrap();
    fs_err::write("/tmp/mbt_image_rewrite/src/ch/img/pic.png", b"PNGDATA").unwrap();
    let content = "![alt](./img/pic.png)\n";
    let out = traverse_markdown(content, "ch", "/tmp/mbt_image_rewrite/src", "/tmp/mbt_image_rewrite/out")
        .unwrap();
    assert!(out.contains("images/ch/img/pic.png"));
    assert!(!out.contains("(./img/pic.png)"));
    let copied = fs_err::read("/tmp/mbt_image_rewrite/out/images/ch/img/pic.png").unwrap();
    assert_eq!(copied, b"PNGDATA");
    fs_err::remove_dir_all("/tmp/mbt_image_rewrite").unwrap();
}

#[test]
fn rewriting_copies_image_twice_idempotently() {
    let _ = fs_err::remove_dir_all("/tmp/mbt_idempotent");
    fs_err::create_dir_all("/tmp/mbt_idempotent").unwrap();
    fs_err::write("/tmp/mbt_idempotent/srcfile.bin", b"BYTES").unwrap();
    relocate_image("/tmp/mbt_idempotent/srcfile.bin", "/tmp/mbt_idempotent/dst/copy.bin").unwrap();
    relocate_image("/tmp/mbt_idempotent/srcfile.bin", "/tmp/mbt_idempotent/dst/copy.bin").unwrap();
    assert_eq!(fs_err::read("/tmp/mbt_idempotent/dst/copy.bin").unwrap(), b"BYTES");
    fs_err::remove_dir_all("/tmp/mbt_idempotent").unwrap();
}

#[test]
fn missing_image_source_is_an_io_error() {
    let _ = fs_err::remove_dir_all("/tmp/mbt_io_error");
    fs_err::create_dir_all("/tmp/mbt_io_error").unwrap();
    let r = relocate_image("/tmp/mbt_io_error/no_such_file.bin", "/tmp/mbt_io_error/dst/copy.bin");
    assert!(matches!(r, Err(RenderError::Io(_))));
    fs_err::remove_dir_all("/tmp/mbt_io_error").unwrap();
}

#[test]
fn rewrite_keeps_other_events_and_rewrites_image_payload() {
    let _ = fs_err::remove_dir_all("/tmp/mbt_rewrite_events");
    fs_err::create_dir_all("/tmp/mbt_rewrite_events/src/ch/img").unwrap();
    fs_err::write("/tmp/mbt_rewrite_events/src/ch/img/p.png", b"X").unwrap();
    let events = vec![
        MdEvent::Other(Event::Text("hi".into())),
        MdEvent::Image {
            end: false,
            link: LinkType::Inline,
            path: "./img/p.png".to_string(),
            title: "a title".to_string(),
        },
    ];
    let out = rewrite_events(&events, "ch", "/tmp/mbt_rewrite_events/src", "/tmp/mbt_rewrite_events/out")
        .unwrap();
    assert_eq!(out.len(), 2);
    match &out[0] {
        MdEvent::Other(e) => assert_eq!(*e, Event::Text("hi".into())),
        _ => panic!("first event changed shape"),
    }
    match &out[1] {
        MdEvent::Image { end, link, path, title } => {
            assert_eq!(*end, false);
            assert_eq!(*link, LinkType::Inline);
            assert_eq!(path, "images/ch/img/p.png");
            assert_eq!(title, "a title");
        },
        _ => panic!("image event changed shape"),
    }
    fs_err::remove_dir_all("/tmp/mbt_rewrite_events").unwrap();
}

#[test]
fn excluded_chapter_contributes_nothing_and_is_not_scanned() {
    let chapters = vec![
        Chapter {
            name: "Keep".to_string(),
            content: "# Keep\n".to_string(),
            dir: "keep".to_string(),
        },
        Chapter {
            name: "Skip".to_string(),
            content: "![x](./img/missing.png)\n".to_string(),
            dir: "skip".to_string(),
        },
    ];
    let ignores = vec!["Skip".to_string()];
    let body = aggregate_chapters(chapters, &ignores, "/tmp/mbt_excluded/src", "/tmp/mbt_excluded/out")
        .unwrap();
    assert!(body.contains("Keep"));
    assert!(!body.contains("missing.png"));
    // Were the excluded chapter scanned, its image copy would have created
    // directories under the destination (and then failed).
    assert!(fs_err::metadata("/tmp/mbt_excluded/out").is_err());
}

#[test]
fn included_chapters_keep_order_and_drop_excluded() {
    let chapters = vec![
        Chapter { name: "A".to_string(), content: "a".to_string(), dir: "a".to_string() },
        Chapter { name: "B".to_string(), content: "b".to_string(), dir: "b".to_string() },
        Chapter { name: "C".to_string(), content: "c".to_string(), dir: "c".to_string() },
    ];
    let ignores = vec!["B".to_string()];
    let kept = included_chapters(chapters, &ignores);
    let names: Vec<&str> = kept.iter().map(|c| c.name.as_str()).collect();
    assert_eq!(names, vec!["A", "C"]);
}

#[test]
fn document_is_assembled_from_template_and_fragment() {
    let template =
        "\\title{}\n\\author{}\n\\date{}\n%% mdbook-tectonic begin\n\\end{document}\n";
    let doc = assemble_latex(template, "The Book", "Ada \\and Bob", "\\today", "\\chapter{Hello}\n")
        .unwrap();
    assert_eq!(
        doc,
        "\\title{The Book}\n\\author{Ada \\and Bob}\n\\date{\\today}\n\
         %% mdbook-tectonic begin\\chapter{Hello}\n\n\\end{document}\n"
    );
}

#[test]
fn template_without_marker_fails_assembly() {
    let template = "\\title{}\n\\author{}\n\\date{}\n\\end{document}\n";
    let r = assemble_latex(template, "The Book", "Ada", "\\today", "plain text\n");
    assert!(matches!(r, Err(RenderError::MarkerMissing)));
}

#[test]
fn converted_fragment_follows_the_marker() {
    let template = "\\title{}\n\\author{}\n\\date{}\n%% mdbook-tectonic begin\n\\end{document}\n";
    let tex = cmark2tex::cmark_to_tex("# Hello\n", ".").unwrap();
    let doc = assemble_latex(template, "The Book", "Ada", "\\today", &tex).unwrap();
    assert!(doc.contains("chapter{Hello"));
    let marker_pos = doc.find("%% mdbook-tectonic begin").unwrap();
    let chapter_pos = doc.find("chapter{Hello").unwrap();
    assert!(chapter_pos > marker_pos);
}

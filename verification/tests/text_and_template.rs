use mdbook_tectonic::config::LatexConfig;
use mdbook_tectonic::errors::RenderError;
use mdbook_tectonic::config::today;
use mdbook_tectonic::render::{
    compiler_outcome, fill_template, join_authors, output_filename, version_matches,
};
use mdbook_tectonic::text::{find_sub, insert_after_first, replace_first};

#[test]
fn find_sub_first_of_two() {
    assert_eq!(find_sub("abcabc", "ca"), Some(2));
}

#[test]
fn find_sub_absent() {
    assert_eq!(find_sub("abc", "zz"), None);
}

#[test]
fn find_sub_empty_pattern() {
    assert_eq!(find_sub("abc", ""), Some(0));
}

#[test]
fn replace_first_only_first_occurrence() {
    assert_eq!(replace_first("aXbXc", "X", "YY"), "aYYbXc");
}

#[test]
fn replace_first_no_occurrence() {
    assert_eq!(replace_first("abc", "zz", "YY"), "abc");
}

#[test]
fn insert_after_marker() {
    let r = insert_after_first("x mdbook-tectonic begin\ny", "mdbook-tectonic begin", "LATEX");
    assert_eq!(r.unwrap(), "x mdbook-tectonic beginLATEX\ny");
}

#[test]
fn insert_after_missing_marker() {
    let r = insert_after_first("no marker here", "mdbook-tectonic begin", "LATEX");
    assert!(matches!(r, Err(RenderError::MarkerMissing)));
}

#[test]
fn fill_template_three_placeholders() {
    let template = "%% mdbook-tectonic begin\n\\title{}\n\\author{}\n\\date{}\n\\begin{document}\n";
    let filled = fill_template(template, "My Book", "A \\and B", "2024-01-01");
    assert_eq!(
        filled,
        "%% mdbook-tectonic begin\n\\title{My Book}\n\\author{A \\and B}\n\\date{2024-01-01}\n\\begin{document}\n"
    );
}

#[test]
fn join_authors_two() {
    let authors = vec!["A".to_string(), "B".to_string()];
    assert_eq!(join_authors(&authors), "A \\and B");
}

#[test]
fn join_authors_single_and_empty() {
    assert_eq!(join_authors(&vec!["Solo".to_string()]), "Solo");
    assert_eq!(join_authors(&Vec::new()), "");
}

#[test]
fn today_is_latex_placeholder() {
    assert_eq!(today(), "\\today");
}

#[test]
fn default_config_values() {
    let cfg = LatexConfig::default();
    assert!(cfg.ignores.is_empty());
    assert!(cfg.latex);
    assert!(cfg.pdf);
    assert!(cfg.markdown);
    assert!(cfg.custom_template.is_none());
    assert_eq!(cfg.date, "\\today");
}

#[test]
fn output_filename_appends_extension() {
    assert_eq!(output_filename("My Book", ".md"), "My Book.md");
    assert_eq!(output_filename("My Book", ".tex"), "My Book.tex");
}

#[test]
fn compiler_zero_exit_is_success() {
    assert!(compiler_outcome(0).is_ok());
}

#[test]
fn compiler_nonzero_exit_is_fatal() {
    let r = compiler_outcome(3);
    assert!(matches!(r, Err(RenderError::CompilerExit(3))));
}

#[test]
fn version_within_range_matches() {
    assert_eq!(version_matches("0.4.21", "0.4.30").unwrap(), true);
}

#[test]
fn version_outside_range_mismatches() {
    assert_eq!(version_matches("0.4.21", "0.3.7").unwrap(), false);
}

#[test]
fn malformed_version_is_an_error() {
    let r = version_matches("not a requirement!!", "0.1.0");
    assert!(matches!(r, Err(RenderError::Version(_))));
}

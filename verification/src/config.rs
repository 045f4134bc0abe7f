use vstd::prelude::*;

verus! {

/// The date placeholder handed to LaTeX when no explicit date is configured.
pub fn today() -> (r: String)
    ensures
        r@ == "\\today"@,
{
    String::from_str("\\today")
}

/// The rendering configuration, loaded once per run from the host's
/// `output.latex` table and immutable thereafter.
pub struct LatexConfig {
    /// Chapters that will not be exported.
    pub ignores: Vec<String>,
    /// Output a LaTeX file.
    pub latex: bool,
    /// Output a PDF.
    pub pdf: bool,
    /// Output a markdown file.
    pub markdown: bool,
    /// A template file of the user's own, in place of the built-in one.
    pub custom_template: Option<String>,
    /// The date for the LaTeX `\date{}` macro.
    pub date: String,
}

impl core::default::Default for LatexConfig {
    /// Every output is produced, no chapter is ignored, and the date is the
    /// `\today` placeholder.
    fn default() -> (r: Self)
        ensures
            r.ignores@ =~= Seq::<String>::empty(),
            r.latex,
            r.pdf,
            r.markdown,
            r.custom_template is None,
            r.date@ == "\\today"@,
    {
        LatexConfig {
            ignores: Vec::new(),
            latex: true,
            pdf: true,
            markdown: true,
            custom_template: None,
            date: today(),
        }
    }
}

} // verus!

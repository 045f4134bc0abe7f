use vstd::prelude::*;
use crate::errors::RenderError;
use crate::events::{renders_to, traverse_markdown};
use crate::text::{insert_after_first, occurs, occurs_at, replace_first, replace_first_spec};

verus! {

/// One chapter handed over by the host: its name, its markdown text, and
/// the directory holding it, relative to the book's source root.
pub struct Chapter {
    pub name: String,
    pub content: String,
    pub dir: String,
}

/// The name stands in the exclusion list.
pub open spec fn name_ignored(name: Seq<char>, ignores: Seq<String>) -> bool {
    exists|i: int| 0 <= i < ignores.len() && ignores[i]@ == name
}

/// Whether a chapter name stands in the exclusion list.
pub fn is_ignored(name: &String, ignores: &Vec<String>) -> (r: bool)
    ensures
        r == name_ignored(name@, ignores@),
{
    let mut i: usize = 0;
    while i < ignores.len()
        invariant
            i <= ignores@.len(),
            forall|j: int| 0 <= j < i ==> ignores@[j]@ != name@,
        decreases ignores@.len() - i,
    {
        if ignores[i].eq(name) {
            return true;
        }
        i += 1;
    }
    false
}

/// Keeps exactly the chapters whose name is not excluded.
pub open spec fn keep_pred(ignores: Seq<String>) -> spec_fn(Chapter) -> bool {
    |c: Chapter| !name_ignored(c.name@, ignores)
}

/// The book's chapters in document order with the excluded ones removed;
/// nothing else is reordered, added or dropped.
pub fn included_chapters(chapters: Vec<Chapter>, ignores: &Vec<String>) -> (r: Vec<Chapter>)
    ensures
        r@ == chapters@.filter(keep_pred(ignores@)),
{
    let ghost orig = chapters@;
    let mut rest = chapters;
    let mut out: Vec<Chapter> = Vec::new();
    let ghost pred = keep_pred(ignores@);
    proof {
        assert(orig.subrange(0, 0).filter(pred) =~= Seq::<Chapter>::empty());
    }
    while rest.len() > 0
        invariant
            rest@.len() <= orig.len(),
            pred == keep_pred(ignores@),
            forall|j: int|
                orig.len() - rest@.len() <= j < orig.len() ==> orig[j] == rest@[j - (orig.len()
                    - rest@.len())],
            out@ == orig.subrange(0, orig.len() - rest@.len()).filter(pred),
        decreases rest@.len(),
    {
        let ghost k = orig.len() - rest@.len();
        let ch = rest.remove(0);
        proof {
            assert(ch == orig[k]);
        }
        let keep = !is_ignored(&ch.name, ignores);
        proof {
            let cur = orig.subrange(0, k + 1);
            assert(cur.drop_last() =~= orig.subrange(0, k));
            assert(cur.last() == orig[k]);
            reveal_with_fuel(Seq::<_>::filter, 2);
            assert(cur.filter(pred) == if pred(orig[k]) {
                orig.subrange(0, k).filter(pred).push(orig[k])
            } else {
                orig.subrange(0, k).filter(pred)
            });
        }
        if keep {
            out.push(ch);
        }
    }
    proof {
        assert(orig.subrange(0, orig.len() as int) =~= orig);
    }
    out
}

/// Law: nothing excluded survives the selection. Every chapter of the
/// selected sequence has a name outside the exclusion list, so a chapter
/// whose name stands in the list contributes nothing to what is aggregated
/// from the selection, and is never scanned.
pub proof fn lemma_excluded_chapters_dropped(chapters: Seq<Chapter>, ignores: Seq<String>)
    ensures
        forall|j: int|
            0 <= j < chapters.filter(keep_pred(ignores)).len() ==> !name_ignored(
                #[trigger] chapters.filter(keep_pred(ignores))[j].name@,
                ignores,
            ),
{
    assert forall|j: int|
        0 <= j < chapters.filter(keep_pred(ignores)).len() implies !name_ignored(
        chapters.filter(keep_pred(ignores))[j].name@,
        ignores,
    ) by {
        chapters.lemma_filter_pred(keep_pred(ignores), j);
    }
}

/// The body is the in-order concatenation of one rendering of each
/// included chapter: exactly the chapters whose name is not excluded, in
/// document order, each rendered as `renders_to` states.
pub open spec fn aggregated_from(
    chapters: Seq<Chapter>,
    ignores: Seq<String>,
    body: Seq<char>,
) -> bool {
    exists|parts: Seq<Seq<char>>|
        #![trigger parts.flatten()]
        {
            let included = chapters.filter(keep_pred(ignores));
            &&& parts.len() == included.len()
            &&& (forall|i: int|
                0 <= i < parts.len() ==> renders_to(
                    included[i].content@,
                    included[i].dir@,
                    parts[i],
                ))
            &&& body == parts.flatten()
        }
}

/// Renders the book's body: the chapters in document order, the excluded
/// ones skipped entirely, each remaining chapter rewritten through the
/// image pipeline and the results concatenated in order. Only a failed
/// image copy aborts the run.
pub fn aggregate_chapters(
    chapters: Vec<Chapter>,
    ignores: &Vec<String>,
    source_root: &str,
    dest_root: &str,
) -> (r: Result<String, RenderError>)
    ensures
        r matches Ok(body) ==> aggregated_from(chapters@, ignores@, body@),
        r matches Err(e) ==> e is Io,
{
    let ghost orig = chapters@;
    let included = included_chapters(chapters, ignores);
    let mut body = String::new();
    let ghost mut parts: Seq<Seq<char>> = Seq::empty();
    let mut i: usize = 0;
    proof {
        assert(Seq::<Seq<char>>::empty().flatten() =~= Seq::<char>::empty());
    }
    while i < included.len()
        invariant
            i <= included@.len(),
            included@ == orig.filter(keep_pred(ignores@)),
            parts.len() == i,
            forall|j: int|
                0 <= j < i ==> renders_to(included@[j].content@, included@[j].dir@, parts[j]),
            body@ == parts.flatten(),
        decreases included@.len() - i,
    {
        let ch = &included[i];
        match traverse_markdown(ch.content.as_str(), ch.dir.as_str(), source_root, dest_root) {
            Ok(part) => {
                proof {
                    parts.lemma_flatten_push(part@);
                    parts = parts.push(part@);
                }
                body.append(part.as_str());
            },
            Err(e) => {
                return Err(e);
            },
        }
        i += 1;
    }
    proof {
        assert(aggregated_from(orig, ignores@, body@)) by {
            assert(parts.len() == orig.filter(keep_pred(ignores@)).len() && (forall|j: int|
                0 <= j < parts.len() ==> renders_to(
                    orig.filter(keep_pred(ignores@))[j].content@,
                    orig.filter(keep_pred(ignores@))[j].dir@,
                    parts[j],
                )) && body@ == parts.flatten());
        }
    }
    Ok(body)
}

/// The placeholder that the title macro replaces.
pub open spec fn title_pattern() -> Seq<char> {
    "\\title{}"@
}

/// The placeholder that the author macro replaces.
pub open spec fn author_pattern() -> Seq<char> {
    "\\author{}"@
}

/// The placeholder that the date macro replaces.
pub open spec fn date_pattern() -> Seq<char> {
    "\\date{}"@
}

/// The marker after which the generated LaTeX body is spliced in.
pub open spec fn content_marker() -> Seq<char> {
    "mdbook-tectonic begin"@
}

/// The filled title macro.
pub open spec fn title_macro(title: Seq<char>) -> Seq<char> {
    "\\title{"@ + title + "}"@
}

/// The filled author macro.
pub open spec fn author_macro(authors: Seq<char>) -> Seq<char> {
    "\\author{"@ + authors + "}"@
}

/// The filled date macro.
pub open spec fn date_macro(date: Seq<char>) -> Seq<char> {
    "\\date{"@ + date + "}"@
}

/// The template with the first occurrence of each placeholder replaced by
/// its filled macro: first the title, then the author, then the date.
pub open spec fn fill_template_spec(
    t: Seq<char>,
    title: Seq<char>,
    authors: Seq<char>,
    date: Seq<char>,
) -> Seq<char> {
    let t1 = replace_first_spec(t, title_pattern(), title_macro(title));
    let t2 = replace_first_spec(t1, author_pattern(), author_macro(authors));
    replace_first_spec(t2, date_pattern(), date_macro(date))
}

/// Law: where the template holds the title placeholder exactly once, the
/// text after the title substitution holds the author placeholder exactly
/// once, and the text after that holds the date placeholder exactly once,
/// each macro is substituted exactly once, at its placeholder's one
/// position, and nothing else of the text is altered.
pub proof fn lemma_fill_each_placeholder_once(
    t: Seq<char>,
    title: Seq<char>,
    authors: Seq<char>,
    date: Seq<char>,
    i1: int,
    i2: int,
    i3: int,
)
    requires
        occurs_at(t, title_pattern(), i1),
        forall|j: int| j != i1 ==> !occurs_at(t, title_pattern(), j),
        occurs_at(
            replace_first_spec(t, title_pattern(), title_macro(title)),
            author_pattern(),
            i2,
        ),
        forall|j: int|
            j != i2 ==> !occurs_at(
                replace_first_spec(t, title_pattern(), title_macro(title)),
                author_pattern(),
                j,
            ),
        occurs_at(
            replace_first_spec(
                replace_first_spec(t, title_pattern(), title_macro(title)),
                author_pattern(),
                author_macro(authors),
            ),
            date_pattern(),
            i3,
        ),
        forall|j: int|
            j != i3 ==> !occurs_at(
                replace_first_spec(
                    replace_first_spec(t, title_pattern(), title_macro(title)),
                    author_pattern(),
                    author_macro(authors),
                ),
                date_pattern(),
                j,
            ),
    ensures
        ({
            let t1 = t.subrange(0, i1) + title_macro(title) + t.subrange(
                i1 + title_pattern().len(),
                t.len() as int,
            );
            let t2 = t1.subrange(0, i2) + author_macro(authors) + t1.subrange(
                i2 + author_pattern().len(),
                t1.len() as int,
            );
            let t3 = t2.subrange(0, i3) + date_macro(date) + t2.subrange(
                i3 + date_pattern().len(),
                t2.len() as int,
            );
            fill_template_spec(t, title, authors, date) == t3
        }),
{
    crate::text::lemma_replace_single_occurrence(t, title_pattern(), title_macro(title), i1);
    let t1 = replace_first_spec(t, title_pattern(), title_macro(title));
    crate::text::lemma_replace_single_occurrence(
        t1,
        author_pattern(),
        author_macro(authors),
        i2,
    );
    let t2 = replace_first_spec(t1, author_pattern(), author_macro(authors));
    crate::text::lemma_replace_single_occurrence(t2, date_pattern(), date_macro(date), i3);
}

/// Substitutes the title, author and date placeholders of the template,
/// each at its first occurrence.
pub fn fill_template(template: &str, title: &str, authors: &str, date: &str) -> (r: String)
    ensures
        r@ == fill_template_spec(template@, title@, authors@, date@),
{
    let mut m1 = String::from_str("\\title{");
    m1.append(title);
    m1.append("}");
    let t1 = replace_first(template, "\\title{}", m1.as_str());
    let mut m2 = String::from_str("\\author{");
    m2.append(authors);
    m2.append("}");
    let t2 = replace_first(t1.as_str(), "\\author{}", m2.as_str());
    let mut m3 = String::from_str("\\date{");
    m3.append(date);
    m3.append("}");
    replace_first(t2.as_str(), "\\date{}", m3.as_str())
}

/// The author names joined by the LaTeX `\and` separator.
pub open spec fn joined_with(parts: Seq<Seq<char>>, sep: Seq<char>) -> Seq<char>
    decreases parts.len(),
{
    if parts.len() == 0 {
        Seq::empty()
    } else if parts.len() == 1 {
        parts[0]
    } else {
        parts[0] + sep + joined_with(parts.skip(1), sep)
    }
}

/// The views of a sequence of strings.
pub open spec fn views_of(parts: Seq<String>) -> Seq<Seq<char>> {
    parts.map_values(|s: String| s@)
}

proof fn lemma_joined_push(parts: Seq<Seq<char>>, sep: Seq<char>, last: Seq<char>)
    ensures
        joined_with(parts.push(last), sep) == if parts.len() == 0 {
            last
        } else {
            joined_with(parts, sep) + sep + last
        },
    decreases parts.len(),
{
    if parts.len() == 0 {
        assert(parts.push(last).len() == 1);
        assert(parts.push(last)[0] == last);
    } else {
        assert(parts.push(last).skip(1) =~= parts.skip(1).push(last));
        lemma_joined_push(parts.skip(1), sep, last);
        if parts.len() == 1 {
            assert(parts.skip(1).len() == 0);
        } else {
            assert(joined_with(parts, sep) == parts[0] + sep + joined_with(parts.skip(1), sep));
        }
    }
}

/// The author names joined by ` \and `, as the title page shows them.
pub fn join_authors(authors: &Vec<String>) -> (r: String)
    ensures
        r@ == joined_with(views_of(authors@), " \\and "@),
{
    let ghost parts = views_of(authors@);
    let mut out = String::new();
    let mut i: usize = 0;
    proof {
        assert(parts.subrange(0, 0) =~= Seq::<Seq<char>>::empty());
    }
    while i < authors.len()
        invariant
            i <= authors@.len(),
            parts == views_of(authors@),
            parts.len() == authors@.len(),
            out@ == joined_with(parts.subrange(0, i as int), " \\and "@),
        decreases authors@.len() - i,
    {
        if i > 0 {
            out.append(" \\and ");
        }
        out.append(authors[i].as_str());
        proof {
            lemma_joined_push(parts.subrange(0, i as int), " \\and "@, parts[i as int]);
            assert(parts.subrange(0, i as int + 1) =~= parts.subrange(0, i as int).push(
                parts[i as int],
            ));
        }
        i += 1;
    }
    proof {
        assert(parts.subrange(0, parts.len() as int) =~= parts);
    }
    out
}

/// Fills the template's placeholders and splices the LaTeX body in
/// immediately after the first occurrence of the insertion marker; an error
/// where the filled template holds no marker.
pub fn assemble_latex(
    template: &str,
    title: &str,
    authors_joined: &str,
    date: &str,
    body_tex: &str,
) -> (r: Result<String, RenderError>)
    ensures
        ({
            let filled = fill_template_spec(template@, title@, authors_joined@, date@);
            &&& (r is Ok <==> occurs(filled, content_marker()))
            &&& (r matches Ok(s) ==> s@ == replace_first_spec(
                filled,
                content_marker(),
                content_marker() + body_tex@,
            ))
            &&& (r matches Err(e) ==> e is MarkerMissing)
        }),
{
    let filled = fill_template(template, title, authors_joined, date);
    insert_after_first(filled.as_str(), "mdbook-tectonic begin", body_tex)
}

#[verifier::external_type_specification]
#[verifier::external_body]
pub struct ExVersionReq(semver::VersionReq);

#[verifier::external_type_specification]
#[verifier::external_body]
pub struct ExVersion(semver::Version);

/// What parsing a version requirement string yields: the requirement, or
/// nothing where the string is malformed. A function of the string alone.
pub uninterp spec fn req_of(s: Seq<char>) -> Option<semver::VersionReq>;

/// What parsing a version string yields: the version, or nothing where the
/// string is malformed. A function of the string alone.
pub uninterp spec fn ver_of(s: Seq<char>) -> Option<semver::Version>;

/// Whether a version satisfies a requirement: a function of the two values
/// alone.
pub uninterp spec fn matches_of(req: semver::VersionReq, v: semver::Version) -> bool;

/// Relies on semver::VersionReq::parse: a pure parser whose success and
/// value depend on the string alone, named `req_of`; it fails exactly on a
/// malformed requirement string.
#[verifier::external_body]
fn parse_version_req(s: &str) -> (r: Result<semver::VersionReq, RenderError>)
    ensures
        r is Ok <==> req_of(s@) is Some,
        r matches Ok(v) ==> req_of(s@) == Some(v),
        r matches Err(e) ==> e is Version,
{
    match semver::VersionReq::parse(s) {
        Ok(v) => Ok(v),
        Err(e) => Err(RenderError::Version(format!("{}", e))),
    }
}

/// Relies on semver::Version::parse: a pure parser whose success and value
/// depend on the string alone, named `ver_of`; it fails exactly on a
/// malformed version string.
#[verifier::external_body]
fn parse_version(s: &str) -> (r: Result<semver::Version, RenderError>)
    ensures
        r is Ok <==> ver_of(s@) is Some,
        r matches Ok(v) ==> ver_of(s@) == Some(v),
        r matches Err(e) ==> e is Version,
{
    match semver::Version::parse(s) {
        Ok(v) => Ok(v),
        Err(e) => Err(RenderError::Version(format!("{}", e))),
    }
}

/// Relies on semver::VersionReq::matches: a pure comparison of the two
/// values, named `matches_of`.
#[verifier::external_body]
fn req_matches(req: &semver::VersionReq, v: &semver::Version) -> (r: bool)
    ensures
        r == matches_of(*req, *v),
{
    req.matches(v)
}

/// Whether the host's running version satisfies the version range this
/// renderer was built against; a mismatch is only worth a warning, but a
/// version string that does not parse is an error.
pub fn version_matches(compiled_against: &str, running: &str) -> (r: Result<bool, RenderError>)
    ensures
        r is Ok <==> req_of(compiled_against@) is Some && ver_of(running@) is Some,
        r matches Ok(b) ==> (req_of(compiled_against@) matches Some(req) && ver_of(running@)
            matches Some(v) && b == matches_of(req, v)),
        r matches Err(e) ==> e is Version,
{
    let req = match parse_version_req(compiled_against) {
        Ok(v) => v,
        Err(e) => {
            return Err(e);
        },
    };
    let ver = match parse_version(running) {
        Ok(v) => v,
        Err(e) => {
            return Err(e);
        },
    };
    Ok(req_matches(&req, &ver))
}

/// The verdict on the external LaTeX compiler's exit status: success is
/// exactly exit status zero, and any other status aborts the run.
pub fn compiler_outcome(status: i32) -> (r: Result<(), RenderError>)
    ensures
        r is Ok <==> status == 0,
        r matches Err(e) ==> e matches RenderError::CompilerExit(c) && c == status,
{
    if status == 0 {
        Ok(())
    } else {
        Err(RenderError::CompilerExit(status))
    }
}

/// The output file's name: the book title with the extension appended.
pub fn output_filename(title: &str, extension: &str) -> (r: String)
    ensures
        r@ == title@ + extension@,
{
    let mut out = title.to_owned();
    out.append(extension);
    out
}

} // verus!

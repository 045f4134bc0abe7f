use vstd::prelude::*;

verus! {

/// `s` with every leading `./` segment stripped.
pub open spec fn strip_dots_spec(s: Seq<char>) -> Seq<char>
    decreases s.len(),
{
    if s.len() >= 2 && s[0] == '.' && s[1] == '/' {
        strip_dots_spec(s.skip(2))
    } else {
        s
    }
}

/// Two path fragments joined with a single `/` between them; an empty
/// fragment on either side leaves the other unchanged.
pub open spec fn join_spec(a: Seq<char>, b: Seq<char>) -> Seq<char> {
    if a.len() == 0 {
        b
    } else if b.len() == 0 {
        a
    } else if a.last() == '/' {
        a + b
    } else {
        a + seq!['/'] + b
    }
}

/// The reference embedded in the output markdown for a raw image reference
/// found in a chapter: the chapter-relative path of the image, nested under
/// `images/`.
pub open spec fn image_ref_spec(chapter_dir: Seq<char>, raw: Seq<char>) -> Seq<char> {
    join_spec("images"@, join_spec(chapter_dir, strip_dots_spec(raw)))
}

/// Law: every rewritten reference is nested under `images/`, mirroring the
/// chapter-relative path of the source reference: the resolved reference is
/// exactly `images`, a separator, and the chapter-relative path (or bare
/// `images` where that path is empty).
pub proof fn lemma_reference_under_images(chapter_dir: Seq<char>, raw: Seq<char>)
    ensures
        ({
            let rel = join_spec(chapter_dir, strip_dots_spec(raw));
            image_ref_spec(chapter_dir, raw) == if rel.len() == 0 {
                "images"@
            } else {
                "images"@ + seq!['/'] + rel
            }
        }),
{
    reveal_strlit("images");
}

/// `raw` with its leading `./` segments removed.
pub fn strip_dot_segments(raw: &str) -> (r: String)
    ensures
        r@ == strip_dots_spec(raw@),
{
    let len = raw.unicode_len();
    let mut start: usize = 0;
    proof {
        assert(raw@.skip(0) =~= raw@);
    }
    while start < len && start + 1 < len && raw.get_char(start) == '.' && raw.get_char(start + 1)
        == '/'
        invariant
            len == raw@.len(),
            start <= len,
            strip_dots_spec(raw@) == strip_dots_spec(raw@.skip(start as int)),
        decreases len - start,
    {
        proof {
            assert(raw@.skip(start as int).skip(2) =~= raw@.skip(start as int + 2));
        }
        start += 2;
    }
    let rest = raw.substring_char(start, len);
    proof {
        assert(rest@ =~= raw@.skip(start as int));
    }
    rest.to_owned()
}

/// `a` and `b` joined with a single `/` between them.
pub fn join_path(a: &str, b: &str) -> (r: String)
    ensures
        r@ == join_spec(a@, b@),
{
    let a_len = a.unicode_len();
    let b_len = b.unicode_len();
    if a_len == 0 {
        b.to_owned()
    } else if b_len == 0 {
        a.to_owned()
    } else if a.get_char(a_len - 1) == '/' {
        let mut out = a.to_owned();
        out.append(b);
        out
    } else {
        let mut out = a.to_owned();
        out.append("/");
        out.append(b);
        proof {
            reveal_strlit("/");
            assert(a@ + "/"@ + b@ =~= a@ + seq!['/'] + b@);
        }
        out
    }
}

/// Where an image referenced as `raw` in the chapter under `chapter_dir` is
/// read from, where its copy is placed, and how the rewritten markdown
/// refers to it.
pub struct ResolvedImage {
    /// The image file's location under the book's source root.
    pub source: String,
    /// Where the copy is placed under the destination root.
    pub target: String,
    /// The reference embedded in the rewritten markdown.
    pub reference: String,
}

/// Resolves a raw image reference against the chapter's directory, the
/// book's source root and the destination root.
pub fn resolve_image(raw: &str, chapter_dir: &str, source_root: &str, dest_root: &str) -> (r:
    ResolvedImage)
    ensures
        r.reference@ == image_ref_spec(chapter_dir@, raw@),
        r.source@ == join_spec(source_root@, join_spec(chapter_dir@, strip_dots_spec(raw@))),
        r.target@ == join_spec(dest_root@, image_ref_spec(chapter_dir@, raw@)),
{
    let cleaned = strip_dot_segments(raw);
    let rel = join_path(chapter_dir, cleaned.as_str());
    let source = join_path(source_root, rel.as_str());
    let reference = join_path("images", rel.as_str());
    let target = join_path(dest_root, reference.as_str());
    ResolvedImage { source, target, reference }
}

/// `i` is the index of the last `/` in `s`.
pub open spec fn is_last_slash(s: Seq<char>, i: int) -> bool {
    0 <= i < s.len() && s[i] == '/' && forall|j: int| i < j < s.len() ==> s[j] != '/'
}

/// The directory part of a path: everything before its last `/`, or nothing
/// where the path holds no `/` at all.
pub fn parent_dir(s: &str) -> (r: Option<String>)
    ensures
        r matches Some(d) ==> exists|i: int| is_last_slash(s@, i) && d@ == s@.subrange(0, i),
        r is None ==> forall|i: int| 0 <= i < s@.len() ==> s@[i] != '/',
{
    let len = s.unicode_len();
    let mut k: usize = len;
    while k > 0
        invariant
            k <= len,
            len == s@.len(),
            forall|j: int| k <= j < len ==> s@[j] != '/',
        decreases k,
    {
        if s.get_char(k - 1) == '/' {
            let d = s.substring_char(0, k - 1).to_owned();
            proof {
                assert(is_last_slash(s@, k - 1));
            }
            return Some(d);
        }
        k -= 1;
    }
    None
}

} // verus!

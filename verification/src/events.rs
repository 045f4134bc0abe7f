use vstd::prelude::*;
use crate::errors::RenderError;
use crate::paths::{image_ref_spec, resolve_image};
use crate::relocate::relocate_image;
use pulldown_cmark::{Event, LinkType, Options, Parser, Tag};

verus! {

#[verifier::external_type_specification]
#[verifier::external_body]
pub struct ExEvent<'a>(Event<'a>);

#[verifier::external_type_specification]
#[verifier::external_body]
pub struct ExLinkType(LinkType);

/// One markdown token, as the rewriter sees it: an image boundary carries
/// its payload as plain values; every other token is carried through
/// opaque, to be handed back to the serializer untouched.
pub enum MdEvent<'a> {
    /// The start (`end == false`) or end (`end == true`) of an image, with
    /// its link kind, its reference path and its title.
    Image { end: bool, link: LinkType, path: String, title: String },
    /// Any other markdown token.
    Other(Event<'a>),
}

/// How one rewritten token relates to the token it came from: an image
/// boundary keeps its side, link kind and title, and gets the resolved
/// reference as its path; every other token is value-identical.
pub open spec fn rewritten_event<'a>(
    a: MdEvent<'a>,
    b: MdEvent<'a>,
    chapter_dir: Seq<char>,
) -> bool {
    match a {
        MdEvent::Image { end, link, path, title } => {
            &&& b matches MdEvent::Image { end: e2, link: l2, path: p2, title: t2 }
            &&& e2 == end
            &&& l2 == link
            &&& t2 == title
            &&& p2@ == image_ref_spec(chapter_dir, path@)
        },
        MdEvent::Other(_) => b == a,
    }
}

/// Some token in the stream is an image boundary.
pub open spec fn has_image<'a>(events: Seq<MdEvent<'a>>) -> bool {
    exists|i: int| 0 <= i < events.len() && events[i] is Image
}

/// The token stream that parsing a markdown text yields: a function of the
/// text alone.
pub uninterp spec fn parsed_of(content: Seq<char>) -> Seq<MdEvent<'static>>;

/// The markdown text that serializing a token stream yields: a function of
/// the stream alone.
pub uninterp spec fn serialized_of(events: Seq<MdEvent<'static>>) -> Seq<char>;

/// Relies on pulldown_cmark::Parser::new_ext: parses markdown into its
/// event stream, with every extension enabled; image start and end tokens
/// are told apart from the rest, their payloads moved out as plain values.
/// Parsing is total and depends on the text alone; its stream is named
/// `parsed_of`.
#[verifier::external_body]
fn parse_markdown<'a>(content: &'a str) -> (r: Vec<MdEvent<'a>>)
    ensures
        r@ == parsed_of(content@),
{
    Parser::new_ext(content, Options::all()).map(|ev| match ev {
        Event::Start(Tag::Image(l, p, t)) =>
            MdEvent::Image { end: false, link: l, path: p.to_string(), title: t.to_string() },
        Event::End(Tag::Image(l, p, t)) =>
            MdEvent::Image { end: true, link: l, path: p.to_string(), title: t.to_string() },
        other => MdEvent::Other(other),
    }).collect()
}

/// Relies on pulldown_cmark_to_cmark::cmark: reconstitutes markdown text
/// from the token stream; image tokens are first rebuilt as pulldown_cmark
/// events, every other token is handed back as it came. The text depends
/// on the stream alone and is named `serialized_of`; every error of
/// `cmark` comes from its `fmt::Write` sink, and writing into a `String`
/// never fails, so the call succeeds.
#[verifier::external_body]
fn events_to_markdown(events: Vec<MdEvent<'_>>) -> (r: Result<String, RenderError>)
    ensures
        r is Ok,
        r matches Ok(s) ==> s@ == serialized_of(events@),
{
    let mut out = String::new();
    let rebuilt = events.into_iter().map(|ev| match ev {
        MdEvent::Image { end, link, path, title } => {
            let tag = Tag::Image(link, path.into(), title.into());
            if end { Event::End(tag) } else { Event::Start(tag) }
        },
        MdEvent::Other(e) => e,
    });
    match pulldown_cmark_to_cmark::cmark(rebuilt, &mut out) {
        Ok(_) => Ok(out),
        Err(_) => Err(RenderError::Serialize),
    }
}

/// Relies on pulldown_cmark::Event's derived Clone: the clone is the same
/// value as the original.
#[verifier::external_body]
fn clone_event<'a>(ev: &Event<'a>) -> (r: Event<'a>)
    ensures
        r == *ev,
{
    ev.clone()
}

/// Rewrites a token stream: each image boundary has its path resolved
/// against the chapter's directory and replaced with the reference under
/// `images/`, and the image file is copied to its destination; every other
/// token is passed through unchanged, in the same order and number. A
/// failed copy aborts the run, and can come only of an image token.
pub fn rewrite_events<'a>(
    events: &Vec<MdEvent<'a>>,
    chapter_dir: &str,
    source_root: &str,
    dest_root: &str,
) -> (r: Result<Vec<MdEvent<'a>>, RenderError>)
    ensures
        r matches Ok(out) ==> {
            &&& out@.len() == events@.len()
            &&& forall|i: int|
                0 <= i < events@.len() ==> rewritten_event(events@[i], out@[i], chapter_dir@)
        },
        r matches Err(e) ==> e is Io && has_image(events@),
{
    let mut out: Vec<MdEvent<'a>> = Vec::new();
    let mut i: usize = 0;
    while i < events.len()
        invariant
            i <= events@.len(),
            out@.len() == i,
            forall|j: int| 0 <= j < i ==> rewritten_event(events@[j], out@[j], chapter_dir@),
        decreases events@.len() - i,
    {
        match &events[i] {
            MdEvent::Image { end, link, path, title } => {
                let resolved = resolve_image(path.as_str(), chapter_dir, source_root, dest_root);
                match relocate_image(resolved.source.as_str(), resolved.target.as_str()) {
                    Ok(()) => {},
                    Err(e) => {
                        proof {
                            assert(0 <= i < events@.len() && events@[i as int] is Image);
                            assert(has_image(events@));
                        }
                        return Err(e);
                    },
                }
                out.push(
                    MdEvent::Image {
                        end: *end,
                        link: *link,
                        path: resolved.reference,
                        title: title.clone(),
                    },
                );
            },
            MdEvent::Other(other) => {
                out.push(MdEvent::Other(clone_event(other)));
            },
        }
        i += 1;
    }
    Ok(out)
}

/// Law: a token stream with no image boundary in it is rewritten to
/// itself, token for token.
pub proof fn lemma_rewrite_no_images_identity<'a>(
    events: Seq<MdEvent<'a>>,
    out: Seq<MdEvent<'a>>,
    chapter_dir: Seq<char>,
)
    requires
        out.len() == events.len(),
        forall|i: int| 0 <= i < events.len() ==> rewritten_event(events[i], out[i], chapter_dir),
        forall|i: int| 0 <= i < events.len() ==> !(events[i] is Image),
    ensures
        out =~= events,
{
    assert forall|i: int| 0 <= i < events.len() implies out[i] == events[i] by {
        assert(rewritten_event(events[i], out[i], chapter_dir));
        assert(!(events[i] is Image));
    }
}

/// The text is the serialization of some rewriting of the content's parsed
/// token stream: same length, every image boundary's path resolved against
/// the chapter's directory, every other token unchanged.
pub open spec fn renders_to(content: Seq<char>, chapter_dir: Seq<char>, text: Seq<char>) -> bool {
    exists|out: Seq<MdEvent<'static>>|
        {
            &&& out.len() == parsed_of(content).len()
            &&& (forall|i: int|
                0 <= i < out.len() ==> rewritten_event(parsed_of(content)[i], out[i], chapter_dir))
            &&& text == serialized_of(out)
        }
}

/// Rewrites one chapter's markdown: the text is parsed, image references
/// are rewritten (copying each image under `images/` in the destination
/// tree) while every other token is carried through unchanged, and the
/// stream is serialized back to markdown text. Only a failed image copy
/// aborts, so failure can come only of a chapter that holds an image.
pub fn traverse_markdown(
    content: &str,
    chapter_dir: &str,
    source_root: &str,
    dest_root: &str,
) -> (r: Result<String, RenderError>)
    ensures
        r matches Ok(s) ==> renders_to(content@, chapter_dir@, s@),
        r matches Err(e) ==> e is Io && has_image(parsed_of(content@)),
{
    let events = parse_markdown(content);
    match rewrite_events(&events, chapter_dir, source_root, dest_root) {
        Ok(rewritten) => {
            let ghost out = rewritten@;
            let r = events_to_markdown(rewritten);
            match r {
                Ok(s) => {
                    proof {
                        assert(renders_to(content@, chapter_dir@, s@)) by {
                            assert(out.len() == parsed_of(content@).len() && (forall|i: int|
                                0 <= i < out.len() ==> rewritten_event(
                                    parsed_of(content@)[i],
                                    out[i],
                                    chapter_dir@,
                                )) && s@ == serialized_of(out));
                        }
                    }
                    Ok(s)
                },
                Err(e) => Err(e),
            }
        },
        Err(e) => Err(e),
    }
}

} // verus!

//! The markup token stream. The tokenizer and serializer are outside
//! collaborators: each token carries the collaborator's raw event, re-emitted
//! verbatim on passthrough, together with the classification the pipeline
//! reads. Parsing, re-serialization and the construction of spliced image
//! tokens are the trusted boundary of this crate.

use pulldown_cmark::CodeBlockKind;
use pulldown_cmark::Event;
use pulldown_cmark::LinkType;
use pulldown_cmark::Options;
use pulldown_cmark::Tag;
use pulldown_cmark::TagEnd;
use vstd::prelude::*;

verus! {

#[verifier::external_type_specification]
#[verifier::external_body]
pub struct ExEvent<'a>(Event<'a>);

/// What the pipeline reads of one markup token.
pub enum EventKind {
    /// A fenced code block opens; `info` is its info string.
    CodeBlockStart { info: String },
    /// A code block closes.
    CodeBlockEnd,
    /// A text run.
    Text { text: String },
    /// An inline image reference opens (only ever constructed by this crate).
    ImageStart { dest: String, title: String },
    /// An image reference closes (only ever constructed by this crate).
    ImageEnd,
    /// Any other token; the scan passes it through untouched.
    Passthrough,
}

/// One markup token: the raw event exactly as the collaborator produced it,
/// and the classification the pipeline reads.
pub struct MdEvent {
    pub raw: Event<'static>,
    pub kind: EventKind,
}

/// The token stream that the tokenizer collaborator produces for a text. Its
/// value is pinned only through [`parse_events`].
pub uninterp spec fn md_events_of(content: Seq<char>) -> Seq<MdEvent>;

/// The text that the serializer collaborator produces for a token stream, or
/// `None` where serialization fails. Its value is pinned only through
/// [`serialize_events`].
pub uninterp spec fn cmark_of(events: Seq<MdEvent>) -> Option<Seq<char>>;

/// The tokens spliced in for one rendered block: an inline image reference to
/// `dest` titled `title`, its closing token, and a blank line.
pub uninterp spec fn image_events_of(dest: Seq<char>, title: Seq<char>) -> Seq<MdEvent>;

/// Relies on `pulldown_cmark::Parser::new`: the markdown token stream of
/// `content` under default options, a deterministic function of the text.
/// Code-block delimiters and text runs are classified for the scan; every
/// token keeps the raw event for verbatim re-emission.
#[verifier::external_body]
pub(crate) fn parse_events(content: &str) -> (r: Vec<MdEvent>)
    ensures
        r@ == md_events_of(content@),
{
    pulldown_cmark::Parser::new(content).map(|e| {
        let kind = match &e {
            Event::Start(Tag::CodeBlock(CodeBlockKind::Fenced(info))) =>
                EventKind::CodeBlockStart { info: info.to_string() },
            Event::End(TagEnd::CodeBlock) => EventKind::CodeBlockEnd,
            Event::Text(t) => EventKind::Text { text: t.to_string() },
            _ => EventKind::Passthrough,
        };
        MdEvent { raw: e.into_static(), kind }
    }).collect()
}

/// Relies on `pulldown_cmark_to_cmark::cmark`: deterministic re-serialization
/// of a token stream into markdown text, `None` where the serializer reports
/// an error.
#[verifier::external_body]
pub(crate) fn serialize_events(events: &Vec<MdEvent>) -> (r: Option<String>)
    ensures
        cmark_of(events@) == (match r {
            Some(s) => Some(s@),
            None => None,
        }),
{
    let mut buf = String::new();
    match pulldown_cmark_to_cmark::cmark(events.iter().map(|e| &e.raw), &mut buf, Options::empty())
    {
        Ok(_) => Some(buf),
        Err(_) => None,
    }
}

/// Relies on `pulldown_cmark::Tag::Image`: builds the tokens spliced in for
/// one rendered block, an inline image start for `dest` titled `title`, its
/// end, and two line breaks forming a paragraph-separating blank line.
#[verifier::external_body]
pub(crate) fn image_events(dest: &String, title: &String) -> (r: Vec<MdEvent>)
    ensures
        r@ == image_events_of(dest@, title@),
        r@.len() == 4,
{
    let tag = Tag::Image {
        link_type: LinkType::Inline,
        dest_url: dest.clone().into(),
        title: title.clone().into(),
        id: "".into(),
    };
    vec![
        MdEvent {
            raw: Event::Start(tag),
            kind: EventKind::ImageStart { dest: dest.clone(), title: title.clone() },
        },
        MdEvent { raw: Event::End(TagEnd::Image), kind: EventKind::ImageEnd },
        MdEvent { raw: Event::SoftBreak, kind: EventKind::Passthrough },
        MdEvent { raw: Event::SoftBreak, kind: EventKind::Passthrough },
    ]
}

} // verus!

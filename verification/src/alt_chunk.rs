//! `<w:altChunk>`: an alternative format import that embeds an external
//! part (HTML, XHTML, MHTML, ...) into the document body at its position.

use vstd::prelude::*;

use crate::reader::{end_named, is_named, last_attribute_value, last_value, ReaderError};
use crate::xml_parser::{attributes_view, opt_text, EventModel, OwnedAttribute, XmlEvent};

verus! {

/// The element itself only carries the relationship id (`r:id`); the raw
/// bytes of the part it refers to and its MIME type, inferred from the
/// part's extension, are attached once the package resolves them.
#[derive(Debug, Clone, PartialEq)]
pub struct AltChunk {
    /// Relationship id (`r:id`) of the embedded part.
    pub id: String,
    /// MIME type inferred from the part's extension, once resolved.
    pub content_type: Option<String>,
    /// Raw bytes of the embedded part, once resolved.
    pub data: Option<Vec<u8>>,
}

pub struct AltChunkModel {
    pub id: Seq<char>,
    pub content_type: Option<Seq<char>>,
    pub data: Option<Seq<u8>>,
}

impl View for AltChunk {
    type V = AltChunkModel;

    open spec fn view(&self) -> AltChunkModel {
        AltChunkModel {
            id: self.id@,
            content_type: opt_text(self.content_type),
            data: match self.data {
                Some(d) => Some(d@),
                None => None,
            },
        }
    }
}

/// What the reader does with one event while it skips the content of an
/// `altChunk` element.
#[derive(Debug, PartialEq, Eq)]
pub enum DrainStep {
    /// The element, or the document, has ended.
    Done,
    /// The event stream broke off.
    Fail,
    /// The event belongs to the content; read on.
    Continue,
}

/// The event ends the `altChunk` element or the document.
pub open spec fn ends_alt_chunk(e: EventModel) -> bool {
    ||| e matches EventModel::End { name } && name.local_name == "altChunk"@
    ||| e is EndDocument
}

impl AltChunk {
    /// A chunk referring to the part with the given relationship id, not
    /// resolved yet.
    pub fn new(id: &str) -> (r: AltChunk)
        ensures
            r@ == (AltChunkModel { id: id@, content_type: None, data: None }),
    {
        AltChunk { id: String::from_str(id), content_type: None, data: None }
    }

    /// Sets the MIME type, leaving the rest as it was.
    pub fn content_type(self, content_type: &str) -> (r: Self)
        ensures
            r@ == (AltChunkModel { content_type: Some(content_type@), ..self@ }),
    {
        let mut s = self;
        s.content_type = Some(String::from_str(content_type));
        s
    }

    /// Attaches the part's bytes, leaving the rest as it was.
    pub fn data(self, data: Vec<u8>) -> (r: Self)
        ensures
            r@ == (AltChunkModel { data: Some(data@), ..self@ }),
    {
        let mut s = self;
        s.data = Some(data);
        s
    }

    /// The chunk that the attributes of an `altChunk` start tag describe:
    /// the relationship id is the value of the last attribute whose local
    /// name is `id` (`r:id`); without one the element cannot be read.
    pub fn from_attributes(attributes: &[OwnedAttribute]) -> (r: Result<AltChunk, ReaderError>)
        ensures
            match last_value(attributes_view(attributes@), "id"@) {
                Some(id) => r matches Ok(c) && c@ == (AltChunkModel { id, content_type: None, data: None }),
                None => r == Err::<AltChunk, ReaderError>(ReaderError::XMLReadError),
            },
    {
        match last_attribute_value(attributes, "id") {
            Some(id) => Ok(AltChunk { id, content_type: None, data: None }),
            None => Err(ReaderError::XMLReadError),
        }
    }

    /// The content of the element (such as `w:altChunkPr`) is skipped up to
    /// the matching end tag, so that it is not read again as body content:
    /// that end tag or the end of the document finishes the element, a
    /// broken stream fails it, anything else is skipped.
    pub fn drain_step<E>(event: &Result<XmlEvent, E>) -> (r: DrainStep)
        ensures
            match event {
                Ok(e) => if ends_alt_chunk(e@) {
                    r == DrainStep::Done
                } else {
                    r == DrainStep::Continue
                },
                Err(_) => r == DrainStep::Fail,
            },
    {
        match event {
            Ok(XmlEvent::EndElement { name }) => {
                if is_named(&name.local_name, "altChunk") {
                    DrainStep::Done
                } else {
                    DrainStep::Continue
                }
            },
            Ok(XmlEvent::EndDocument) => DrainStep::Done,
            Err(_) => DrainStep::Fail,
            _ => DrainStep::Continue,
        }
    }
}

// ---------------------------------------------------------------------------
// Laws
// ---------------------------------------------------------------------------

/// Skipping the content of an `altChunk` stops exactly at `</w:altChunk>`
/// or at the end of the document: no start tag, character data or end tag
/// of another name, such as `</w:altChunkPr>`, ends it.
pub proof fn law_alt_chunk_ends(e: EventModel)
    ensures
        ends_alt_chunk(e) <==> (end_named(Some(e), "altChunk"@) || e is EndDocument),
        e is Start || e is Characters || e is Whitespace ==> !ends_alt_chunk(e),
{
    if let EventModel::End { name } = e {
        lemma_alt_chunk_names(name.local_name);
    }
}

/// Tells the element names apart: a name equal to one of them has its letters.
proof fn lemma_alt_chunk_names(n: Seq<char>)
    ensures
        n == "altChunk"@ ==> n.len() == 8 && n[0] == 'a' && n[1] == 'l',
{
    reveal_strlit("altChunk");
}

} // verus!

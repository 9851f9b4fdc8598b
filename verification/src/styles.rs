//! The decisions of the reader of a styles part (`<w:styles>`).

use vstd::prelude::*;

use crate::reader::{end_named, event_of, is_named, start_named};
use crate::xml_parser::{EventModel, XmlEvent};

verus! {

/// What the styles reader does with one event.
#[derive(Debug, PartialEq, Eq)]
pub enum StylesStep {
    /// A `w:style` starts: read it, and keep it where it reads.
    ReadStyle,
    /// A `w:docDefaults` starts: read it, and keep it where it reads.
    ReadDocDefaults,
    /// `</w:styles>`: the part is read.
    Done,
    /// The stream broke: the part cannot be read.
    Fail,
    /// Anything else, the end of the document included, is passed over.
    Continue,
}

pub open spec fn styles_step_model(ev: Option<EventModel>) -> StylesStep {
    match ev {
        None => StylesStep::Fail,
        Some(EventModel::Start { name, .. }) => if name.local_name == "style"@ {
            StylesStep::ReadStyle
        } else if name.local_name == "docDefaults"@ {
            StylesStep::ReadDocDefaults
        } else {
            StylesStep::Continue
        },
        Some(EventModel::End { name }) => if name.local_name == "styles"@ {
            StylesStep::Done
        } else {
            StylesStep::Continue
        },
        _ => StylesStep::Continue,
    }
}

/// Decides what the styles reader does with the event it read.
pub fn styles_step<E>(e: &Result<XmlEvent, E>) -> (r: StylesStep)
    ensures
        r == styles_step_model(event_of(*e)),
{
    match e {
        Ok(XmlEvent::StartElement { name, .. }) => {
            if is_named(&name.local_name, "style") {
                StylesStep::ReadStyle
            } else if is_named(&name.local_name, "docDefaults") {
                StylesStep::ReadDocDefaults
            } else {
                StylesStep::Continue
            }
        },
        Ok(XmlEvent::EndElement { name }) => {
            if is_named(&name.local_name, "styles") {
                StylesStep::Done
            } else {
                StylesStep::Continue
            }
        },
        Err(_) => StylesStep::Fail,
        _ => StylesStep::Continue,
    }
}

/// What a styles part has given so far: its styles in the order they were
/// read, and its document defaults, of which the last read wins.
pub struct StylesRead<S, D> {
    styles: Vec<S>,
    doc_defaults: Option<D>,
}

impl<S, D> View for StylesRead<S, D> {
    type V = (Seq<S>, Option<D>);

    closed spec fn view(&self) -> (Seq<S>, Option<D>) {
        (self.styles@, self.doc_defaults)
    }
}

impl<S, D> StylesRead<S, D> {
    /// Nothing read yet.
    pub fn new() -> (r: Self)
        ensures
            r@ == (Seq::<S>::empty(), None::<D>),
    {
        StylesRead { styles: Vec::new(), doc_defaults: None }
    }

    /// A style that was read comes after those read before it.
    pub fn add_style(&mut self, style: S)
        ensures
            final(self)@ == (old(self)@.0.push(style), old(self)@.1),
    {
        self.styles.push(style);
    }

    /// Document defaults that were read replace those read before.
    pub fn set_doc_defaults(&mut self, doc_defaults: D)
        ensures
            final(self)@ == (old(self)@.0, Some(doc_defaults)),
    {
        self.doc_defaults = Some(doc_defaults);
    }

    /// The styles in order, and the document defaults.
    pub fn into_parts(self) -> (r: (Vec<S>, Option<D>))
        ensures
            (r.0@, r.1) == self@,
    {
        (self.styles, self.doc_defaults)
    }
}

// ---------------------------------------------------------------------------
// Laws
// ---------------------------------------------------------------------------

/// The styles part ends exactly at `</w:styles>`: any other end tag, such
/// as that of `w:latentStyles`, is passed over. Each `w:style` is read, and
/// so is `w:docDefaults`; every other start tag, character data and the end
/// of the document are passed over, and a broken stream fails the part.
pub proof fn law_styles_steps(ev: Option<EventModel>)
    ensures
        (styles_step_model(ev) == StylesStep::Done) <==> end_named(ev, "styles"@),
        (styles_step_model(ev) == StylesStep::ReadStyle) <==> start_named(ev, "style"@),
        (styles_step_model(ev) == StylesStep::ReadDocDefaults) <==> start_named(ev, "docDefaults"@),
        (styles_step_model(ev) == StylesStep::Fail) <==> ev is None,
        ev is Some && !end_named(ev, "styles"@) && !start_named(ev, "style"@) && !start_named(ev, "docDefaults"@)
            ==> styles_step_model(ev) == StylesStep::Continue,
{
    match ev {
        Some(EventModel::Start { name, .. }) => lemma_styles_names(name.local_name),
        Some(EventModel::End { name }) => lemma_styles_names(name.local_name),
        _ => {},
    }
}

/// Tells the element names apart: a name equal to one of them has its letters.
proof fn lemma_styles_names(n: Seq<char>)
    ensures
        n == "style"@ ==> n.len() == 5 && n[0] == 's' && n[1] == 't',
        n == "docDefaults"@ ==> n.len() == 11 && n[0] == 'd' && n[1] == 'o',
        n == "styles"@ ==> n.len() == 6 && n[0] == 's' && n[1] == 't',
{
    reveal_strlit("style");
    reveal_strlit("docDefaults");
    reveal_strlit("styles");
}

} // verus!

//! The decisions of the reader of run properties (`<w:rPr>`).

use vstd::prelude::*;

use crate::reader::{
    event_of, first_attribute_value, first_value, first_value_of, is_named, leading_value, on_off,
    parse_u32, parse_usize, read_bool, read_val, u32_value, usize_value,
};
use crate::run_fonts::{read_run_fonts, run_fonts_of, RunFonts, RunFontsModel};
use crate::xml_parser::{attributes_view, opt_text, AttributeModel, EventModel, NameModel, XmlEvent};

verus! {

/// What the reader of run properties has read so far. An on/off property is
/// `Some(true)` where set, `Some(false)` where explicitly turned off.
#[derive(Debug, Clone, PartialEq)]
pub struct RunPropertyState {
    /// Inside a `<w:t>` wrongly nested in the properties.
    pub capturing_text: bool,
    /// The runs of text met inside such `<w:t>`, in order and as read.
    pub recovered: Vec<String>,
    pub style: Option<String>,
    pub bold: Option<bool>,
    pub italic: Option<bool>,
    pub caps: Option<bool>,
    pub strike: Option<bool>,
    pub dstrike: Option<bool>,
    pub highlight: Option<String>,
    pub color: Option<String>,
    pub underline: Option<String>,
    pub vanish: bool,
    pub spec_vanish: bool,
    /// A `w:fitText` width and its optional id.
    pub fit_text: Option<(usize, Option<u32>)>,
    pub fonts: Option<RunFonts>,
}

pub struct RunPropertyModel {
    pub capturing_text: bool,
    pub recovered: Seq<Seq<char>>,
    pub style: Option<Seq<char>>,
    pub bold: Option<bool>,
    pub italic: Option<bool>,
    pub caps: Option<bool>,
    pub strike: Option<bool>,
    pub dstrike: Option<bool>,
    pub highlight: Option<Seq<char>>,
    pub color: Option<Seq<char>>,
    pub underline: Option<Seq<char>>,
    pub vanish: bool,
    pub spec_vanish: bool,
    pub fit_text: Option<(usize, Option<u32>)>,
    pub fonts: Option<RunFontsModel>,
}

pub open spec fn texts_view(v: Seq<String>) -> Seq<Seq<char>> {
    v.map_values(|t: String| t@)
}

impl View for RunPropertyState {
    type V = RunPropertyModel;

    open spec fn view(&self) -> RunPropertyModel {
        RunPropertyModel {
            capturing_text: self.capturing_text,
            recovered: texts_view(self.recovered@),
            style: opt_text(self.style),
            bold: self.bold,
            italic: self.italic,
            caps: self.caps,
            strike: self.strike,
            dstrike: self.dstrike,
            highlight: opt_text(self.highlight),
            color: opt_text(self.color),
            underline: opt_text(self.underline),
            vanish: self.vanish,
            spec_vanish: self.spec_vanish,
            fit_text: self.fit_text,
            fonts: match self.fonts {
                Some(f) => Some(f@),
                None => None,
            },
        }
    }
}

/// What the reader of run properties does after one event.
#[derive(Debug, PartialEq, Eq)]
pub enum RunPropertyAction {
    /// Read on.
    Continue,
    /// A `w:rPrChange` starts: skip it up to its end.
    SkipElement,
    /// A `w:ptab` starts: read the positional tab, keep it where it reads.
    ReadPositionalTab,
    /// A `w:shd` starts: read the shading, keep it where it reads.
    ReadShading,
    /// A `w:bdr` starts: read the text border from its attributes, keep it where it reads.
    ReadBorder,
    /// A `w:ins` starts: read the insertion, keep it where it reads.
    ReadInsert,
    /// A `w:del` starts: read the deletion, keep it where it reads.
    ReadDelete,
    /// A `w:vertAlign` names this alignment; keep it where it is one.
    SetVertAlign(String),
    /// A `w:sz` holds this size in half-points, as a float; one that does
    /// not parse fails the properties.
    SetSize(String),
    /// A `w:spacing` holds this spacing, as a float; keep it where it parses.
    SetSpacing(String),
    /// `</w:rPr>`: the properties are read.
    Done,
    /// The stream broke: the properties cannot be read.
    Fail,
}

pub enum RunPropertyActionModel {
    Continue,
    SkipElement,
    ReadPositionalTab,
    ReadShading,
    ReadBorder,
    ReadInsert,
    ReadDelete,
    SetVertAlign(Seq<char>),
    SetSize(Seq<char>),
    SetSpacing(Seq<char>),
    Done,
    Fail,
}

impl View for RunPropertyAction {
    type V = RunPropertyActionModel;

    open spec fn view(&self) -> RunPropertyActionModel {
        match self {
            RunPropertyAction::Continue => RunPropertyActionModel::Continue,
            RunPropertyAction::SkipElement => RunPropertyActionModel::SkipElement,
            RunPropertyAction::ReadPositionalTab => RunPropertyActionModel::ReadPositionalTab,
            RunPropertyAction::ReadShading => RunPropertyActionModel::ReadShading,
            RunPropertyAction::ReadBorder => RunPropertyActionModel::ReadBorder,
            RunPropertyAction::ReadInsert => RunPropertyActionModel::ReadInsert,
            RunPropertyAction::ReadDelete => RunPropertyActionModel::ReadDelete,
            RunPropertyAction::SetVertAlign(v) => RunPropertyActionModel::SetVertAlign(v@),
            RunPropertyAction::SetSize(v) => RunPropertyActionModel::SetSize(v@),
            RunPropertyAction::SetSpacing(v) => RunPropertyActionModel::SetSpacing(v@),
            RunPropertyAction::Done => RunPropertyActionModel::Done,
            RunPropertyAction::Fail => RunPropertyActionModel::Fail,
        }
    }
}

/// Nothing read yet.
pub open spec fn run_property_initial_model() -> RunPropertyModel {
    RunPropertyModel {
        capturing_text: false,
        recovered: Seq::empty(),
        style: None,
        bold: None,
        italic: None,
        caps: None,
        strike: None,
        dstrike: None,
        highlight: None,
        color: None,
        underline: None,
        vanish: false,
        spec_vanish: false,
        fit_text: None,
        fonts: None,
    }
}

/// A `w:fitText`: its width from `w:val`, kept only where it is a number,
/// with the number its `w:id` holds, if any.
pub open spec fn fit_text_of(attributes: Seq<crate::xml_parser::AttributeModel>) -> Option<(usize, Option<u32>)> {
    match first_value(attributes, "val"@) {
        Some(v) => match usize_value(v) {
            Some(w) => Some(
                (
                    w,
                    match first_value(attributes, "id"@) {
                        Some(i) => u32_value(i),
                        None => None,
                    },
                ),
            ),
            None => None,
        },
        None => None,
    }
}

/// One event read inside run properties.
///
/// The on/off properties (`b`, `i`, `caps`, `strike`, `dstrike`) are
/// turned off by a `w:val` of `0` or `false` and on otherwise. `w:rStyle`
/// sets the style from its `w:val`, where it has one; `w:highlight`,
/// `w:color` and `w:u` take the value of their first attribute, and change
/// nothing without one. Character data is kept only between a `<w:t>` and
/// its end tag, so that the white space between property elements is not.
pub open spec fn run_property_step_model(s: RunPropertyModel, ev: Option<EventModel>) -> (
    RunPropertyModel,
    RunPropertyActionModel,
) {
    match ev {
        None => (s, RunPropertyActionModel::Fail),
        Some(EventModel::Start { name, attributes, .. }) => {
            let n = name.local_name;
            if n == "rPrChange"@ {
                (s, RunPropertyActionModel::SkipElement)
            } else if n == "rStyle"@ {
                match first_value(attributes, "val"@) {
                    Some(v) => (RunPropertyModel { style: Some(v), ..s }, RunPropertyActionModel::Continue),
                    None => (s, RunPropertyActionModel::Continue),
                }
            } else if n == "b"@ {
                (RunPropertyModel { bold: Some(on_off(attributes)), ..s }, RunPropertyActionModel::Continue)
            } else if n == "caps"@ {
                (RunPropertyModel { caps: Some(on_off(attributes)), ..s }, RunPropertyActionModel::Continue)
            } else if n == "ptab"@ {
                (s, RunPropertyActionModel::ReadPositionalTab)
            } else if n == "highlight"@ {
                match leading_value(attributes) {
                    Some(v) => (RunPropertyModel { highlight: Some(v), ..s }, RunPropertyActionModel::Continue),
                    None => (s, RunPropertyActionModel::Continue),
                }
            } else if n == "strike"@ {
                (RunPropertyModel { strike: Some(on_off(attributes)), ..s }, RunPropertyActionModel::Continue)
            } else if n == "dstrike"@ {
                (RunPropertyModel { dstrike: Some(on_off(attributes)), ..s }, RunPropertyActionModel::Continue)
            } else if n == "vertAlign"@ {
                match leading_value(attributes) {
                    Some(v) => (s, RunPropertyActionModel::SetVertAlign(v)),
                    None => (s, RunPropertyActionModel::Continue),
                }
            } else if n == "color"@ {
                match leading_value(attributes) {
                    Some(v) => (RunPropertyModel { color: Some(v), ..s }, RunPropertyActionModel::Continue),
                    None => (s, RunPropertyActionModel::Continue),
                }
            } else if n == "sz"@ {
                match leading_value(attributes) {
                    Some(v) => (s, RunPropertyActionModel::SetSize(v)),
                    None => (s, RunPropertyActionModel::Continue),
                }
            } else if n == "spacing"@ {
                match first_value(attributes, "val"@) {
                    Some(v) => (s, RunPropertyActionModel::SetSpacing(v)),
                    None => (s, RunPropertyActionModel::Continue),
                }
            } else if n == "fitText"@ {
                match fit_text_of(attributes) {
                    Some(f) => (RunPropertyModel { fit_text: Some(f), ..s }, RunPropertyActionModel::Continue),
                    None => (s, RunPropertyActionModel::Continue),
                }
            } else if n == "rFonts"@ {
                (RunPropertyModel { fonts: Some(run_fonts_of(attributes)), ..s }, RunPropertyActionModel::Continue)
            } else if n == "u"@ {
                match leading_value(attributes) {
                    Some(v) => (RunPropertyModel { underline: Some(v), ..s }, RunPropertyActionModel::Continue),
                    None => (s, RunPropertyActionModel::Continue),
                }
            } else if n == "i"@ {
                (RunPropertyModel { italic: Some(on_off(attributes)), ..s }, RunPropertyActionModel::Continue)
            } else if n == "shd"@ {
                (s, RunPropertyActionModel::ReadShading)
            } else if n == "vanish"@ {
                (RunPropertyModel { vanish: true, ..s }, RunPropertyActionModel::Continue)
            } else if n == "specVanish"@ {
                (RunPropertyModel { spec_vanish: true, ..s }, RunPropertyActionModel::Continue)
            } else if n == "bdr"@ {
                (s, RunPropertyActionModel::ReadBorder)
            } else if n == "ins"@ {
                (s, RunPropertyActionModel::ReadInsert)
            } else if n == "del"@ {
                (s, RunPropertyActionModel::ReadDelete)
            } else if n == "t"@ {
                (RunPropertyModel { capturing_text: true, ..s }, RunPropertyActionModel::Continue)
            } else {
                (s, RunPropertyActionModel::Continue)
            }
        },
        Some(EventModel::End { name }) => if name.local_name == "t"@ {
            (RunPropertyModel { capturing_text: false, ..s }, RunPropertyActionModel::Continue)
        } else if name.local_name == "rPr"@ {
            (s, RunPropertyActionModel::Done)
        } else {
            (s, RunPropertyActionModel::Continue)
        },
        Some(EventModel::Characters(t)) => if s.capturing_text {
            (RunPropertyModel { recovered: s.recovered.push(t), ..s }, RunPropertyActionModel::Continue)
        } else {
            (s, RunPropertyActionModel::Continue)
        },
        Some(EventModel::Whitespace(t)) => if s.capturing_text {
            (RunPropertyModel { recovered: s.recovered.push(t), ..s }, RunPropertyActionModel::Continue)
        } else {
            (s, RunPropertyActionModel::Continue)
        },
        _ => (s, RunPropertyActionModel::Continue),
    }
}

impl RunPropertyState {
    /// Nothing read yet.
    pub fn new() -> (r: RunPropertyState)
        ensures
            r@ == run_property_initial_model(),
    {
        let r = RunPropertyState {
            capturing_text: false,
            recovered: Vec::new(),
            style: None,
            bold: None,
            italic: None,
            caps: None,
            strike: None,
            dstrike: None,
            highlight: None,
            color: None,
            underline: None,
            vanish: false,
            spec_vanish: false,
            fit_text: None,
            fonts: None,
        };
        assert(r@.recovered =~= Seq::<Seq<char>>::empty());
        r
    }
}

fn read_fit_text(attributes: &[crate::xml_parser::OwnedAttribute]) -> (r: Option<(usize, Option<u32>)>)
    ensures
        r == fit_text_of(attributes_view(attributes@)),
{
    match read_val(attributes) {
        Some(v) => match parse_usize(&v) {
            Some(w) => {
                let id = match first_attribute_value(attributes, "id") {
                    Some(i) => parse_u32(&i),
                    None => None,
                };
                Some((w, id))
            },
            None => None,
        },
        None => None,
    }
}

proof fn lemma_texts_view_push(v: Seq<String>, t: String)
    ensures
        texts_view(v.push(t)) == texts_view(v).push(t@),
{
    assert(texts_view(v.push(t)) =~= texts_view(v).push(t@));
}

/// Decides what the reader of run properties does with the event it read,
/// and what it keeps of it.
pub fn run_property_step<E>(s: RunPropertyState, e: &Result<XmlEvent, E>) -> (r: (RunPropertyState, RunPropertyAction))
    ensures
        (r.0@, r.1@) == run_property_step_model(s@, event_of(*e)),
{
    let mut s = s;
    match e {
        Ok(XmlEvent::StartElement { name, attributes, .. }) => {
            let n = &name.local_name;
            let a = attributes.as_slice();
            if is_named(n, "rPrChange") {
                (s, RunPropertyAction::SkipElement)
            } else if is_named(n, "rStyle") {
                if let Some(v) = read_val(a) {
                    s.style = Some(v);
                }
                (s, RunPropertyAction::Continue)
            } else if is_named(n, "b") {
                s.bold = Some(read_bool(a));
                (s, RunPropertyAction::Continue)
            } else if is_named(n, "caps") {
                s.caps = Some(read_bool(a));
                (s, RunPropertyAction::Continue)
            } else if is_named(n, "ptab") {
                (s, RunPropertyAction::ReadPositionalTab)
            } else if is_named(n, "highlight") {
                if let Some(v) = first_value_of(a) {
                    s.highlight = Some(v);
                }
                (s, RunPropertyAction::Continue)
            } else if is_named(n, "strike") {
                s.strike = Some(read_bool(a));
                (s, RunPropertyAction::Continue)
            } else if is_named(n, "dstrike") {
                s.dstrike = Some(read_bool(a));
                (s, RunPropertyAction::Continue)
            } else if is_named(n, "vertAlign") {
                match first_value_of(a) {
                    Some(v) => (s, RunPropertyAction::SetVertAlign(v)),
                    None => (s, RunPropertyAction::Continue),
                }
            } else if is_named(n, "color") {
                if let Some(v) = first_value_of(a) {
                    s.color = Some(v);
                }
                (s, RunPropertyAction::Continue)
            } else if is_named(n, "sz") {
                match first_value_of(a) {
                    Some(v) => (s, RunPropertyAction::SetSize(v)),
                    None => (s, RunPropertyAction::Continue),
                }
            } else if is_named(n, "spacing") {
                match read_val(a) {
                    Some(v) => (s, RunPropertyAction::SetSpacing(v)),
                    None => (s, RunPropertyAction::Continue),
                }
            } else if is_named(n, "fitText") {
                if let Some(f) = read_fit_text(a) {
                    s.fit_text = Some(f);
                }
                (s, RunPropertyAction::Continue)
            } else if is_named(n, "rFonts") {
                match read_run_fonts(a) {
                    Ok(f) => {
                        s.fonts = Some(f);
                    },
                    Err(_) => {},
                }
                (s, RunPropertyAction::Continue)
            } else if is_named(n, "u") {
                if let Some(v) = first_value_of(a) {
                    s.underline = Some(v);
                }
                (s, RunPropertyAction::Continue)
            } else if is_named(n, "i") {
                s.italic = Some(read_bool(a));
                (s, RunPropertyAction::Continue)
            } else if is_named(n, "shd") {
                (s, RunPropertyAction::ReadShading)
            } else if is_named(n, "vanish") {
                s.vanish = true;
                (s, RunPropertyAction::Continue)
            } else if is_named(n, "specVanish") {
                s.spec_vanish = true;
                (s, RunPropertyAction::Continue)
            } else if is_named(n, "bdr") {
                (s, RunPropertyAction::ReadBorder)
            } else if is_named(n, "ins") {
                (s, RunPropertyAction::ReadInsert)
            } else if is_named(n, "del") {
                (s, RunPropertyAction::ReadDelete)
            } else if is_named(n, "t") {
                s.capturing_text = true;
                (s, RunPropertyAction::Continue)
            } else {
                (s, RunPropertyAction::Continue)
            }
        },
        Ok(XmlEvent::EndElement { name }) => {
            if is_named(&name.local_name, "t") {
                s.capturing_text = false;
                (s, RunPropertyAction::Continue)
            } else if is_named(&name.local_name, "rPr") {
                (s, RunPropertyAction::Done)
            } else {
                (s, RunPropertyAction::Continue)
            }
        },
        Ok(XmlEvent::Characters(t)) => {
            if s.capturing_text {
                let piece = t.clone();
                proof {
                    lemma_texts_view_push(s.recovered@, piece);
                }
                s.recovered.push(piece);
            }
            (s, RunPropertyAction::Continue)
        },
        Ok(XmlEvent::Whitespace(t)) => {
            if s.capturing_text {
                let piece = t.clone();
                proof {
                    lemma_texts_view_push(s.recovered@, piece);
                }
                s.recovered.push(piece);
            }
            (s, RunPropertyAction::Continue)
        },
        Err(_) => (s, RunPropertyAction::Fail),
        _ => (s, RunPropertyAction::Continue),
    }
}

// ---------------------------------------------------------------------------
// Laws
// ---------------------------------------------------------------------------

/// An on/off element (`w:b`, `w:i`, `w:caps`, `w:strike`, `w:dstrike`) sets
/// its own property and nothing else, and reading goes on: the property is
/// off exactly where the element's first `w:val` is `0` or `false`, and on
/// otherwise, also where it has no `w:val`.
pub proof fn law_on_off_elements(
    s: RunPropertyModel,
    name: NameModel,
    attributes: Seq<AttributeModel>,
    namespace: Seq<(Seq<char>, Seq<char>)>,
)
    ensures
        ({
            let r = run_property_step_model(s, Some(EventModel::Start { name, attributes, namespace }));
            let val = first_value(attributes, "val"@);
            let on = !(val == Some("0"@) || val == Some("false"@));
            &&& name.local_name == "b"@ ==> r == (RunPropertyModel { bold: Some(on), ..s }, RunPropertyActionModel::Continue)
            &&& name.local_name == "i"@ ==> r == (RunPropertyModel { italic: Some(on), ..s }, RunPropertyActionModel::Continue)
            &&& name.local_name == "caps"@ ==> r == (RunPropertyModel { caps: Some(on), ..s }, RunPropertyActionModel::Continue)
            &&& name.local_name == "strike"@ ==> r == (RunPropertyModel { strike: Some(on), ..s }, RunPropertyActionModel::Continue)
            &&& name.local_name == "dstrike"@ ==> r == (RunPropertyModel { dstrike: Some(on), ..s }, RunPropertyActionModel::Continue)
        }),
{
    lemma_rpr_names(name.local_name);
}

/// The elements that carry a value set it, and nothing else, and reading
/// goes on: `w:rStyle` the style from its first `w:val`; `w:highlight`,
/// `w:color` and `w:u` the highlight, color and underline from the value of
/// their first attribute, whatever its name. Without such a value they
/// change nothing.
pub proof fn law_value_elements(
    s: RunPropertyModel,
    name: NameModel,
    attributes: Seq<AttributeModel>,
    namespace: Seq<(Seq<char>, Seq<char>)>,
)
    ensures
        ({
            let r = run_property_step_model(s, Some(EventModel::Start { name, attributes, namespace }));
            let val = first_value(attributes, "val"@);
            let first: Option<Seq<char>> = if attributes.len() > 0 { Some(attributes[0].value) } else { None };
            &&& r.1 == RunPropertyActionModel::Continue || !(name.local_name == "rStyle"@ || name.local_name
                == "highlight"@ || name.local_name == "color"@ || name.local_name == "u"@)
            &&& name.local_name == "rStyle"@ ==> r.0 == (RunPropertyModel {
                style: if val is Some { val } else { s.style },
                ..s
            })
            &&& name.local_name == "highlight"@ ==> r.0 == (RunPropertyModel {
                highlight: if first is Some { first } else { s.highlight },
                ..s
            })
            &&& name.local_name == "color"@ ==> r.0 == (RunPropertyModel {
                color: if first is Some { first } else { s.color },
                ..s
            })
            &&& name.local_name == "u"@ ==> r.0 == (RunPropertyModel {
                underline: if first is Some { first } else { s.underline },
                ..s
            })
        }),
{
    lemma_rpr_names(name.local_name);
}

/// The elements whose value is read elsewhere hand it on and keep the
/// state: `w:vertAlign` and `w:sz` the value of their first attribute,
/// `w:spacing` its first `w:val`; without one, reading just goes on.
/// `w:fitText` keeps its width where its first `w:val` is a number, with the
/// number of its first `w:id`, if that is one; `w:rFonts` sets the fonts
/// from its attributes; `w:vanish` and `w:specVanish` set their flags.
pub proof fn law_handed_on_elements(
    s: RunPropertyModel,
    name: NameModel,
    attributes: Seq<AttributeModel>,
    namespace: Seq<(Seq<char>, Seq<char>)>,
)
    ensures
        ({
            let r = run_property_step_model(s, Some(EventModel::Start { name, attributes, namespace }));
            let val = first_value(attributes, "val"@);
            let first: Option<Seq<char>> = if attributes.len() > 0 { Some(attributes[0].value) } else { None };
            &&& name.local_name == "vertAlign"@ ==> r == (s, match first {
                Some(v) => RunPropertyActionModel::SetVertAlign(v),
                None => RunPropertyActionModel::Continue,
            })
            &&& name.local_name == "sz"@ ==> r == (s, match first {
                Some(v) => RunPropertyActionModel::SetSize(v),
                None => RunPropertyActionModel::Continue,
            })
            &&& name.local_name == "spacing"@ ==> r == (s, match val {
                Some(v) => RunPropertyActionModel::SetSpacing(v),
                None => RunPropertyActionModel::Continue,
            })
            &&& name.local_name == "fitText"@ ==> r.1 == RunPropertyActionModel::Continue && r.0 == (
            RunPropertyModel {
                fit_text: match val {
                    Some(v) => match usize_value(v) {
                        Some(w) => Some(
                            (
                                w,
                                match first_value(attributes, "id"@) {
                                    Some(i) => u32_value(i),
                                    None => None,
                                },
                            ),
                        ),
                        None => s.fit_text,
                    },
                    None => s.fit_text,
                },
                ..s
            })
            &&& name.local_name == "rFonts"@ ==> r == (
                RunPropertyModel { fonts: Some(run_fonts_of(attributes)), ..s },
                RunPropertyActionModel::Continue,
            )
            &&& name.local_name == "vanish"@ ==> r == (RunPropertyModel { vanish: true, ..s }, RunPropertyActionModel::Continue)
            &&& name.local_name == "specVanish"@ ==> r == (
                RunPropertyModel { spec_vanish: true, ..s },
                RunPropertyActionModel::Continue,
            )
        }),
{
    lemma_rpr_names(name.local_name);
}

/// The nested elements are handed to their own readers and change nothing
/// here: `w:rPrChange` is skipped, `w:ptab`, `w:shd`, `w:bdr`, `w:ins` and
/// `w:del` are read. Any element not named here changes nothing and reading
/// goes on.
pub proof fn law_nested_elements(
    s: RunPropertyModel,
    name: NameModel,
    attributes: Seq<AttributeModel>,
    namespace: Seq<(Seq<char>, Seq<char>)>,
)
    ensures
        ({
            let r = run_property_step_model(s, Some(EventModel::Start { name, attributes, namespace }));
            let n = name.local_name;
            &&& n == "rPrChange"@ ==> r == (s, RunPropertyActionModel::SkipElement)
            &&& n == "ptab"@ ==> r == (s, RunPropertyActionModel::ReadPositionalTab)
            &&& n == "shd"@ ==> r == (s, RunPropertyActionModel::ReadShading)
            &&& n == "bdr"@ ==> r == (s, RunPropertyActionModel::ReadBorder)
            &&& n == "ins"@ ==> r == (s, RunPropertyActionModel::ReadInsert)
            &&& n == "del"@ ==> r == (s, RunPropertyActionModel::ReadDelete)
            &&& !(n == "rPrChange"@ || n == "rStyle"@ || n == "b"@ || n == "caps"@ || n == "ptab"@ || n
                == "highlight"@ || n == "strike"@ || n == "dstrike"@ || n == "vertAlign"@ || n == "color"@
                || n == "sz"@ || n == "spacing"@ || n == "fitText"@ || n == "rFonts"@ || n == "u"@ || n
                == "i"@ || n == "shd"@ || n == "vanish"@ || n == "specVanish"@ || n == "bdr"@ || n
                == "ins"@ || n == "del"@ || n == "t"@) ==> r == (s, RunPropertyActionModel::Continue)
        }),
{
    lemma_rpr_names(name.local_name);
}

/// Text wrongly nested in the properties: a `<w:t>` starts keeping
/// character data and its end tag stops it; character data is added, in
/// order, to what was kept only while keeping. `</w:rPr>` ends the
/// properties, any other end tag changes nothing, and a broken stream fails
/// them; the state is kept in both cases.
pub proof fn law_text_and_ends(s: RunPropertyModel, ev: EventModel)
    ensures
        ({
            let r = run_property_step_model(s, Some(ev));
            &&& (ev is Start && ev->Start_name.local_name == "t"@) ==> r == (
                RunPropertyModel { capturing_text: true, ..s },
                RunPropertyActionModel::Continue,
            )
            &&& (ev is End && ev->End_name.local_name == "t"@) ==> r == (
                RunPropertyModel { capturing_text: false, ..s },
                RunPropertyActionModel::Continue,
            )
            &&& (ev is End && ev->End_name.local_name == "rPr"@) ==> r == (s, RunPropertyActionModel::Done)
            &&& (ev is End && ev->End_name.local_name != "t"@ && ev->End_name.local_name != "rPr"@) ==> r == (
                s,
                RunPropertyActionModel::Continue,
            )
            &&& ev is Characters ==> r == (
                RunPropertyModel { recovered: if s.capturing_text { s.recovered.push(ev->Characters_0) } else { s.recovered }, ..s },
                RunPropertyActionModel::Continue,
            )
            &&& ev is Whitespace ==> r == (
                RunPropertyModel { recovered: if s.capturing_text { s.recovered.push(ev->Whitespace_0) } else { s.recovered }, ..s },
                RunPropertyActionModel::Continue,
            )
            &&& ev is EndDocument ==> r == (s, RunPropertyActionModel::Continue)
        }),
        run_property_step_model(s, None) == (s, RunPropertyActionModel::Fail),
{
    match ev {
        EventModel::Start { name, .. } => lemma_rpr_names(name.local_name),
        EventModel::End { name } => lemma_rpr_names(name.local_name),
        _ => {},
    }
    if s.capturing_text {
    } else {
        assert(s == RunPropertyModel { recovered: s.recovered, ..s });
    }
}

/// Tells the element names apart: a name equal to one of them has its letters.
proof fn lemma_rpr_names(n: Seq<char>)
    ensures
        n == "rPrChange"@ ==> n.len() == 9 && n[0] == 'r' && n[1] == 'P',
        n == "rStyle"@ ==> n.len() == 6 && n[0] == 'r' && n[1] == 'S',
        n == "b"@ ==> n.len() == 1 && n[0] == 'b',
        n == "caps"@ ==> n.len() == 4 && n[0] == 'c' && n[1] == 'a',
        n == "ptab"@ ==> n.len() == 4 && n[0] == 'p' && n[1] == 't',
        n == "highlight"@ ==> n.len() == 9 && n[0] == 'h' && n[1] == 'i',
        n == "strike"@ ==> n.len() == 6 && n[0] == 's' && n[1] == 't',
        n == "dstrike"@ ==> n.len() == 7 && n[0] == 'd' && n[1] == 's',
        n == "vertAlign"@ ==> n.len() == 9 && n[0] == 'v' && n[1] == 'e',
        n == "color"@ ==> n.len() == 5 && n[0] == 'c' && n[1] == 'o',
        n == "sz"@ ==> n.len() == 2 && n[0] == 's' && n[1] == 'z',
        n == "spacing"@ ==> n.len() == 7 && n[0] == 's' && n[1] == 'p',
        n == "fitText"@ ==> n.len() == 7 && n[0] == 'f' && n[1] == 'i',
        n == "rFonts"@ ==> n.len() == 6 && n[0] == 'r' && n[1] == 'F',
        n == "u"@ ==> n.len() == 1 && n[0] == 'u',
        n == "i"@ ==> n.len() == 1 && n[0] == 'i',
        n == "shd"@ ==> n.len() == 3 && n[0] == 's' && n[1] == 'h',
        n == "vanish"@ ==> n.len() == 6 && n[0] == 'v' && n[1] == 'a',
        n == "specVanish"@ ==> n.len() == 10 && n[0] == 's' && n[1] == 'p',
        n == "bdr"@ ==> n.len() == 3 && n[0] == 'b' && n[1] == 'd',
        n == "ins"@ ==> n.len() == 3 && n[0] == 'i' && n[1] == 'n',
        n == "del"@ ==> n.len() == 3 && n[0] == 'd' && n[1] == 'e',
        n == "t"@ ==> n.len() == 1 && n[0] == 't',
        n == "rPr"@ ==> n.len() == 3 && n[0] == 'r' && n[1] == 'P',
{
    reveal_strlit("rPrChange");
    reveal_strlit("rStyle");
    reveal_strlit("b");
    reveal_strlit("caps");
    reveal_strlit("ptab");
    reveal_strlit("highlight");
    reveal_strlit("strike");
    reveal_strlit("dstrike");
    reveal_strlit("vertAlign");
    reveal_strlit("color");
    reveal_strlit("sz");
    reveal_strlit("spacing");
    reveal_strlit("fitText");
    reveal_strlit("rFonts");
    reveal_strlit("u");
    reveal_strlit("i");
    reveal_strlit("shd");
    reveal_strlit("vanish");
    reveal_strlit("specVanish");
    reveal_strlit("bdr");
    reveal_strlit("ins");
    reveal_strlit("del");
    reveal_strlit("t");
    reveal_strlit("rPr");
}

} // verus!

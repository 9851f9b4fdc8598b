//! The decisions of the reader of a numbering part (`<w:numbering>`).

use vstd::prelude::*;

use crate::reader::{
    attrs_of, end_named, event_of, first_value_of, is_end, is_named, is_start, leading_value, numeric_attribute, parse_usize, start_named,
    read_numeric_attribute, usize_value, ReaderError,
};
use crate::xml_parser::{attributes_view, opt_text, AttributeModel, EventModel, NameModel, XmlEvent};

verus! {

/// Where the numbering reader stands.
#[derive(Debug, Clone, PartialEq, Eq)]
pub enum NumberingsState {
    /// Between definitions.
    Top,
    /// Inside a `w:abstractNum`, with what it has given so far.
    InAbstractNum { id: usize, style_link: Option<String>, num_style_link: Option<String> },
    /// Inside a `w:num`, with what it has given so far.
    InNum { id: usize, abstract_num_id: usize },
}

/// What the numbering reader does after one event.
#[derive(Debug, PartialEq, Eq)]
pub enum NumberingsAction {
    /// Read on.
    Continue,
    /// A `w:lvl` of an abstract numbering starts: read the level; an error
    /// there fails the part.
    ReadLevel,
    /// A `w:lvlOverride` of a numbering starts: read it, keep it where it reads.
    ReadLevelOverride,
    /// `</w:abstractNum>`: the abstract numbering with this id and these
    /// links, and the levels read inside it, is read.
    FinishAbstractNum { id: usize, style_link: Option<String>, num_style_link: Option<String> },
    /// `</w:num>`: the numbering with these ids, and the overrides read
    /// inside it, is read.
    FinishNum { id: usize, abstract_num_id: usize },
    /// `</w:numbering>` or the end of the document: the part is read.
    Done,
    /// The part cannot be read.
    Fail(ReaderError),
}

pub enum NumberingsModel {
    Top,
    InAbstractNum { id: usize, style_link: Option<Seq<char>>, num_style_link: Option<Seq<char>> },
    InNum { id: usize, abstract_num_id: usize },
}

pub enum NumberingsActionModel {
    Continue,
    ReadLevel,
    ReadLevelOverride,
    FinishAbstractNum { id: usize, style_link: Option<Seq<char>>, num_style_link: Option<Seq<char>> },
    FinishNum { id: usize, abstract_num_id: usize },
    Done,
    Fail(ReaderError),
}

impl View for NumberingsState {
    type V = NumberingsModel;

    open spec fn view(&self) -> NumberingsModel {
        match self {
            NumberingsState::Top => NumberingsModel::Top,
            NumberingsState::InAbstractNum { id, style_link, num_style_link } => NumberingsModel::InAbstractNum {
                id: *id,
                style_link: opt_text(*style_link),
                num_style_link: opt_text(*num_style_link),
            },
            NumberingsState::InNum { id, abstract_num_id } => NumberingsModel::InNum {
                id: *id,
                abstract_num_id: *abstract_num_id,
            },
        }
    }
}

impl View for NumberingsAction {
    type V = NumberingsActionModel;

    open spec fn view(&self) -> NumberingsActionModel {
        match self {
            NumberingsAction::Continue => NumberingsActionModel::Continue,
            NumberingsAction::ReadLevel => NumberingsActionModel::ReadLevel,
            NumberingsAction::ReadLevelOverride => NumberingsActionModel::ReadLevelOverride,
            NumberingsAction::FinishAbstractNum { id, style_link, num_style_link } => NumberingsActionModel::FinishAbstractNum {
                id: *id,
                style_link: opt_text(*style_link),
                num_style_link: opt_text(*num_style_link),
            },
            NumberingsAction::FinishNum { id, abstract_num_id } => NumberingsActionModel::FinishNum {
                id: *id,
                abstract_num_id: *abstract_num_id,
            },
            NumberingsAction::Done => NumberingsActionModel::Done,
            NumberingsAction::Fail(e) => NumberingsActionModel::Fail(*e),
        }
    }
}

/// One event read by the numbering reader.
///
/// Between definitions: an `abstractNum` or `num` start begins a definition,
/// its id being the number of its last `w:abstractNumId` or `w:numId`
/// attribute (0 without one; a value that is not a number fails the part);
/// `</w:numbering>` and the end of the document end the part; a broken
/// stream fails it.
///
/// Inside a definition, only the elements below count and everything else,
/// a broken stream and the end of the document included, is passed over. A
/// `w:styleLink` or `w:numStyleLink` sets the link to the value of its first
/// attribute; a `w:abstractNumId` sets the abstract numbering id to the
/// number its first attribute holds, and fails the part where that is not a
/// number. Without attributes those elements change nothing.
pub open spec fn numberings_step_model(s: NumberingsModel, ev: Option<EventModel>) -> (
    NumberingsModel,
    NumberingsActionModel,
) {
    match s {
        NumberingsModel::Top => match ev {
            None => (s, NumberingsActionModel::Fail(ReaderError::XMLReadError)),
            Some(EventModel::Start { name, attributes, .. }) => if name.local_name == "abstractNum"@ {
                match numeric_attribute(attributes, "abstractNumId"@, attributes.len()) {
                    Ok(id) => (
                        NumberingsModel::InAbstractNum { id, style_link: None, num_style_link: None },
                        NumberingsActionModel::Continue,
                    ),
                    Err(e) => (s, NumberingsActionModel::Fail(e)),
                }
            } else if name.local_name == "num"@ {
                match numeric_attribute(attributes, "numId"@, attributes.len()) {
                    Ok(id) => (NumberingsModel::InNum { id, abstract_num_id: 0 }, NumberingsActionModel::Continue),
                    Err(e) => (s, NumberingsActionModel::Fail(e)),
                }
            } else {
                (s, NumberingsActionModel::Continue)
            },
            Some(EventModel::End { name }) => if name.local_name == "numbering"@ {
                (s, NumberingsActionModel::Done)
            } else {
                (s, NumberingsActionModel::Continue)
            },
            Some(EventModel::EndDocument) => (s, NumberingsActionModel::Done),
            _ => (s, NumberingsActionModel::Continue),
        },
        NumberingsModel::InAbstractNum { id, style_link, num_style_link } => match ev {
            Some(EventModel::Start { name, attributes, .. }) => if name.local_name == "lvl"@ {
                (s, NumberingsActionModel::ReadLevel)
            } else if name.local_name == "styleLink"@ {
                match leading_value(attributes) {
                    Some(v) => (
                        NumberingsModel::InAbstractNum { id, style_link: Some(v), num_style_link },
                        NumberingsActionModel::Continue,
                    ),
                    None => (s, NumberingsActionModel::Continue),
                }
            } else if name.local_name == "numStyleLink"@ {
                match leading_value(attributes) {
                    Some(v) => (
                        NumberingsModel::InAbstractNum { id, style_link, num_style_link: Some(v) },
                        NumberingsActionModel::Continue,
                    ),
                    None => (s, NumberingsActionModel::Continue),
                }
            } else {
                (s, NumberingsActionModel::Continue)
            },
            Some(EventModel::End { name }) => if name.local_name == "abstractNum"@ {
                (NumberingsModel::Top, NumberingsActionModel::FinishAbstractNum { id, style_link, num_style_link })
            } else {
                (s, NumberingsActionModel::Continue)
            },
            _ => (s, NumberingsActionModel::Continue),
        },
        NumberingsModel::InNum { id, abstract_num_id } => match ev {
            Some(EventModel::Start { name, attributes, .. }) => if name.local_name == "abstractNumId"@ {
                match leading_value(attributes) {
                    Some(v) => match usize_value(v) {
                        Some(x) => (NumberingsModel::InNum { id, abstract_num_id: x }, NumberingsActionModel::Continue),
                        None => (s, NumberingsActionModel::Fail(ReaderError::NumberParseError)),
                    },
                    None => (s, NumberingsActionModel::Continue),
                }
            } else if name.local_name == "lvlOverride"@ {
                (s, NumberingsActionModel::ReadLevelOverride)
            } else {
                (s, NumberingsActionModel::Continue)
            },
            Some(EventModel::End { name }) => if name.local_name == "num"@ {
                (NumberingsModel::Top, NumberingsActionModel::FinishNum { id, abstract_num_id })
            } else {
                (s, NumberingsActionModel::Continue)
            },
            _ => (s, NumberingsActionModel::Continue),
        },
    }
}

/// Decides what the numbering reader does with the event it read, and
/// where it stands after it.
pub fn numberings_step<E>(s: NumberingsState, e: &Result<XmlEvent, E>) -> (r: (NumberingsState, NumberingsAction))
    ensures
        (r.0@, r.1@) == numberings_step_model(s@, event_of(*e)),
{
    match s {
        NumberingsState::Top => match e {
            Ok(XmlEvent::StartElement { name, attributes, .. }) => {
                if is_named(&name.local_name, "abstractNum") {
                    match read_numeric_attribute(attributes.as_slice(), "abstractNumId") {
                        Ok(id) => (
                            NumberingsState::InAbstractNum { id, style_link: None, num_style_link: None },
                            NumberingsAction::Continue,
                        ),
                        Err(err) => (NumberingsState::Top, NumberingsAction::Fail(err)),
                    }
                } else if is_named(&name.local_name, "num") {
                    match read_numeric_attribute(attributes.as_slice(), "numId") {
                        Ok(id) => (NumberingsState::InNum { id, abstract_num_id: 0 }, NumberingsAction::Continue),
                        Err(err) => (NumberingsState::Top, NumberingsAction::Fail(err)),
                    }
                } else {
                    (NumberingsState::Top, NumberingsAction::Continue)
                }
            },
            Ok(XmlEvent::EndElement { name }) => {
                if is_named(&name.local_name, "numbering") {
                    (NumberingsState::Top, NumberingsAction::Done)
                } else {
                    (NumberingsState::Top, NumberingsAction::Continue)
                }
            },
            Ok(XmlEvent::EndDocument) => (NumberingsState::Top, NumberingsAction::Done),
            Err(_) => (NumberingsState::Top, NumberingsAction::Fail(ReaderError::XMLReadError)),
            _ => (NumberingsState::Top, NumberingsAction::Continue),
        },
        NumberingsState::InAbstractNum { id, style_link, num_style_link } => match e {
            Ok(XmlEvent::StartElement { name, attributes, .. }) => {
                if is_named(&name.local_name, "lvl") {
                    (NumberingsState::InAbstractNum { id, style_link, num_style_link }, NumberingsAction::ReadLevel)
                } else if is_named(&name.local_name, "styleLink") {
                    match first_value_of(attributes.as_slice()) {
                        Some(v) => (
                            NumberingsState::InAbstractNum { id, style_link: Some(v), num_style_link },
                            NumberingsAction::Continue,
                        ),
                        None => (NumberingsState::InAbstractNum { id, style_link, num_style_link }, NumberingsAction::Continue),
                    }
                } else if is_named(&name.local_name, "numStyleLink") {
                    match first_value_of(attributes.as_slice()) {
                        Some(v) => (
                            NumberingsState::InAbstractNum { id, style_link, num_style_link: Some(v) },
                            NumberingsAction::Continue,
                        ),
                        None => (NumberingsState::InAbstractNum { id, style_link, num_style_link }, NumberingsAction::Continue),
                    }
                } else {
                    (NumberingsState::InAbstractNum { id, style_link, num_style_link }, NumberingsAction::Continue)
                }
            },
            Ok(XmlEvent::EndElement { name }) => {
                if is_named(&name.local_name, "abstractNum") {
                    (NumberingsState::Top, NumberingsAction::FinishAbstractNum { id, style_link, num_style_link })
                } else {
                    (NumberingsState::InAbstractNum { id, style_link, num_style_link }, NumberingsAction::Continue)
                }
            },
            _ => (NumberingsState::InAbstractNum { id, style_link, num_style_link }, NumberingsAction::Continue),
        },
        NumberingsState::InNum { id, abstract_num_id } => match e {
            Ok(XmlEvent::StartElement { name, attributes, .. }) => {
                if is_named(&name.local_name, "abstractNumId") {
                    match first_value_of(attributes.as_slice()) {
                        Some(v) => match parse_usize(&v) {
                            Some(x) => (NumberingsState::InNum { id, abstract_num_id: x }, NumberingsAction::Continue),
                            None => (
                                NumberingsState::InNum { id, abstract_num_id },
                                NumberingsAction::Fail(ReaderError::NumberParseError),
                            ),
                        },
                        None => (NumberingsState::InNum { id, abstract_num_id }, NumberingsAction::Continue),
                    }
                } else if is_named(&name.local_name, "lvlOverride") {
                    (NumberingsState::InNum { id, abstract_num_id }, NumberingsAction::ReadLevelOverride)
                } else {
                    (NumberingsState::InNum { id, abstract_num_id }, NumberingsAction::Continue)
                }
            },
            Ok(XmlEvent::EndElement { name }) => {
                if is_named(&name.local_name, "num") {
                    (NumberingsState::Top, NumberingsAction::FinishNum { id, abstract_num_id })
                } else {
                    (NumberingsState::InNum { id, abstract_num_id }, NumberingsAction::Continue)
                }
            },
            _ => (NumberingsState::InNum { id, abstract_num_id }, NumberingsAction::Continue),
        },
    }
}

// ---------------------------------------------------------------------------
// Laws
// ---------------------------------------------------------------------------

/// Inside a `w:num`, a `w:abstractNumId` whose first attribute holds the
/// decimal number `x` points the numbering at abstract numbering `x`, and
/// reading goes on; one whose first attribute is not a number fails the
/// part; one without attributes changes nothing. The numbering's own id is
/// kept.
pub proof fn law_abstract_num_id(
    id: usize,
    abstract_num_id: usize,
    name: NameModel,
    attributes: Seq<AttributeModel>,
    namespace: Seq<(Seq<char>, Seq<char>)>,
)
    requires
        name.local_name == "abstractNumId"@,
    ensures
        ({
            let s = NumberingsModel::InNum { id, abstract_num_id };
            let r = numberings_step_model(s, Some(EventModel::Start { name, attributes, namespace }));
            &&& attributes.len() == 0 ==> r == (s, NumberingsActionModel::Continue)
            &&& attributes.len() > 0 ==> match usize_value(attributes[0].value) {
                Some(x) => r == (NumberingsModel::InNum { id, abstract_num_id: x }, NumberingsActionModel::Continue),
                None => r == (s, NumberingsActionModel::Fail(ReaderError::NumberParseError)),
            }
        }),
{
    lemma_numbering_names(name.local_name);
}

/// A `w:num` read from its `w:abstractNumId` to its end tag: whatever the
/// numbering pointed at before, a `w:abstractNumId` holding the number `x`
/// followed by `</w:num>` finishes the numbering with its own id and
/// abstract numbering `x`, and the reader is back between definitions.
pub proof fn law_num_points_at_its_abstract_num(
    id: usize,
    before: usize,
    name: NameModel,
    attributes: Seq<AttributeModel>,
    namespace: Seq<(Seq<char>, Seq<char>)>,
    end: NameModel,
    x: usize,
)
    requires
        name.local_name == "abstractNumId"@,
        attributes.len() > 0,
        usize_value(attributes[0].value) == Some(x),
        end.local_name == "num"@,
    ensures
        ({
            let s0 = NumberingsModel::InNum { id, abstract_num_id: before };
            let (s1, a1) = numberings_step_model(s0, Some(EventModel::Start { name, attributes, namespace }));
            let (s2, a2) = numberings_step_model(s1, Some(EventModel::End { name: end }));
            &&& a1 == NumberingsActionModel::Continue
            &&& s2 == NumberingsModel::Top
            &&& a2 == NumberingsActionModel::FinishNum { id, abstract_num_id: x }
        }),
{
    lemma_numbering_names(name.local_name);
    lemma_numbering_names(end.local_name);
}

/// Inside a `w:num`: `</w:num>` finishes it with what was read, a
/// `w:lvlOverride` is handed to its reader, and every other event, a
/// broken stream and the end of the document included, is passed over with
/// the state kept.
pub proof fn law_inside_num(id: usize, abstract_num_id: usize, ev: Option<EventModel>)
    ensures
        ({
            let s = NumberingsModel::InNum { id, abstract_num_id };
            let r = numberings_step_model(s, ev);
            &&& end_named(ev, "num"@)
                ==> r == (NumberingsModel::Top, NumberingsActionModel::FinishNum { id, abstract_num_id })
            &&& (is_end(ev) && !end_named(ev, "num"@))
                ==> r == (s, NumberingsActionModel::Continue)
            &&& start_named(ev, "lvlOverride"@)
                ==> r == (s, NumberingsActionModel::ReadLevelOverride)
            &&& (is_start(ev) && !start_named(ev, "lvlOverride"@) && !start_named(ev, "abstractNumId"@)) ==> r == (s, NumberingsActionModel::Continue)
            &&& !(is_start(ev) || is_end(ev))
                ==> r == (s, NumberingsActionModel::Continue)
        }),
{
    match ev {
        Some(EventModel::Start { name, .. }) => lemma_numbering_names(name.local_name),
        Some(EventModel::End { name }) => lemma_numbering_names(name.local_name),
        _ => {},
    }
}

/// Inside a `w:abstractNum`: a `w:styleLink` sets the style link and a
/// `w:numStyleLink` the numbering style link, each to the value of its
/// first attribute, leaving the other link and the id as they were (without
/// attributes nothing changes); a `w:lvl` is handed to its reader;
/// `</w:abstractNum>` finishes the definition with its id and both links;
/// every other event is passed over with the state kept.
pub proof fn law_inside_abstract_num(
    id: usize,
    style_link: Option<Seq<char>>,
    num_style_link: Option<Seq<char>>,
    ev: Option<EventModel>,
)
    ensures
        ({
            let s = NumberingsModel::InAbstractNum { id, style_link, num_style_link };
            let r = numberings_step_model(s, ev);
            &&& start_named(ev, "styleLink"@)
                ==> r == (
                NumberingsModel::InAbstractNum {
                    id,
                    style_link: if attrs_of(ev).len() > 0 { Some(attrs_of(ev)[0].value) } else { style_link },
                    num_style_link,
                },
                NumberingsActionModel::Continue,
            )
            &&& start_named(ev, "numStyleLink"@)
                ==> r == (
                NumberingsModel::InAbstractNum {
                    id,
                    style_link,
                    num_style_link: if attrs_of(ev).len() > 0 { Some(attrs_of(ev)[0].value) } else { num_style_link },
                },
                NumberingsActionModel::Continue,
            )
            &&& start_named(ev, "lvl"@) ==> r == (
                s,
                NumberingsActionModel::ReadLevel,
            )
            &&& (is_start(ev) && !start_named(ev, "lvl"@) && !start_named(ev, "styleLink"@) && !start_named(ev, "numStyleLink"@)) ==> r == (s, NumberingsActionModel::Continue)
            &&& end_named(ev, "abstractNum"@) ==> r == (
                NumberingsModel::Top,
                NumberingsActionModel::FinishAbstractNum { id, style_link, num_style_link },
            )
            &&& (is_end(ev) && !end_named(ev, "abstractNum"@)) ==> r == (
                s,
                NumberingsActionModel::Continue,
            )
            &&& !(is_start(ev) || is_end(ev))
                ==> r == (s, NumberingsActionModel::Continue)
        }),
{
    match ev {
        Some(EventModel::Start { name, .. }) => lemma_numbering_names(name.local_name),
        Some(EventModel::End { name }) => lemma_numbering_names(name.local_name),
        _ => {},
    }
}

/// Between definitions: a `w:abstractNum` starts an abstract numbering with
/// the id its `w:abstractNumId` attributes give and no links, a `w:num` a
/// numbering with the id its `w:numId` attributes give, pointing at
/// abstract numbering 0 until told otherwise; an id that is not a number
/// fails the part. `</w:numbering>` and the end of the document end the
/// part, a broken stream fails it, and anything else is passed over.
pub proof fn law_between_definitions(ev: Option<EventModel>)
    ensures
        ({
            let s = NumberingsModel::Top;
            let r = numberings_step_model(s, ev);
            &&& start_named(ev, "abstractNum"@)
                ==> r == match numeric_attribute(attrs_of(ev), "abstractNumId"@, attrs_of(ev).len()) {
                Ok(id) => (
                    NumberingsModel::InAbstractNum { id, style_link: None, num_style_link: None },
                    NumberingsActionModel::Continue,
                ),
                Err(e) => (s, NumberingsActionModel::Fail(e)),
            }
            &&& start_named(ev, "num"@) ==> r
                == match numeric_attribute(attrs_of(ev), "numId"@, attrs_of(ev).len()) {
                Ok(id) => (NumberingsModel::InNum { id, abstract_num_id: 0 }, NumberingsActionModel::Continue),
                Err(e) => (s, NumberingsActionModel::Fail(e)),
            }
            &&& (is_start(ev) && !start_named(ev, "abstractNum"@) && !start_named(ev, "num"@)) ==> r == (s, NumberingsActionModel::Continue)
            &&& end_named(ev, "numbering"@) ==> r == (
                s,
                NumberingsActionModel::Done,
            )
            &&& (is_end(ev) && !end_named(ev, "numbering"@)) ==> r == (
                s,
                NumberingsActionModel::Continue,
            )
            &&& ev == Some(EventModel::EndDocument) ==> r == (s, NumberingsActionModel::Done)
            &&& ev is None ==> r == (s, NumberingsActionModel::Fail(ReaderError::XMLReadError))
            &&& (ev is Some && ev->0 is Characters) ==> r == (s, NumberingsActionModel::Continue)
            &&& (ev is Some && ev->0 is Whitespace) ==> r == (s, NumberingsActionModel::Continue)
        }),
{
    match ev {
        Some(EventModel::Start { name, .. }) => lemma_numbering_names(name.local_name),
        Some(EventModel::End { name }) => lemma_numbering_names(name.local_name),
        _ => {},
    }
}

/// Tells the element names apart: a name equal to one of them has its letters.
proof fn lemma_numbering_names(n: Seq<char>)
    ensures
        n == "abstractNum"@ ==> n.len() == 11 && n[0] == 'a' && n[1] == 'b',
        n == "num"@ ==> n.len() == 3 && n[0] == 'n' && n[1] == 'u',
        n == "numbering"@ ==> n.len() == 9 && n[0] == 'n' && n[1] == 'u',
        n == "lvl"@ ==> n.len() == 3 && n[0] == 'l' && n[1] == 'v',
        n == "styleLink"@ ==> n.len() == 9 && n[0] == 's' && n[1] == 't',
        n == "numStyleLink"@ ==> n.len() == 12 && n[0] == 'n' && n[1] == 'u',
        n == "abstractNumId"@ ==> n.len() == 13 && n[0] == 'a' && n[1] == 'b',
        n == "lvlOverride"@ ==> n.len() == 11 && n[0] == 'l' && n[1] == 'v',
{
    reveal_strlit("abstractNum");
    reveal_strlit("num");
    reveal_strlit("numbering");
    reveal_strlit("lvl");
    reveal_strlit("styleLink");
    reveal_strlit("numStyleLink");
    reveal_strlit("abstractNumId");
    reveal_strlit("lvlOverride");
}

} // verus!

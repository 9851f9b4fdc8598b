//! The decisions of the reader of a numbering level (`<w:lvl>`).

use vstd::prelude::*;

use crate::reader::{
    event_of, first_value, is_named, numeric_attribute, parse_u32, parse_usize, read_numeric_attribute,
    read_val, u32_value, usize_value, ReaderError,
};
use crate::xml_parser::{attributes_view, opt_text, AttributeModel, EventModel, NameModel, OwnedAttribute, XmlEvent};

verus! {

/// What follows the number of a level: a tab, a space, or nothing.
#[derive(Debug, Clone, Copy, PartialEq, Eq)]
pub enum LevelSuffix {
    Tab,
    Space,
    Nothing,
}

/// The suffix a `w:suff` value names.
pub open spec fn suffix_of(v: Seq<char>) -> Option<LevelSuffix> {
    if v == "tab"@ {
        Some(LevelSuffix::Tab)
    } else if v == "space"@ {
        Some(LevelSuffix::Space)
    } else if v == "nothing"@ {
        Some(LevelSuffix::Nothing)
    } else {
        None
    }
}

/// Reads a `w:suff` value.
pub fn parse_suffix(v: &String) -> (r: Option<LevelSuffix>)
    ensures
        r == suffix_of(v@),
{
    if is_named(v, "tab") {
        Some(LevelSuffix::Tab)
    } else if is_named(v, "space") {
        Some(LevelSuffix::Space)
    } else if is_named(v, "nothing") {
        Some(LevelSuffix::Nothing)
    } else {
        None
    }
}

/// What the reader of a level has read so far.
#[derive(Debug, Clone, PartialEq, Eq)]
pub struct LevelReadState {
    /// The level's index (`w:ilvl`).
    pub level: usize,
    /// The paragraph style (`w:pStyle`).
    pub style_id: Option<String>,
    /// The first ordinal (`w:start`); none keeps the default.
    pub start: Option<usize>,
    /// The number format (`w:numFmt`), `decimal` by default.
    pub format: String,
    /// The level text (`w:lvlText`), empty by default.
    pub text: String,
    /// The justification (`w:lvlJc`), `left` by default.
    pub jc: String,
    /// The suffix (`w:suff`), a tab by default.
    pub suffix: LevelSuffix,
    /// The level after which numbering restarts (`w:lvlRestart`).
    pub restart: Option<u32>,
    /// Legal numbering (`w:isLgl`).
    pub is_lgl: bool,
}

pub struct LevelModel {
    pub level: usize,
    pub style_id: Option<Seq<char>>,
    pub start: Option<usize>,
    pub format: Seq<char>,
    pub text: Seq<char>,
    pub jc: Seq<char>,
    pub suffix: LevelSuffix,
    pub restart: Option<u32>,
    pub is_lgl: bool,
}

impl View for LevelReadState {
    type V = LevelModel;

    open spec fn view(&self) -> LevelModel {
        LevelModel {
            level: self.level,
            style_id: opt_text(self.style_id),
            start: self.start,
            format: self.format@,
            text: self.text@,
            jc: self.jc@,
            suffix: self.suffix,
            restart: self.restart,
            is_lgl: self.is_lgl,
        }
    }
}

/// What the level reader does after one event.
#[derive(Debug, PartialEq, Eq)]
pub enum LevelAction {
    /// Read on.
    Continue,
    /// A `w:pPr` starts: read the paragraph properties, keep them where they read.
    ReadParagraphProperty,
    /// A `w:rPr` starts: read the run properties, keep them where they read.
    ReadRunProperty,
    /// A `w:ind` starts: read its indentation; an error there fails the level.
    ReadIndent,
    /// `</w:lvl>`: the level is read.
    Done,
    /// The stream broke: the level cannot be read.
    Fail,
}

/// A level before any of its children: its index from the `w:ilvl`
/// attribute (0 without one, an error where it is not a number) and every
/// other field at its default.
pub open spec fn level_initial_model(level: usize) -> LevelModel {
    LevelModel {
        level,
        style_id: None,
        start: None,
        format: "decimal"@,
        text: Seq::empty(),
        jc: "left"@,
        suffix: LevelSuffix::Tab,
        restart: None,
        is_lgl: false,
    }
}

/// One event read inside a level. A child without `w:val` keeps the
/// default, as does a value that does not parse, except `w:lvlText`,
/// which a bare element empties.
pub open spec fn level_step_model(s: LevelModel, ev: Option<EventModel>) -> (LevelModel, LevelAction) {
    match ev {
        None => (s, LevelAction::Fail),
        Some(EventModel::Start { name, attributes, .. }) => {
            let n = name.local_name;
            let val = first_value(attributes, "val"@);
            if n == "pStyle"@ {
                match val {
                    Some(v) => (LevelModel { style_id: Some(v), ..s }, LevelAction::Continue),
                    None => (s, LevelAction::Continue),
                }
            } else if n == "pPr"@ {
                (s, LevelAction::ReadParagraphProperty)
            } else if n == "rPr"@ {
                (s, LevelAction::ReadRunProperty)
            } else if n == "start"@ {
                match val {
                    Some(v) => match usize_value(v) {
                        Some(x) => (LevelModel { start: Some(x), ..s }, LevelAction::Continue),
                        None => (s, LevelAction::Continue),
                    },
                    None => (s, LevelAction::Continue),
                }
            } else if n == "numFmt"@ {
                match val {
                    Some(v) => (LevelModel { format: v, ..s }, LevelAction::Continue),
                    None => (s, LevelAction::Continue),
                }
            } else if n == "suff"@ {
                match val {
                    Some(v) => match suffix_of(v) {
                        Some(x) => (LevelModel { suffix: x, ..s }, LevelAction::Continue),
                        None => (s, LevelAction::Continue),
                    },
                    None => (s, LevelAction::Continue),
                }
            } else if n == "isLgl"@ {
                (LevelModel { is_lgl: true, ..s }, LevelAction::Continue)
            } else if n == "lvlText"@ {
                match val {
                    Some(v) => (LevelModel { text: v, ..s }, LevelAction::Continue),
                    None => (LevelModel { text: Seq::empty(), ..s }, LevelAction::Continue),
                }
            } else if n == "lvlRestart"@ {
                match val {
                    Some(v) => match u32_value(v) {
                        Some(x) => (LevelModel { restart: Some(x), ..s }, LevelAction::Continue),
                        None => (s, LevelAction::Continue),
                    },
                    None => (s, LevelAction::Continue),
                }
            } else if n == "lvlJc"@ {
                match val {
                    Some(v) => (LevelModel { jc: v, ..s }, LevelAction::Continue),
                    None => (s, LevelAction::Continue),
                }
            } else if n == "ind"@ {
                (s, LevelAction::ReadIndent)
            } else {
                (s, LevelAction::Continue)
            }
        },
        Some(EventModel::End { name }) => if name.local_name == "lvl"@ {
            (s, LevelAction::Done)
        } else {
            (s, LevelAction::Continue)
        },
        _ => (s, LevelAction::Continue),
    }
}

impl LevelReadState {
    /// The state in which a level starts, from the attributes of its start tag.
    pub fn new(attributes: &[OwnedAttribute]) -> (r: Result<LevelReadState, ReaderError>)
        ensures
            match numeric_attribute(attributes_view(attributes@), "ilvl"@, attributes@.len()) {
                Ok(level) => r matches Ok(s) && s@ == level_initial_model(level),
                Err(e) => r == Err::<LevelReadState, ReaderError>(e),
            },
    {
        let level = match read_numeric_attribute(attributes, "ilvl") {
            Ok(l) => l,
            Err(e) => return Err(e),
        };
        let s = LevelReadState {
            level,
            style_id: None,
            start: None,
            format: String::from_str("decimal"),
            text: String::new(),
            jc: String::from_str("left"),
            suffix: LevelSuffix::Tab,
            restart: None,
            is_lgl: false,
        };
        Ok(s)
    }
}

/// Decides what the level reader does with the event it read, and what it
/// keeps of it.
pub fn level_step<E>(s: LevelReadState, e: &Result<XmlEvent, E>) -> (r: (LevelReadState, LevelAction))
    ensures
        (r.0@, r.1) == level_step_model(s@, event_of(*e)),
{
    let mut s = s;
    match e {
        Ok(XmlEvent::StartElement { name, attributes, .. }) => {
            let n = &name.local_name;
            if is_named(n, "pStyle") {
                if let Some(v) = read_val(attributes.as_slice()) {
                    s.style_id = Some(v);
                }
                (s, LevelAction::Continue)
            } else if is_named(n, "pPr") {
                (s, LevelAction::ReadParagraphProperty)
            } else if is_named(n, "rPr") {
                (s, LevelAction::ReadRunProperty)
            } else if is_named(n, "start") {
                if let Some(v) = read_val(attributes.as_slice()) {
                    if let Some(x) = parse_usize(&v) {
                        s.start = Some(x);
                    }
                }
                (s, LevelAction::Continue)
            } else if is_named(n, "numFmt") {
                if let Some(v) = read_val(attributes.as_slice()) {
                    s.format = v;
                }
                (s, LevelAction::Continue)
            } else if is_named(n, "suff") {
                if let Some(v) = read_val(attributes.as_slice()) {
                    if let Some(x) = parse_suffix(&v) {
                        s.suffix = x;
                    }
                }
                (s, LevelAction::Continue)
            } else if is_named(n, "isLgl") {
                s.is_lgl = true;
                (s, LevelAction::Continue)
            } else if is_named(n, "lvlText") {
                match read_val(attributes.as_slice()) {
                    Some(v) => {
                        s.text = v;
                    },
                    None => {
                        s.text = String::new();
                    },
                }
                (s, LevelAction::Continue)
            } else if is_named(n, "lvlRestart") {
                if let Some(v) = read_val(attributes.as_slice()) {
                    if let Some(x) = parse_u32(&v) {
                        s.restart = Some(x);
                    }
                }
                (s, LevelAction::Continue)
            } else if is_named(n, "lvlJc") {
                if let Some(v) = read_val(attributes.as_slice()) {
                    s.jc = v;
                }
                (s, LevelAction::Continue)
            } else if is_named(n, "ind") {
                (s, LevelAction::ReadIndent)
            } else {
                (s, LevelAction::Continue)
            }
        },
        Ok(XmlEvent::EndElement { name }) => {
            if is_named(&name.local_name, "lvl") {
                (s, LevelAction::Done)
            } else {
                (s, LevelAction::Continue)
            }
        },
        Err(_) => (s, LevelAction::Fail),
        _ => (s, LevelAction::Continue),
    }
}

// ---------------------------------------------------------------------------
// Laws
// ---------------------------------------------------------------------------

/// A level starts with the defaults: no style, no start, `decimal`
/// format, empty text, `left` justification, a tab after the number, no
/// restart, not legal.
pub proof fn law_level_defaults(level: usize)
    ensures
        ({
            let m = level_initial_model(level);
            &&& m.level == level
            &&& m.style_id is None && m.start is None && m.restart is None && !m.is_lgl
            &&& m.format == "decimal"@ && m.text.len() == 0 && m.jc == "left"@
            &&& m.suffix == LevelSuffix::Tab
        }),
{
}

/// The children that carry a text take it from their first `w:val`, and
/// change only their own field; reading goes on: `w:pStyle` the style,
/// `w:numFmt` the format, `w:lvlJc` the justification, whatever the value.
/// Without `w:val` they change nothing, except `w:lvlText`, which a bare
/// element empties.
pub proof fn law_level_text_children(
    s: LevelModel,
    name: NameModel,
    attributes: Seq<AttributeModel>,
    namespace: Seq<(Seq<char>, Seq<char>)>,
)
    ensures
        ({
            let r = level_step_model(s, Some(EventModel::Start { name, attributes, namespace }));
            let val = first_value(attributes, "val"@);
            let n = name.local_name;
            &&& n == "pStyle"@ ==> r == (
                LevelModel { style_id: if val is Some { val } else { s.style_id }, ..s },
                LevelAction::Continue,
            )
            &&& n == "numFmt"@ ==> r == (
                LevelModel { format: if val is Some { val->0 } else { s.format }, ..s },
                LevelAction::Continue,
            )
            &&& n == "lvlJc"@ ==> r == (
                LevelModel { jc: if val is Some { val->0 } else { s.jc }, ..s },
                LevelAction::Continue,
            )
            &&& n == "lvlText"@ ==> r == (
                LevelModel { text: if val is Some { val->0 } else { Seq::empty() }, ..s },
                LevelAction::Continue,
            )
        }),
{
    lemma_lvl_names(name.local_name);
}

/// The children that carry a number or a choice set their field where their
/// first `w:val` is one, and change nothing otherwise; reading goes on:
/// `w:start` a decimal number, `w:lvlRestart` a decimal number in `u32`,
/// `w:suff` one of `tab`, `space`, `nothing`. `w:isLgl` makes the level
/// legal.
pub proof fn law_level_number_children(
    s: LevelModel,
    name: NameModel,
    attributes: Seq<AttributeModel>,
    namespace: Seq<(Seq<char>, Seq<char>)>,
)
    ensures
        ({
            let r = level_step_model(s, Some(EventModel::Start { name, attributes, namespace }));
            let val = first_value(attributes, "val"@);
            let n = name.local_name;
            &&& n == "start"@ ==> r == (
                LevelModel {
                    start: match val {
                        Some(v) => if usize_value(v) is Some { usize_value(v) } else { s.start },
                        None => s.start,
                    },
                    ..s
                },
                LevelAction::Continue,
            )
            &&& n == "lvlRestart"@ ==> r == (
                LevelModel {
                    restart: match val {
                        Some(v) => if u32_value(v) is Some { u32_value(v) } else { s.restart },
                        None => s.restart,
                    },
                    ..s
                },
                LevelAction::Continue,
            )
            &&& n == "suff"@ ==> r == (
                LevelModel {
                    suffix: if val == Some("tab"@) {
                        LevelSuffix::Tab
                    } else if val == Some("space"@) {
                        LevelSuffix::Space
                    } else if val == Some("nothing"@) {
                        LevelSuffix::Nothing
                    } else {
                        s.suffix
                    },
                    ..s
                },
                LevelAction::Continue,
            )
            &&& n == "isLgl"@ ==> r == (LevelModel { is_lgl: true, ..s }, LevelAction::Continue)
        }),
{
    lemma_lvl_names(name.local_name);
    reveal_strlit("tab");
    reveal_strlit("space");
    reveal_strlit("nothing");
}

/// `w:pPr`, `w:rPr` and `w:ind` are handed to their readers and change
/// nothing here; any other child changes nothing and reading goes on.
/// `</w:lvl>` ends the level and any other end tag is passed over, the state
/// kept in both cases; a broken stream fails the level. No event changes
/// the level's index.
pub proof fn law_level_structure(s: LevelModel, ev: EventModel)
    ensures
        ({
            let r = level_step_model(s, Some(ev));
            let n = if ev is Start { ev->Start_name.local_name } else if ev is End { ev->End_name.local_name } else { Seq::empty() };
            &&& r.0.level == s.level
            &&& ev is Start && n == "pPr"@ ==> r == (s, LevelAction::ReadParagraphProperty)
            &&& ev is Start && n == "rPr"@ ==> r == (s, LevelAction::ReadRunProperty)
            &&& ev is Start && n == "ind"@ ==> r == (s, LevelAction::ReadIndent)
            &&& ev is Start && !(n == "pStyle"@ || n == "pPr"@ || n == "rPr"@ || n == "start"@ || n == "numFmt"@
                || n == "suff"@ || n == "isLgl"@ || n == "lvlText"@ || n == "lvlRestart"@ || n == "lvlJc"@ || n
                == "ind"@) ==> r == (s, LevelAction::Continue)
            &&& ev is End && n == "lvl"@ ==> r == (s, LevelAction::Done)
            &&& ev is End && n != "lvl"@ ==> r == (s, LevelAction::Continue)
            &&& !(ev is Start || ev is End) ==> r == (s, LevelAction::Continue)
        }),
        level_step_model(s, None) == (s, LevelAction::Fail),
{
    match ev {
        EventModel::Start { name, .. } => lemma_lvl_names(name.local_name),
        EventModel::End { name } => lemma_lvl_names(name.local_name),
        _ => {},
    }
}

/// Tells the element names apart: a name equal to one of them has its letters.
proof fn lemma_lvl_names(n: Seq<char>)
    ensures
        n == "pStyle"@ ==> n.len() == 6 && n[0] == 'p' && n[1] == 'S',
        n == "pPr"@ ==> n.len() == 3 && n[0] == 'p' && n[1] == 'P',
        n == "rPr"@ ==> n.len() == 3 && n[0] == 'r' && n[1] == 'P',
        n == "start"@ ==> n.len() == 5 && n[0] == 's' && n[1] == 't',
        n == "numFmt"@ ==> n.len() == 6 && n[0] == 'n' && n[1] == 'u',
        n == "suff"@ ==> n.len() == 4 && n[0] == 's' && n[1] == 'u',
        n == "isLgl"@ ==> n.len() == 5 && n[0] == 'i' && n[1] == 's',
        n == "lvlText"@ ==> n.len() == 7 && n[0] == 'l' && n[1] == 'v',
        n == "lvlRestart"@ ==> n.len() == 10 && n[0] == 'l' && n[1] == 'v',
        n == "lvlJc"@ ==> n.len() == 5 && n[0] == 'l' && n[1] == 'v',
        n == "ind"@ ==> n.len() == 3 && n[0] == 'i' && n[1] == 'n',
        n == "lvl"@ ==> n.len() == 3 && n[0] == 'l' && n[1] == 'v',
{
    reveal_strlit("pStyle");
    reveal_strlit("pPr");
    reveal_strlit("rPr");
    reveal_strlit("start");
    reveal_strlit("numFmt");
    reveal_strlit("suff");
    reveal_strlit("isLgl");
    reveal_strlit("lvlText");
    reveal_strlit("lvlRestart");
    reveal_strlit("lvlJc");
    reveal_strlit("ind");
    reveal_strlit("lvl");
}

} // verus!

//! XML events as the element readers see them, and the decisions of the
//! event reader that produces them.

use vstd::prelude::*;

use std::collections::VecDeque;

use quick_xml::encoding::{Decoder, EncodingError};
use quick_xml::escape::EscapeError;
use quick_xml::events::attributes::AttrError;

use vstd::std_specs::iter::IteratorSpec;
use vstd::utf8::{decode_utf8_encode_utf8, encode_utf8, valid_utf8};

use crate::codec::{decode_bytes, lossy_text, unescape, utf8_lossy, utf8_text, xml_unescape};

verus! {

/// A qualified name split at its first `:`.
#[derive(Debug, PartialEq, Eq)]
pub struct OwnedName {
    pub local_name: String,
    pub namespace: Option<String>,
    pub prefix: Option<String>,
}

/// An attribute with its decoded, unescaped value.
#[derive(Debug, Clone, PartialEq, Eq)]
pub struct OwnedAttribute {
    pub name: OwnedName,
    pub value: String,
}

/// Namespace mappings in scope of an element (the reader records none).
#[derive(Debug, Clone, PartialEq, Eq)]
pub struct Namespace {
    mappings: Vec<(String, String)>,
}

/// One event of the stream that the element readers consume.
#[derive(Debug, Clone, PartialEq)]
pub enum XmlEvent {
    StartElement { name: OwnedName, attributes: Vec<OwnedAttribute>, namespace: Namespace },
    EndElement { name: OwnedName },
    Characters(String),
    Whitespace(String),
    EndDocument,
}

/// A name as characters.
pub struct NameModel {
    pub local_name: Seq<char>,
    pub namespace: Option<Seq<char>>,
    pub prefix: Option<Seq<char>>,
}

/// An attribute as characters.
pub struct AttributeModel {
    pub name: NameModel,
    pub value: Seq<char>,
}

/// An event as characters.
pub enum EventModel {
    Start { name: NameModel, attributes: Seq<AttributeModel>, namespace: Seq<(Seq<char>, Seq<char>)> },
    End { name: NameModel },
    Characters(Seq<char>),
    Whitespace(Seq<char>),
    EndDocument,
}

pub open spec fn opt_text(o: Option<String>) -> Option<Seq<char>> {
    match o {
        Some(s) => Some(s@),
        None => None,
    }
}

impl View for OwnedName {
    type V = NameModel;

    open spec fn view(&self) -> NameModel {
        NameModel {
            local_name: self.local_name@,
            namespace: opt_text(self.namespace),
            prefix: opt_text(self.prefix),
        }
    }
}

impl View for OwnedAttribute {
    type V = AttributeModel;

    open spec fn view(&self) -> AttributeModel {
        AttributeModel { name: self.name@, value: self.value@ }
    }
}

pub open spec fn attributes_view(attributes: Seq<OwnedAttribute>) -> Seq<AttributeModel> {
    attributes.map_values(|a: OwnedAttribute| a@)
}

impl View for Namespace {
    type V = Seq<(Seq<char>, Seq<char>)>;

    closed spec fn view(&self) -> Seq<(Seq<char>, Seq<char>)> {
        self.mappings@.map_values(|m: (String, String)| (m.0@, m.1@))
    }
}

impl View for XmlEvent {
    type V = EventModel;

    open spec fn view(&self) -> EventModel {
        match self {
            XmlEvent::StartElement { name, attributes, namespace } => EventModel::Start {
                name: name@,
                attributes: attributes_view(attributes@),
                namespace: namespace@,
            },
            XmlEvent::EndElement { name } => EventModel::End { name: name@ },
            XmlEvent::Characters(t) => EventModel::Characters(t@),
            XmlEvent::Whitespace(t) => EventModel::Whitespace(t@),
            XmlEvent::EndDocument => EventModel::EndDocument,
        }
    }
}

impl Clone for OwnedName {
    fn clone(&self) -> (r: Self)
        ensures
            r@ == self@,
    {
        OwnedName {
            local_name: self.local_name.clone(),
            namespace: match &self.namespace {
                Some(s) => Some(s.clone()),
                None => None,
            },
            prefix: match &self.prefix {
                Some(s) => Some(s.clone()),
                None => None,
            },
        }
    }
}

impl Default for Namespace {
    /// No mappings, as `Namespace::empty`.
    fn default() -> (r: Self)
        ensures
            r@ == Seq::<(Seq<char>, Seq<char>)>::empty(),
    {
        Namespace::empty()
    }
}

impl Namespace {
    /// No mappings.
    pub fn empty() -> (r: Self)
        ensures
            r@ == Seq::<(Seq<char>, Seq<char>)>::empty(),
    {
        let r = Namespace { mappings: Vec::new() };
        assert(r@ =~= Seq::<(Seq<char>, Seq<char>)>::empty());
        r
    }

    /// The mappings, in order.
    pub fn into_mappings(self) -> (r: Vec<(String, String)>)
        ensures
            r@.map_values(|m: (String, String)| (m.0@, m.1@)) == self@,
    {
        self.mappings
    }
}

/// The characters that carry Unicode's `White_Space` property, which is what
/// `char::is_whitespace` tests.
pub open spec fn is_white_space(c: char) -> bool {
    let v = c as u32;
    ||| 0x9 <= v <= 0xD
    ||| v == 0x20
    ||| v == 0x85
    ||| v == 0xA0
    ||| v == 0x1680
    ||| 0x2000 <= v <= 0x200A
    ||| v == 0x2028
    ||| v == 0x2029
    ||| v == 0x202F
    ||| v == 0x205F
    ||| v == 0x3000
}

/// Every character of the text is white space (true of the empty text).
pub open spec fn all_white_space(t: Seq<char>) -> bool {
    forall|i: int| 0 <= i < t.len() ==> is_white_space(#[trigger] t[i])
}

/// The event that a run of text becomes.
pub open spec fn classified(t: Seq<char>) -> EventModel {
    if all_white_space(t) {
        EventModel::Whitespace(t)
    } else {
        EventModel::Characters(t)
    }
}

pub fn white_space(c: char) -> (b: bool)
    ensures
        b == is_white_space(c),
{
    let v = c as u32;
    (0x9 <= v && v <= 0xD) || v == 0x20 || v == 0x85 || v == 0xA0 || v == 0x1680
        || (0x2000 <= v && v <= 0x200A) || v == 0x2028 || v == 0x2029 || v == 0x202F
        || v == 0x205F || v == 0x3000
}

/// A run of text becomes `Whitespace` when every character of it is white
/// space, and `Characters` otherwise.
pub fn classify_text(text: String) -> (r: XmlEvent)
    ensures
        r@ == classified(text@),
{
    broadcast use vstd::string::group_string_axioms;

    let all = {
        let mut chars = text.as_str().chars();
        let ghost n = text@.len();
        let ghost mut i: int = 0;
        let mut all = true;
        loop
            invariant_except_break
                0 <= i <= n,
                n == text@.len(),
                chars.remaining() == text@.skip(i),
                all,
                forall|j: int| 0 <= j < i ==> is_white_space(#[trigger] text@[j]),
            ensures
                all <==> all_white_space(text@),
            decreases n - i,
        {
            match chars.next() {
                Some(c) => {
                    assert(c == text@[i]);
                    if !white_space(c) {
                        all = false;
                        break;
                    }
                    proof {
                        assert(text@.skip(i).drop_first() =~= text@.skip(i + 1));
                        i = i + 1;
                    }
                },
                None => {
                    assert(i == n);
                    break;
                },
            }
        }
        all
    };
    if all {
        XmlEvent::Whitespace(text)
    } else {
        XmlEvent::Characters(text)
    }
}

/// A name split at its first `:` into prefix and local name; without `:`
/// the whole text is the local name.
pub open spec fn split_name(t: Seq<char>) -> NameModel {
    if t.contains(':') {
        let i = choose|i: int| 0 <= i < t.len() && t[i] == ':' && !t.take(i).contains(':');
        NameModel { local_name: t.skip(i + 1), namespace: None, prefix: Some(t.take(i)) }
    } else {
        NameModel { local_name: t, namespace: None, prefix: None }
    }
}

/// The name that the raw bytes of a qualified name give.
pub open spec fn qname(raw: Seq<u8>) -> NameModel {
    split_name(utf8_lossy(raw))
}

proof fn lemma_first_colon(t: Seq<char>, i: int)
    requires
        0 <= i < t.len(),
        t[i] == ':',
        forall|j: int| 0 <= j < i ==> t[j] != ':',
    ensures
        split_name(t) == (NameModel { local_name: t.skip(i + 1), namespace: None, prefix: Some(t.take(i)) }),
{
    assert(t.contains(':'));
    assert(!t.take(i).contains(':'));
    let k = choose|k: int| 0 <= k < t.len() && t[k] == ':' && !t.take(k).contains(':');
    if k < i {
        assert(t[k] != ':');
    } else if k > i {
        assert(t.take(k)[i] == ':');
    }
}

/// Splits a decoded name at its first `:` into prefix and local name;
/// without `:` the whole text is the local name.
pub fn split_name_text(text: String) -> (r: OwnedName)
    ensures
        r@ == split_name(text@),
{
    broadcast use vstd::string::group_string_axioms;

    let m = text.as_str().unicode_len();
    let ghost n = text@.len();
    let colon: Option<usize> = {
        let mut chars = text.as_str().chars();
        let ghost mut i: int = 0;
        let mut k: usize = 0;
        let mut found: Option<usize> = None;
        loop
            invariant_except_break
                0 <= i <= n,
                k == i,
                n == text@.len(),
                n == m,
                chars.remaining() == text@.skip(i),
                found is None,
                forall|j: int| 0 <= j < i ==> text@[j] != ':',
            ensures
                match found {
                    Some(c) => 0 <= c < n && text@[c as int] == ':' && forall|j: int|
                        0 <= j < c ==> text@[j] != ':',
                    None => forall|j: int| 0 <= j < n ==> text@[j] != ':',
                },
            decreases n - i,
        {
            match chars.next() {
                Some(c) => {
                    assert(c == text@[i]);
                    if c == ':' {
                        found = Some(k);
                        break;
                    }
                    proof {
                        assert(text@.skip(i).drop_first() =~= text@.skip(i + 1));
                        i = i + 1;
                    }
                    k = k + 1;
                },
                None => {
                    assert(i == n);
                    break;
                },
            }
        }
        found
    };
    match colon {
        Some(i) => {
            let prefix = text.as_str().substring_char(0, i).to_owned();
            let local = text.as_str().substring_char(i + 1, m).to_owned();
            proof {
                lemma_first_colon(text@, i as int);
                assert(prefix@ == text@.take(i as int));
                assert(local@ == text@.skip(i + 1));
            }
            OwnedName { local_name: local, namespace: None, prefix: Some(prefix) }
        },
        None => {
            assert(!text@.contains(':'));
            OwnedName { local_name: text, namespace: None, prefix: None }
        },
    }
}

/// The text a split name stands for: the prefix, a `:` and the local name,
/// or the local name alone.
pub open spec fn joined_name(n: NameModel) -> Seq<char> {
    match n.prefix {
        Some(p) => p + seq![':'] + n.local_name,
        None => n.local_name,
    }
}

/// Splits the raw bytes of a qualified name, read as UTF-8 with invalid
/// sequences replaced, at the first `:`. On valid UTF-8 the prefix, a `:`
/// and the local name encode back to the bytes given.
pub fn split_qname(raw: &[u8]) -> (r: OwnedName)
    ensures
        r@ == qname(raw@),
        valid_utf8(raw@) ==> encode_utf8(joined_name(r@)) == raw@,
        match r@.prefix {
            Some(p) => !p.contains(':'),
            None => !r@.local_name.contains(':'),
        },
{
    let text = lossy_text(raw);
    proof {
        crate::reader_laws::law_split_name_rejoins(text@);
        if valid_utf8(raw@) {
            decode_utf8_encode_utf8(raw@);
        }
    }
    split_name_text(text)
}

// ---------------------------------------------------------------------------
// Raw events, as the tokenizer reports them
// ---------------------------------------------------------------------------

/// An attribute as the tokenizer found it in a tag: the raw bytes of its key
/// and of its still escaped value.
pub struct RawAttribute {
    pub key: Vec<u8>,
    pub value: Vec<u8>,
}

/// A start or empty tag as the tokenizer found it: the raw bytes of its
/// qualified name, its attributes in order, and the error at which the
/// tokenizer stopped listing attributes, if it stopped at one.
pub struct RawTag {
    pub name: Vec<u8>,
    pub attributes: Vec<RawAttribute>,
    pub malformed: Option<AttrError>,
}

/// One event of the tokenizer, with its content as raw bytes.
pub enum RawEvent {
    Start(RawTag),
    Empty(RawTag),
    End(Vec<u8>),
    /// Escaped character data.
    Text(Vec<u8>),
    /// The content of a `<![CDATA[...]]>` section.
    CData(Vec<u8>),
    /// The name of a general reference `&name;` met in character data.
    GeneralRef(Vec<u8>),
    Eof,
    /// A declaration, processing instruction, comment or document type.
    Ignored,
}

pub struct TagModel {
    pub name: Seq<u8>,
    pub attributes: Seq<(Seq<u8>, Seq<u8>)>,
    pub malformed: bool,
}

pub enum RawModel {
    Start(TagModel),
    Empty(TagModel),
    End(Seq<u8>),
    Text(Seq<u8>),
    CData(Seq<u8>),
    GeneralRef(Seq<u8>),
    Eof,
    Ignored,
}

impl View for RawAttribute {
    type V = (Seq<u8>, Seq<u8>);

    open spec fn view(&self) -> (Seq<u8>, Seq<u8>) {
        (self.key@, self.value@)
    }
}

impl View for RawTag {
    type V = TagModel;

    open spec fn view(&self) -> TagModel {
        TagModel {
            name: self.name@,
            attributes: self.attributes@.map_values(|a: RawAttribute| a@),
            malformed: self.malformed is Some,
        }
    }
}

impl View for RawEvent {
    type V = RawModel;

    open spec fn view(&self) -> RawModel {
        match self {
            RawEvent::Start(t) => RawModel::Start(t@),
            RawEvent::Empty(t) => RawModel::Empty(t@),
            RawEvent::End(n) => RawModel::End(n@),
            RawEvent::Text(b) => RawModel::Text(b@),
            RawEvent::CData(b) => RawModel::CData(b@),
            RawEvent::GeneralRef(b) => RawModel::GeneralRef(b@),
            RawEvent::Eof => RawModel::Eof,
            RawEvent::Ignored => RawModel::Ignored,
        }
    }
}

/// The error at which the tokenizer stopped listing the attributes of a
/// start or empty tag.
pub open spec fn malformed_tag(raw: RawEvent) -> Option<AttrError> {
    match raw {
        RawEvent::Start(t) => t.malformed,
        RawEvent::Empty(t) => t.malformed,
        _ => None,
    }
}

/// Why an event could not be made from what the tokenizer reported.
pub enum ReadError {
    /// Bytes that are not valid UTF-8.
    Encoding(EncodingError),
    /// Text that `quick_xml` refuses to unescape.
    Escape(EscapeError),
    /// An attribute that the tokenizer could not split off.
    Attribute(AttrError),
}

pub enum ErrorKind {
    Encoding,
    Escape,
    Attribute,
}

pub open spec fn error_kind(e: ReadError) -> ErrorKind {
    match e {
        ReadError::Encoding(_) => ErrorKind::Encoding,
        ReadError::Escape(_) => ErrorKind::Escape,
        ReadError::Attribute(_) => ErrorKind::Attribute,
    }
}

// ---------------------------------------------------------------------------
// What an event is made of
// ---------------------------------------------------------------------------

/// One attribute: its name split, its value decoded and unescaped.
pub open spec fn attribute_result(raw: (Seq<u8>, Seq<u8>)) -> Result<AttributeModel, ErrorKind> {
    match utf8_text(raw.1) {
        None => Err(ErrorKind::Encoding),
        Some(v) => match xml_unescape(v) {
            None => Err(ErrorKind::Escape),
            Some(u) => Ok(AttributeModel { name: qname(raw.0), value: u }),
        },
    }
}

/// The first `n` attributes, or the error of the first one that fails.
pub open spec fn attributes_prefix(raws: Seq<(Seq<u8>, Seq<u8>)>, n: nat) -> Result<
    Seq<AttributeModel>,
    ErrorKind,
>
    decreases n,
{
    if n == 0 {
        Ok(Seq::empty())
    } else {
        match attributes_prefix(raws, (n - 1) as nat) {
            Err(e) => Err(e),
            Ok(done) => match attribute_result(raws[n - 1]) {
                Ok(a) => Ok(done.push(a)),
                Err(e) => Err(e),
            },
        }
    }
}

/// All attributes of a tag; a tag whose attribute list broke off fails
/// once the attributes before the break have been made.
pub open spec fn tag_attributes(tag: TagModel) -> Result<Seq<AttributeModel>, ErrorKind> {
    match attributes_prefix(tag.attributes, tag.attributes.len()) {
        Ok(all) => if tag.malformed {
            Err(ErrorKind::Attribute)
        } else {
            Ok(all)
        },
        Err(e) => Err(e),
    }
}

/// The start event of a tag.
pub open spec fn start_event(tag: TagModel) -> Result<EventModel, ErrorKind> {
    match tag_attributes(tag) {
        Ok(attributes) => Ok(
            EventModel::Start {
                name: qname(tag.name),
                attributes,
                namespace: Seq::empty(),
            },
        ),
        Err(e) => Err(e),
    }
}

/// The text that a general reference `&name;` stands for: what `quick_xml`
/// resolves it to, or the reference as written where it resolves nothing.
pub open spec fn reference_text(name: Seq<char>) -> Seq<char> {
    let entity = seq!['&'] + name + seq![';'];
    match xml_unescape(entity) {
        Some(r) => r,
        None => entity,
    }
}

/// The characters that a piece of character data adds to the current run.
pub open spec fn text_piece(raw: RawModel) -> Result<Seq<char>, ErrorKind> {
    match raw {
        RawModel::Text(b) => match utf8_text(b) {
            None => Err(ErrorKind::Encoding),
            Some(t) => match xml_unescape(t) {
                None => Err(ErrorKind::Escape),
                Some(u) => Ok(u),
            },
        },
        RawModel::GeneralRef(b) => match utf8_text(b) {
            None => Err(ErrorKind::Encoding),
            Some(n) => Ok(reference_text(n)),
        },
        _ => Ok(Seq::empty()),
    }
}

pub open spec fn is_text_piece(raw: RawModel) -> bool {
    raw is Text || raw is GeneralRef
}


// ---------------------------------------------------------------------------
// The reader's state and its decisions
// ---------------------------------------------------------------------------

/// What the event reader keeps between two raw events: the events already
/// made but not yet handed out, the text of the current run, and whether the
/// stream has been read to its end.
pub struct EventReaderState {
    pending: VecDeque<XmlEvent>,
    text: Option<String>,
    finished: bool,
}

pub struct ReaderModel {
    pub pending: Seq<EventModel>,
    pub text: Option<Seq<char>>,
    pub finished: bool,
}

pub open spec fn events_view(events: Seq<XmlEvent>) -> Seq<EventModel> {
    events.map_values(|e: XmlEvent| e@)
}

impl View for EventReaderState {
    type V = ReaderModel;

    closed spec fn view(&self) -> ReaderModel {
        ReaderModel {
            pending: events_view(self.pending@),
            text: opt_text(self.text),
            finished: self.finished,
        }
    }
}

pub open spec fn opt_event(e: Option<XmlEvent>) -> Option<EventModel> {
    match e {
        Some(ev) => Some(ev@),
        None => None,
    }
}

/// What a call of `feed` came to: an error, nothing yet, or an event.
pub open spec fn outcome(r: Result<Option<XmlEvent>, ReadError>) -> Result<Option<EventModel>, ErrorKind> {
    match r {
        Ok(e) => Ok(opt_event(e)),
        Err(e) => Err(error_kind(e)),
    }
}

/// A fresh reader.
pub open spec fn initial_model() -> ReaderModel {
    ReaderModel { pending: Seq::empty(), text: None, finished: false }
}

/// Beginning a read: an event already made is handed out first; otherwise
/// a new run of text starts.
pub open spec fn begin_model(s: ReaderModel) -> (ReaderModel, Option<EventModel>) {
    if s.pending.len() > 0 {
        (ReaderModel { pending: s.pending.drop_first(), ..s }, Some(s.pending[0]))
    } else {
        (ReaderModel { text: None, ..s }, None)
    }
}

/// A structural event ends the current run: a run of text is handed out
/// first and the structural event waits at the front of the pending events.
pub open spec fn emit_model(s: ReaderModel, boundary: EventModel) -> (ReaderModel, EventModel) {
    match s.text {
        Some(t) => (ReaderModel { pending: seq![boundary] + s.pending, text: None, ..s }, classified(t)),
        None => (ReaderModel { text: None, ..s }, boundary),
    }
}

pub open spec fn appended(text: Option<Seq<char>>, piece: Seq<char>) -> Option<Seq<char>> {
    match text {
        Some(t) => Some(t + piece),
        None => Some(piece),
    }
}

/// One raw event taken in: the next state, and an error, nothing yet (the
/// run of text goes on, or the event is ignored), or the event to hand out.
pub open spec fn feed_model(s: ReaderModel, raw: RawModel) -> (ReaderModel, Result<Option<EventModel>, ErrorKind>) {
    match raw {
        RawModel::Text(_) | RawModel::GeneralRef(_) => match text_piece(raw) {
            Ok(p) => (ReaderModel { text: appended(s.text, p), ..s }, Ok(None)),
            Err(e) => (s, Err(e)),
        },
        RawModel::Start(tag) => match start_event(tag) {
            Ok(start) => {
                let (s2, out) = emit_model(s, start);
                (s2, Ok(Some(out)))
            },
            Err(e) => (s, Err(e)),
        },
        RawModel::Empty(tag) => match start_event(tag) {
            Ok(start) => {
                let s1 = ReaderModel {
                    pending: s.pending.push(EventModel::End { name: qname(tag.name) }),
                    ..s
                };
                let (s2, out) = emit_model(s1, start);
                (s2, Ok(Some(out)))
            },
            Err(e) => (s, Err(e)),
        },
        RawModel::End(name) => {
            let (s2, out) = emit_model(s, EventModel::End { name: qname(name) });
            (s2, Ok(Some(out)))
        },
        RawModel::CData(b) => match utf8_text(b) {
            Some(t) => {
                let (s2, out) = emit_model(s, EventModel::Characters(t));
                (s2, Ok(Some(out)))
            },
            None => (s, Err(ErrorKind::Encoding)),
        },
        RawModel::Eof => match s.text {
            Some(t) => (
                ReaderModel { pending: seq![EventModel::EndDocument] + s.pending, text: None, ..s },
                Ok(Some(classified(t))),
            ),
            None => (ReaderModel { finished: true, ..s }, Ok(Some(EventModel::EndDocument))),
        },
        RawModel::Ignored => (s, Ok(None)),
    }
}

proof fn lemma_events_view_push(events: Seq<XmlEvent>, e: XmlEvent)
    ensures
        events_view(events.push(e)) == events_view(events).push(e@),
{
    assert(events_view(events.push(e)) =~= events_view(events).push(e@));
}

proof fn lemma_events_view_cons(e: XmlEvent, events: Seq<XmlEvent>)
    ensures
        events_view(seq![e] + events) == seq![e@] + events_view(events),
{
    assert(events_view(seq![e] + events) =~= seq![e@] + events_view(events));
}

proof fn lemma_events_view_drop_first(events: Seq<XmlEvent>)
    requires
        events.len() > 0,
    ensures
        events_view(events.drop_first()) == events_view(events).drop_first(),
        events_view(events)[0] == events[0]@,
{
    assert(events_view(events.drop_first()) =~= events_view(events).drop_first());
}

proof fn lemma_attributes_view_push(attributes: Seq<OwnedAttribute>, a: OwnedAttribute)
    ensures
        attributes_view(attributes.push(a)) == attributes_view(attributes).push(a@),
{
    assert(attributes_view(attributes.push(a)) =~= attributes_view(attributes).push(a@));
}

/// Decodes and unescapes the value of one attribute and splits its name.
fn build_attribute(raw: &RawAttribute, decoder: &Decoder) -> (r: Result<OwnedAttribute, ReadError>)
    ensures
        match (r, attribute_result(raw@)) {
            (Ok(a), Ok(m)) => a@ == m,
            (Err(e), Err(k)) => error_kind(e) == k,
            _ => false,
        },
{
    let decoded = match decode_bytes(decoder, raw.value.as_slice()) {
        Ok(d) => d,
        Err(e) => return Err(ReadError::Encoding(e)),
    };
    let value = match unescape(decoded.as_str()) {
        Ok(v) => v,
        Err(e) => return Err(ReadError::Escape(e)),
    };
    let name = split_qname(raw.key.as_slice());
    Ok(OwnedAttribute { name, value })
}

/// The attributes of a tag, in order.
fn build_attributes(tag: RawTag, decoder: &Decoder) -> (r: Result<Vec<OwnedAttribute>, ReadError>)
    ensures
        match (r, tag_attributes(tag@)) {
            (Ok(v), Ok(m)) => attributes_view(v@) == m,
            (Err(e), Err(k)) => error_kind(e) == k,
            _ => false,
        },
        r matches Err(ReadError::Attribute(e)) ==> tag.malformed == Some(e),
{
    let ghost raws = tag@.attributes;
    let mut attributes: Vec<OwnedAttribute> = Vec::new();
    let n = tag.attributes.len();
    let mut i: usize = 0;
    assert(attributes_view(attributes@) =~= Seq::<AttributeModel>::empty());
    while i < n
        invariant
            n == tag.attributes@.len(),
            raws == tag@.attributes,
            i <= n,
            attributes_prefix(raws, i as nat) == Ok::<Seq<AttributeModel>, ErrorKind>(
                attributes_view(attributes@),
            ),
        decreases n - i,
    {
        assert(raws[i as int] == tag.attributes@[i as int]@);
        match build_attribute(&tag.attributes[i], decoder) {
            Ok(a) => {
                proof {
                    lemma_attributes_view_push(attributes@, a);
                }
                attributes.push(a);
            },
            Err(e) => {
                proof {
                    lemma_attributes_prefix_err(raws, (i + 1) as nat, n as nat);
                }
                return Err(e);
            },
        }
        i = i + 1;
    }
    match tag.malformed {
        Some(e) => Err(ReadError::Attribute(e)),
        None => Ok(attributes),
    }
}

proof fn lemma_attributes_prefix_err(raws: Seq<(Seq<u8>, Seq<u8>)>, k: nat, n: nat)
    requires
        k <= n,
        attributes_prefix(raws, k) is Err,
    ensures
        attributes_prefix(raws, n) == attributes_prefix(raws, k),
    decreases n - k,
{
    if k < n {
        lemma_attributes_prefix_err(raws, k, (n - 1) as nat);
    }
}


/// The start event of a tag: its name split, its attributes made.
fn build_start_event(tag: RawTag, decoder: &Decoder) -> (r: Result<XmlEvent, ReadError>)
    ensures
        match (r, start_event(tag@)) {
            (Ok(e), Ok(m)) => e@ == m && e is StartElement,
            (Err(e), Err(k)) => error_kind(e) == k,
            _ => false,
        },
        r matches Err(ReadError::Attribute(e)) ==> tag.malformed == Some(e),
{
    let name = split_qname(tag.name.as_slice());
    match build_attributes(tag, decoder) {
        Ok(attributes) => Ok(XmlEvent::StartElement { name, attributes, namespace: Namespace::empty() }),
        Err(e) => Err(e),
    }
}

/// The text that the general reference with the given raw name stands for.
fn resolve_reference(reference: &[u8], decoder: &Decoder) -> (r: Result<String, ReadError>)
    ensures
        match (r, utf8_text(reference@)) {
            (Ok(t), Some(n)) => t@ == reference_text(n),
            (Err(e), None) => error_kind(e) == ErrorKind::Encoding,
            _ => false,
        },
{
    let name = match decode_bytes(decoder, reference) {
        Ok(n) => n,
        Err(e) => return Err(ReadError::Encoding(e)),
    };
    let entity = String::from_str("&").concat(name.as_str()).concat(";");
    proof {
        reveal_strlit("&");
        reveal_strlit(";");
        assert(entity@ =~= seq!['&'] + name@ + seq![';']);
    }
    let unescaped = unescape(entity.as_str());
    Ok(resolved_or_entity(entity, unescaped))
}

/// A reference as `quick_xml` resolved it, or as written where it could
/// not resolve it, so that later escape handling can still see it.
pub fn resolved_or_entity(entity: String, unescaped: Result<String, EscapeError>) -> (r: String)
    ensures
        match unescaped {
            Ok(t) => r@ == t@,
            Err(_) => r@ == entity@,
        },
{
    match unescaped {
        Ok(resolved) => resolved,
        Err(_) => entity,
    }
}

impl EventReaderState {
    /// A reader that has made no event yet.
    pub fn new() -> (r: Self)
        ensures
            r@ == initial_model(),
    {
        let r = EventReaderState { pending: VecDeque::new(), text: None, finished: false };
        assert(r@.pending =~= Seq::<EventModel>::empty());
        r
    }

    /// The stream has been read to its end, or broke off with an error.
    pub fn is_finished(&self) -> (b: bool)
        ensures
            b == self@.finished,
    {
        self.finished
    }

    /// Begins a read: hands out an event made earlier, if there is one, and
    /// otherwise starts a new run of text, to be fed raw events.
    pub fn begin(&mut self) -> (r: Option<XmlEvent>)
        ensures
            (final(self)@, opt_event(r)) == begin_model(old(self)@),
    {
        let ghost before = self.pending@;
        match self.pending.pop_front() {
            Some(e) => {
                proof {
                    lemma_events_view_drop_first(before);
                    assert(self.pending@ == before.drop_first());
                }
                Some(e)
            },
            None => {
                self.text = None;
                None
            },
        }
    }

    /// Ends the current run of text at a structural event.
    fn emit(&mut self, boundary: XmlEvent) -> (r: XmlEvent)
        ensures
            (final(self)@, r@) == emit_model(old(self)@, boundary@),
    {
        match self.text.take() {
            Some(t) => {
                proof {
                    lemma_events_view_cons(boundary, self.pending@);
                }
                self.pending.push_front(boundary);
                classify_text(t)
            },
            None => boundary,
        }
    }

    fn append_text(&mut self, piece: String)
        ensures
            final(self)@ == (ReaderModel { text: appended(old(self)@.text, piece@), ..old(self)@ }),
    {
        match self.text.take() {
            Some(mut t) => {
                t.append(piece.as_str());
                self.text = Some(t);
            },
            None => {
                self.text = Some(piece);
            },
        }
    }

    /// Takes in one raw event: character data extends the current run of
    /// text; a start, empty or end tag, a CDATA section and the end of input
    /// end it, so that the run comes out as one event before them; an empty
    /// tag is followed by its end tag.
    pub fn feed(&mut self, raw: RawEvent, decoder: &Decoder) -> (r: Result<Option<XmlEvent>, ReadError>)
        ensures
            (final(self)@, outcome(r)) == feed_model(old(self)@, raw@),
            r matches Err(ReadError::Attribute(e)) ==> malformed_tag(raw) == Some(e),
    {
        let ghost raw_model = raw@;
        match raw {
            RawEvent::Text(bytes) => {
                let decoded = match decode_bytes(decoder, bytes.as_slice()) {
                    Ok(d) => d,
                    Err(e) => return Err(ReadError::Encoding(e)),
                };
                let unescaped = match unescape(decoded.as_str()) {
                    Ok(u) => u,
                    Err(e) => return Err(ReadError::Escape(e)),
                };
                self.append_text(unescaped);
                Ok(None)
            },
            RawEvent::GeneralRef(bytes) => {
                let piece = match resolve_reference(bytes.as_slice(), decoder) {
                    Ok(p) => p,
                    Err(e) => return Err(e),
                };
                self.append_text(piece);
                Ok(None)
            },
            RawEvent::Start(tag) => {
                let start = match build_start_event(tag, decoder) {
                    Ok(s) => s,
                    Err(e) => return Err(e),
                };
                Ok(Some(self.emit(start)))
            },
            RawEvent::Empty(tag) => {
                let start = match build_start_event(tag, decoder) {
                    Ok(s) => s,
                    Err(e) => return Err(e),
                };
                match &start {
                    XmlEvent::StartElement { name, .. } => {
                        let end = XmlEvent::EndElement { name: name.clone() };
                        proof {
                            lemma_events_view_push(self.pending@, end);
                        }
                        self.pending.push_back(end);
                    },
                    _ => {},
                }
                Ok(Some(self.emit(start)))
            },
            RawEvent::End(name) => {
                let name = split_qname(name.as_slice());
                Ok(Some(self.emit(XmlEvent::EndElement { name })))
            },
            RawEvent::CData(bytes) => {
                let decoded = match decode_bytes(decoder, bytes.as_slice()) {
                    Ok(d) => d,
                    Err(e) => return Err(ReadError::Encoding(e)),
                };
                Ok(Some(self.emit(XmlEvent::Characters(decoded))))
            },
            RawEvent::Eof => match self.text.take() {
                Some(t) => {
                    proof {
                        lemma_events_view_cons(XmlEvent::EndDocument, self.pending@);
                    }
                    self.pending.push_front(XmlEvent::EndDocument);
                    Ok(Some(classify_text(t)))
                },
                None => {
                    self.finished = true;
                    Ok(Some(XmlEvent::EndDocument))
                },
            },
            RawEvent::Ignored => Ok(None),
        }
    }

    /// Records how a step of iteration ended: the end of the document or
    /// an error finishes the stream. Gives the result back.
    pub fn conclude<E>(&mut self, r: Result<XmlEvent, E>) -> (out: Result<XmlEvent, E>)
        ensures
            out == r,
            final(self)@ == (ReaderModel {
                finished: old(self)@.finished || r is Err || (r matches Ok(e) && e is EndDocument),
                ..old(self)@
            }),
    {
        match &r {
            Ok(XmlEvent::EndDocument) => {
                self.finished = true;
            },
            Err(_) => {
                self.finished = true;
            },
            _ => {},
        }
        r
    }
}


} // verus!

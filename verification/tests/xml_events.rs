use docx_rs::xml_parser::{
    classify_text, split_qname, EventReaderState, Namespace, OwnedAttribute, OwnedName,
    RawAttribute, RawEvent, RawTag, ReadError, XmlEvent,
};
use quick_xml::encoding::Decoder;
use quick_xml::events::attributes::AttrError;
use quick_xml::events::Event;
use quick_xml::Reader;

fn decoder() -> Decoder {
    Reader::from_str("").decoder()
}

fn name(prefix: Option<&str>, local: &str) -> OwnedName {
    OwnedName {
        local_name: local.to_string(),
        namespace: None,
        prefix: prefix.map(|p| p.to_string()),
    }
}

fn tag(qname: &str, attrs: &[(&str, &str)]) -> RawTag {
    RawTag {
        name: qname.as_bytes().to_vec(),
        attributes: attrs
            .iter()
            .map(|(k, v)| RawAttribute { key: k.as_bytes().to_vec(), value: v.as_bytes().to_vec() })
            .collect(),
        malformed: None,
    }
}

/// Runs the reader's decisions over raw events as a tokenizer would hand
/// them in, collecting what each read gives.
fn read_all(raws: Vec<RawEvent>) -> Vec<Result<XmlEvent, String>> {
    let d = decoder();
    let mut state = EventReaderState::new();
    let mut raws = raws.into_iter();
    let mut out = Vec::new();
    while !state.is_finished() {
        let r = match state.begin() {
            Some(e) => Ok(e),
            None => loop {
                let raw = raws.next().unwrap_or(RawEvent::Eof);
                match state.feed(raw, &d) {
                    Ok(Some(e)) => break Ok(e),
                    Ok(None) => {}
                    Err(e) => break Err(format!("{}", kind(&e))),
                }
            },
        };
        out.push(state.conclude(r));
    }
    out
}

fn kind(e: &ReadError) -> &'static str {
    match e {
        ReadError::Encoding(_) => "encoding",
        ReadError::Escape(_) => "escape",
        ReadError::Attribute(_) => "attribute",
    }
}

/// Tokenizes a document with `quick_xml`, configured as the reader is, and
/// runs the reader's decisions over it.
fn parse(xml: &str) -> Vec<Result<XmlEvent, String>> {
    let mut reader = Reader::from_reader(xml.as_bytes());
    {
        let config = reader.config_mut();
        config.trim_text(false);
        config.check_end_names = true;
        config.expand_empty_elements = false;
    }
    let mut raws = Vec::new();
    let mut buf = Vec::new();
    loop {
        buf.clear();
        let ev = reader.read_event_into(&mut buf).expect("well-formed test input");
        let raw = match ev {
            Event::Start(e) => RawEvent::Start(raw_tag(&e)),
            Event::Empty(e) => RawEvent::Empty(raw_tag(&e)),
            Event::End(e) => RawEvent::End(e.name().as_ref().to_vec()),
            Event::Text(t) => RawEvent::Text(t.as_ref().to_vec()),
            Event::CData(c) => RawEvent::CData(c.as_ref().to_vec()),
            Event::GeneralRef(r) => RawEvent::GeneralRef(r.as_ref().to_vec()),
            Event::Eof => RawEvent::Eof,
            _ => RawEvent::Ignored,
        };
        let end = matches!(raw, RawEvent::Eof);
        raws.push(raw);
        if end {
            break;
        }
    }
    read_all(raws)
}

fn raw_tag(e: &quick_xml::events::BytesStart<'_>) -> RawTag {
    let mut attributes = Vec::new();
    let mut malformed = None;
    for a in e.attributes().with_checks(false) {
        match a {
            Ok(a) => attributes.push(RawAttribute {
                key: a.key.as_ref().to_vec(),
                value: a.value.as_ref().to_vec(),
            }),
            Err(err) => {
                malformed = Some(err);
                break;
            }
        }
    }
    RawTag { name: e.name().as_ref().to_vec(), attributes, malformed }
}

#[test]
fn classify_whitespace_and_characters() {
    assert_eq!(classify_text(" \t\n\r".to_string()), XmlEvent::Whitespace(" \t\n\r".to_string()));
    assert_eq!(classify_text("\u{3000}\u{a0}".to_string()), XmlEvent::Whitespace("\u{3000}\u{a0}".to_string()));
    assert_eq!(classify_text(String::new()), XmlEvent::Whitespace(String::new()));
    assert_eq!(classify_text(" a ".to_string()), XmlEvent::Characters(" a ".to_string()));
    assert_eq!(classify_text("\u{200b}".to_string()), XmlEvent::Characters("\u{200b}".to_string()));
}

#[test]
fn split_qname_at_first_colon() {
    assert_eq!(split_qname(b"w:altChunk"), name(Some("w"), "altChunk"));
    assert_eq!(split_qname(b"id"), name(None, "id"));
    assert_eq!(split_qname(b"a:b:c"), name(Some("a"), "b:c"));
    assert_eq!(split_qname(b":x"), name(Some(""), "x"));
    assert_eq!(split_qname(b"p\xffq:r"), name(Some("p\u{fffd}q"), "r"));
}

#[test]
fn namespace_empty_has_no_mappings() {
    assert!(Namespace::empty().into_mappings().is_empty());
    assert_eq!(Namespace::empty(), Namespace::default());
}

#[test]
fn text_run_with_references_is_one_event() {
    let events = read_all(vec![
        RawEvent::Start(tag("w:t", &[])),
        RawEvent::Text(b"a ".to_vec()),
        RawEvent::GeneralRef(b"amp".to_vec()),
        RawEvent::Ignored,
        RawEvent::Text(b" b".to_vec()),
        RawEvent::GeneralRef(b"#9".to_vec()),
        RawEvent::GeneralRef(b"nbsp".to_vec()),
        RawEvent::End(b"w:t".to_vec()),
    ]);
    assert_eq!(
        events,
        vec![
            Ok(XmlEvent::StartElement { name: name(Some("w"), "t"), attributes: vec![], namespace: Namespace::empty() }),
            Ok(XmlEvent::Characters("a & b\t&nbsp;".to_string())),
            Ok(XmlEvent::EndElement { name: name(Some("w"), "t") }),
            Ok(XmlEvent::EndDocument),
        ]
    );
}

#[test]
fn empty_element_is_start_then_end() {
    let events = read_all(vec![RawEvent::Empty(tag("w:altChunk", &[("r:id", "rId5")]))]);
    assert_eq!(
        events,
        vec![
            Ok(XmlEvent::StartElement {
                name: name(Some("w"), "altChunk"),
                attributes: vec![OwnedAttribute { name: name(Some("r"), "id"), value: "rId5".to_string() }],
                namespace: Namespace::empty(),
            }),
            Ok(XmlEvent::EndElement { name: name(Some("w"), "altChunk") }),
            Ok(XmlEvent::EndDocument),
        ]
    );
}

#[test]
fn trailing_text_then_end_of_document() {
    let events = read_all(vec![RawEvent::Text(b"  ".to_vec()), RawEvent::Eof]);
    assert_eq!(
        events,
        vec![Ok(XmlEvent::Whitespace("  ".to_string())), Ok(XmlEvent::EndDocument)]
    );
}

#[test]
fn text_before_empty_element_comes_first() {
    let events = read_all(vec![RawEvent::Text(b"x".to_vec()), RawEvent::Empty(tag("br", &[]))]);
    assert_eq!(
        events,
        vec![
            Ok(XmlEvent::Characters("x".to_string())),
            Ok(XmlEvent::StartElement { name: name(None, "br"), attributes: vec![], namespace: Namespace::empty() }),
            Ok(XmlEvent::EndElement { name: name(None, "br") }),
            Ok(XmlEvent::EndDocument),
        ]
    );
}

#[test]
fn cdata_is_characters_and_ends_a_run() {
    let events = read_all(vec![RawEvent::Text(b" ".to_vec()), RawEvent::CData(b"<a&b>".to_vec())]);
    assert_eq!(
        events,
        vec![
            Ok(XmlEvent::Whitespace(" ".to_string())),
            Ok(XmlEvent::Characters("<a&b>".to_string())),
            Ok(XmlEvent::EndDocument),
        ]
    );
}

#[test]
fn attribute_values_are_unescaped() {
    let events = read_all(vec![RawEvent::Start(tag("a", &[("x", "1 &lt; 2"), ("y:z", "&#x41;")]))]);
    assert_eq!(
        events[0],
        Ok(XmlEvent::StartElement {
            name: name(None, "a"),
            attributes: vec![
                OwnedAttribute { name: name(None, "x"), value: "1 < 2".to_string() },
                OwnedAttribute { name: name(Some("y"), "z"), value: "A".to_string() },
            ],
            namespace: Namespace::empty(),
        })
    );
}

#[test]
fn invalid_utf8_text_fails() {
    let events = read_all(vec![RawEvent::Text(vec![0x61, 0xff])]);
    assert_eq!(events, vec![Err("encoding".to_string())]);
}

#[test]
fn unknown_entity_in_text_fails() {
    let events = read_all(vec![RawEvent::Text(b"a &nope; b".to_vec())]);
    assert_eq!(events, vec![Err("escape".to_string())]);
}

#[test]
fn bad_attribute_value_fails() {
    let events = read_all(vec![RawEvent::Start(tag("a", &[("x", "&bogus;")]))]);
    assert_eq!(events, vec![Err("escape".to_string())]);
}

#[test]
fn broken_attribute_list_fails_after_good_ones() {
    let mut t = tag("a", &[("x", "1")]);
    t.malformed = Some(AttrError::ExpectedEq(4));
    assert_eq!(read_all(vec![RawEvent::Start(t)]), vec![Err("attribute".to_string())]);
    let mut t = tag("a", &[("x", "\u{0}")]);
    t.attributes[0].value = vec![0xc3];
    t.malformed = Some(AttrError::ExpectedEq(4));
    assert_eq!(read_all(vec![RawEvent::Start(t)]), vec![Err("encoding".to_string())]);
}

#[test]
fn end_of_document_finishes_the_reader() {
    let d = decoder();
    let mut state = EventReaderState::new();
    assert!(state.begin().is_none());
    assert_eq!(state.feed(RawEvent::Eof, &d).ok(), Some(Some(XmlEvent::EndDocument)));
    assert!(state.is_finished());
    assert!(state.begin().is_none());
    assert_eq!(state.feed(RawEvent::Text(b"late".to_vec()), &d).ok(), Some(None));
    assert!(state.is_finished());
    let r: Result<XmlEvent, ()> = Ok(XmlEvent::Characters("x".to_string()));
    assert_eq!(state.conclude(r), Ok(XmlEvent::Characters("x".to_string())));
    assert!(state.is_finished());
}

#[test]
fn error_finishes_iteration() {
    let mut state = EventReaderState::new();
    let r: Result<XmlEvent, &str> = Err("broken");
    assert_eq!(state.conclude(r), Err("broken"));
    assert!(state.is_finished());
    let mut state = EventReaderState::new();
    let r: Result<XmlEvent, &str> = Ok(XmlEvent::Whitespace(" ".to_string()));
    assert!(state.conclude(r).is_ok());
    assert!(!state.is_finished());
}

#[test]
fn parses_a_document_with_quick_xml() {
    let xml = r#"<?xml version="1.0"?><w:body><w:p>Tom &amp; Jerry<!-- c --> run</w:p><w:altChunk r:id="rIdChunk"/>
</w:body>"#;
    let events = parse(xml);
    assert_eq!(
        events,
        vec![
            Ok(XmlEvent::StartElement { name: name(Some("w"), "body"), attributes: vec![], namespace: Namespace::empty() }),
            Ok(XmlEvent::StartElement { name: name(Some("w"), "p"), attributes: vec![], namespace: Namespace::empty() }),
            Ok(XmlEvent::Characters("Tom & Jerry run".to_string())),
            Ok(XmlEvent::EndElement { name: name(Some("w"), "p") }),
            Ok(XmlEvent::StartElement {
                name: name(Some("w"), "altChunk"),
                attributes: vec![OwnedAttribute { name: name(Some("r"), "id"), value: "rIdChunk".to_string() }],
                namespace: Namespace::empty(),
            }),
            Ok(XmlEvent::EndElement { name: name(Some("w"), "altChunk") }),
            Ok(XmlEvent::Whitespace("\n".to_string())),
            Ok(XmlEvent::EndElement { name: name(Some("w"), "body") }),
            Ok(XmlEvent::EndDocument),
        ]
    );
}

#[test]
fn cdata_next_to_a_run_is_the_only_adjacent_text() {
    let events = parse("<a><![CDATA[x]]>y<![CDATA[z]]></a>");
    assert_eq!(
        events,
        vec![
            Ok(XmlEvent::StartElement { name: name(None, "a"), attributes: vec![], namespace: Namespace::empty() }),
            Ok(XmlEvent::Characters("x".to_string())),
            Ok(XmlEvent::Characters("y".to_string())),
            Ok(XmlEvent::Characters("z".to_string())),
            Ok(XmlEvent::EndElement { name: name(None, "a") }),
            Ok(XmlEvent::EndDocument),
        ]
    );
}

#[test]
fn text_split_by_a_comment_stays_one_run() {
    let events = parse("<a>x<!-- c -->y<?pi?>z</a>");
    assert_eq!(events[1], Ok(XmlEvent::Characters("xyz".to_string())));
    assert_eq!(events[2], Ok(XmlEvent::EndElement { name: name(None, "a") }));
}

#[test]
fn start_and_end_events_follow_the_tags() {
    let events = parse("<r><p:a k='v'>t<b/></p:a><c/></r>");
    let structure: Vec<(bool, OwnedName)> = events
        .into_iter()
        .filter_map(|e| match e {
            Ok(XmlEvent::StartElement { name, .. }) => Some((true, name)),
            Ok(XmlEvent::EndElement { name }) => Some((false, name)),
            _ => None,
        })
        .collect();
    assert_eq!(
        structure,
        vec![
            (true, name(None, "r")),
            (true, name(Some("p"), "a")),
            (true, name(None, "b")),
            (false, name(None, "b")),
            (false, name(Some("p"), "a")),
            (true, name(None, "c")),
            (false, name(None, "c")),
            (false, name(None, "r")),
        ]
    );
}

#[test]
fn every_read_after_the_end_gives_the_end_again() {
    let d = decoder();
    let mut state = EventReaderState::new();
    assert!(state.begin().is_none());
    assert_eq!(state.feed(RawEvent::Text(b"tail".to_vec()), &d).ok(), Some(None));
    assert_eq!(state.feed(RawEvent::Eof, &d).ok(), Some(Some(XmlEvent::Characters("tail".to_string()))));
    assert_eq!(state.begin(), Some(XmlEvent::EndDocument));
    for _ in 0..4 {
        assert!(state.begin().is_none());
        assert_eq!(state.feed(RawEvent::Eof, &d).ok(), Some(Some(XmlEvent::EndDocument)));
        assert!(state.is_finished());
    }
}

#[test]
fn split_name_joins_back_to_its_bytes() {
    for raw in [&b"w:val"[..], b"val", b"a:b:c", b":x", "\u{e9}t\u{e9}:\u{e0}".as_bytes()] {
        let n = split_qname(raw);
        let joined = match &n.prefix {
            Some(p) => {
                assert!(!p.contains(':'));
                format!("{}:{}", p, n.local_name)
            }
            None => {
                assert!(!n.local_name.contains(':'));
                n.local_name.clone()
            }
        };
        assert_eq!(joined.as_bytes(), raw);
    }
}

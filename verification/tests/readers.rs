use docx_rs::level::{level_step, LevelAction, LevelReadState, LevelSuffix};
use docx_rs::numberings::{numberings_step, NumberingsAction, NumberingsState};
use docx_rs::reader::{read_bool, read_numeric_attribute, parse_usize, parse_u32, ReaderError};
use docx_rs::run_property::{run_property_step, RunPropertyAction, RunPropertyState};
use docx_rs::styles::{styles_step, StylesRead, StylesStep};
use docx_rs::xml_parser::{
    EventReaderState, OwnedAttribute, OwnedName, RawAttribute, RawEvent, RawTag, XmlEvent,
};
use quick_xml::events::Event;
use quick_xml::Reader;

/// The events a document gives, read with `quick_xml` and the library's
/// reader decisions.
fn events(xml: &str) -> Vec<Result<XmlEvent, String>> {
    let mut reader = Reader::from_reader(xml.as_bytes());
    {
        let config = reader.config_mut();
        config.trim_text(false);
        config.check_end_names = true;
        config.expand_empty_elements = false;
    }
    let d = reader.decoder();
    let mut state = EventReaderState::new();
    let mut out = Vec::new();
    let mut buf = Vec::new();
    while !state.is_finished() {
        let r = match state.begin() {
            Some(e) => Ok(e),
            None => loop {
                buf.clear();
                let ev = reader.read_event_into(&mut buf).expect("well-formed test input");
                let raw = match ev {
                    Event::Start(e) => RawEvent::Start(raw_tag(&e)),
                    Event::Empty(e) => RawEvent::Empty(raw_tag(&e)),
                    Event::End(e) => RawEvent::End(e.name().as_ref().to_vec()),
                    Event::Text(t) => RawEvent::Text(t.as_ref().to_vec()),
                    Event::CData(c) => RawEvent::CData(c.as_ref().to_vec()),
                    Event::GeneralRef(r) => RawEvent::GeneralRef(r.as_ref().to_vec()),
                    Event::Eof => RawEvent::Eof,
                    _ => RawEvent::Ignored,
                };
                match state.feed(raw, &d) {
                    Ok(Some(e)) => break Ok(e),
                    Ok(None) => {}
                    Err(_) => break Err("read error".to_string()),
                }
            },
        };
        out.push(state.conclude(r));
    }
    out
}

fn raw_tag(e: &quick_xml::events::BytesStart<'_>) -> RawTag {
    let attributes = e
        .attributes()
        .with_checks(false)
        .map(|a| {
            let a = a.unwrap();
            RawAttribute { key: a.key.as_ref().to_vec(), value: a.value.as_ref().to_vec() }
        })
        .collect();
    RawTag { name: e.name().as_ref().to_vec(), attributes, malformed: None }
}

/// Hands out the events one by one; past the end, the end of the document.
struct Cursor {
    events: Vec<Result<XmlEvent, String>>,
    at: usize,
}

impl Cursor {
    fn new(xml: &str) -> Cursor {
        Cursor { events: events(xml), at: 0 }
    }

    fn next(&mut self) -> Result<XmlEvent, String> {
        let e = self.events.get(self.at).cloned().unwrap_or(Ok(XmlEvent::EndDocument));
        self.at += 1;
        e
    }

    /// Skips an element whose start tag has been read, up to its end.
    fn skip(&mut self) {
        let mut depth = 1;
        while depth > 0 {
            match self.next() {
                Ok(XmlEvent::StartElement { .. }) => depth += 1,
                Ok(XmlEvent::EndElement { .. }) => depth -= 1,
                Ok(XmlEvent::EndDocument) | Err(_) => return,
                _ => {}
            }
        }
    }
}

fn attrs_of(e: &Result<XmlEvent, String>) -> Vec<OwnedAttribute> {
    match e {
        Ok(XmlEvent::StartElement { attributes, .. }) => attributes.clone(),
        _ => Vec::new(),
    }
}

fn value_of(attrs: &[OwnedAttribute], local: &str) -> Option<String> {
    attrs.iter().find(|a| a.name.local_name == local).map(|a| a.value.clone())
}

/// A level as these tests read it: the library's state, and the `w:left`
/// and `w:hanging` of the indentation met in its paragraph properties.
#[derive(Debug, PartialEq)]
struct Level {
    state: LevelReadState,
    indent: Option<(Option<String>, Option<String>)>,
}

fn read_level(c: &mut Cursor, attrs: &[OwnedAttribute]) -> Result<Level, ReaderError> {
    let mut state = LevelReadState::new(attrs)?;
    let mut indent = None;
    loop {
        let e = c.next();
        let child = attrs_of(&e);
        let (next, action) = level_step(state, &e);
        state = next;
        match action {
            LevelAction::ReadParagraphProperty => loop {
                match c.next() {
                    Ok(XmlEvent::StartElement { name, attributes, .. }) if name.local_name == "ind" => {
                        indent = Some((value_of(&attributes, "left"), value_of(&attributes, "hanging")));
                    }
                    Ok(XmlEvent::EndElement { name }) if name.local_name == "pPr" => break,
                    Ok(XmlEvent::EndDocument) | Err(_) => break,
                    _ => {}
                }
            },
            LevelAction::ReadRunProperty => c.skip(),
            LevelAction::ReadIndent => {
                indent = Some((value_of(&child, "left"), value_of(&child, "hanging")));
            }
            LevelAction::Done => return Ok(Level { state, indent }),
            LevelAction::Fail => return Err(ReaderError::XMLReadError),
            LevelAction::Continue => {}
        }
    }
}

#[derive(Debug, PartialEq)]
struct AbstractNum {
    id: usize,
    style_link: Option<String>,
    num_style_link: Option<String>,
    levels: Vec<Level>,
}

#[derive(Debug, PartialEq)]
struct Num {
    id: usize,
    abstract_num_id: usize,
    overrides: Vec<(Option<String>, Option<String>)>,
}

fn read_numberings(xml: &str) -> Result<(Vec<AbstractNum>, Vec<Num>), ReaderError> {
    let mut c = Cursor::new(xml);
    let mut state = NumberingsState::Top;
    let (mut abstract_nums, mut nums, mut levels, mut overrides) = (vec![], vec![], vec![], vec![]);
    loop {
        let e = c.next();
        let attrs = attrs_of(&e);
        let (next, action) = numberings_step(state, &e);
        state = next;
        match action {
            NumberingsAction::ReadLevel => levels.push(read_level(&mut c, &attrs)?),
            NumberingsAction::ReadLevelOverride => {
                let ilvl = value_of(&attrs, "ilvl");
                let mut start = None;
                loop {
                    match c.next() {
                        Ok(XmlEvent::StartElement { name, attributes, .. }) if name.local_name == "startOverride" => {
                            start = value_of(&attributes, "val");
                        }
                        Ok(XmlEvent::EndElement { name }) if name.local_name == "lvlOverride" => break,
                        _ => {}
                    }
                }
                overrides.push((ilvl, start));
            }
            NumberingsAction::FinishAbstractNum { id, style_link, num_style_link } => {
                abstract_nums.push(AbstractNum { id, style_link, num_style_link, levels: std::mem::take(&mut levels) });
            }
            NumberingsAction::FinishNum { id, abstract_num_id } => {
                nums.push(Num { id, abstract_num_id, overrides: std::mem::take(&mut overrides) });
            }
            NumberingsAction::Done => return Ok((abstract_nums, nums)),
            NumberingsAction::Fail(err) => return Err(err),
            NumberingsAction::Continue => {}
        }
    }
}

fn level(index: usize, start: Option<usize>, format: &str, text: &str, jc: &str) -> LevelReadState {
    LevelReadState {
        level: index,
        style_id: None,
        start,
        format: format.to_string(),
        text: text.to_string(),
        jc: jc.to_string(),
        suffix: LevelSuffix::Tab,
        restart: None,
        is_lgl: false,
    }
}

#[test]
fn test_numberings_from_xml() {
    let xml = r#"<w:numbering xmlns:w="http://schemas.openxmlformats.org/wordprocessingml/2006/main"
            xmlns:w15="http://schemas.microsoft.com/office/word/2012/wordml" >
    <w:abstractNum w:abstractNumId="0" w15:restartNumberingAfterBreak="0">
        <w:multiLevelType w:val="hybridMultilevel"></w:multiLevelType>
        <w:lvl w:ilvl="0" w15:tentative="1">
            <w:start w:val="1"></w:start>
            <w:numFmt w:val="bullet"></w:numFmt>
            <w:lvlText w:val="●"></w:lvlText>
            <w:lvlJc w:val="left"></w:lvlJc>
            <w:pPr>
                <w:ind w:left="720" w:hanging="360"></w:ind>
            </w:pPr>
            <w:rPr></w:rPr>
        </w:lvl>
    </w:abstractNum>
    <w:num w:numId="1">
        <w:abstractNumId w:val="0"></w:abstractNumId>
    </w:num>
</w:numbering>"#;
    let (abs, nums) = read_numberings(xml).unwrap();
    assert_eq!(
        abs,
        vec![AbstractNum {
            id: 0,
            style_link: None,
            num_style_link: None,
            levels: vec![Level {
                state: level(0, Some(1), "bullet", "●", "left"),
                indent: Some((Some("720".to_string()), Some("360".to_string()))),
            }],
        }]
    );
    assert_eq!(nums, vec![Num { id: 1, abstract_num_id: 0, overrides: vec![] }]);
}

#[test]
fn test_numberings_from_xml_with_num_style_link() {
    let xml = r#"<w:numbering xmlns:w="http://schemas.openxmlformats.org/wordprocessingml/2006/main"
            xmlns:w15="http://schemas.microsoft.com/office/word/2012/wordml" >
    <w:abstractNum w:abstractNumId="0">
        <w:multiLevelType w:val="hybridMultilevel"/>
        <w:numStyleLink w:val="style1"/>
    </w:abstractNum>
    <w:num w:numId="1">
        <w:abstractNumId w:val="0"></w:abstractNumId>
    </w:num>
</w:numbering>"#;
    let (abs, nums) = read_numberings(xml).unwrap();
    assert_eq!(
        abs,
        vec![AbstractNum { id: 0, style_link: None, num_style_link: Some("style1".to_string()), levels: vec![] }]
    );
    assert_eq!(nums, vec![Num { id: 1, abstract_num_id: 0, overrides: vec![] }]);
}

#[test]
fn test_numberings_from_xml_with_style_link() {
    let xml = r#"<w:numbering xmlns:w="http://schemas.openxmlformats.org/wordprocessingml/2006/main"
            xmlns:w15="http://schemas.microsoft.com/office/word/2012/wordml" >
    <w:abstractNum w:abstractNumId="0">
        <w:multiLevelType w:val="hybridMultilevel"/>
        <w:styleLink w:val="style1"/>
    </w:abstractNum>
    <w:num w:numId="1">
        <w:abstractNumId w:val="0"></w:abstractNumId>
    </w:num>
</w:numbering>"#;
    let (abs, nums) = read_numberings(xml).unwrap();
    assert_eq!(
        abs,
        vec![AbstractNum { id: 0, style_link: Some("style1".to_string()), num_style_link: None, levels: vec![] }]
    );
    assert_eq!(nums, vec![Num { id: 1, abstract_num_id: 0, overrides: vec![] }]);
}

#[test]
fn test_numberings_from_xml_with_override() {
    let xml = r#"<w:numbering xmlns:w="http://schemas.openxmlformats.org/wordprocessingml/2006/main"
            xmlns:w15="http://schemas.microsoft.com/office/word/2012/wordml" >
    <w:abstractNum w:abstractNumId="0">
        <w:multiLevelType w:val="hybridMultilevel"/>
    </w:abstractNum>
    <w:num w:numId="1">
        <w:abstractNumId w:val="0"></w:abstractNumId>
        <w:lvlOverride w:ilvl="0">
          <w:startOverride w:val="1"/>
        </w:lvlOverride>
        <w:lvlOverride w:ilvl="1">
          <w:startOverride w:val="1"/>
        </w:lvlOverride>
    </w:num>
</w:numbering>"#;
    let (abs, nums) = read_numberings(xml).unwrap();
    assert_eq!(abs, vec![AbstractNum { id: 0, style_link: None, num_style_link: None, levels: vec![] }]);
    let one = Some("1".to_string());
    assert_eq!(
        nums,
        vec![Num {
            id: 1,
            abstract_num_id: 0,
            overrides: vec![(Some("0".to_string()), one.clone()), (Some("1".to_string()), one)],
        }]
    );
}

#[test]
fn test_level_children_without_val_attribute_do_not_panic() {
    let xml = r#"<w:numbering xmlns:w="http://schemas.openxmlformats.org/wordprocessingml/2006/main">
    <w:abstractNum w:abstractNumId="0">
        <w:lvl w:ilvl="0">
            <w:start/>
            <w:numFmt/>
            <w:lvlText/>
            <w:lvlJc/>
            <w:pStyle/>
            <w:lvlRestart/>
            <w:suff/>
        </w:lvl>
    </w:abstractNum>
    <w:num w:numId="1">
        <w:abstractNumId w:val="0"/>
    </w:num>
</w:numbering>"#;
    let (abs, nums) = read_numberings(xml).expect("bare level children parse");
    assert_eq!(
        abs,
        vec![AbstractNum {
            id: 0,
            style_link: None,
            num_style_link: None,
            levels: vec![Level { state: level(0, None, "decimal", "", "left"), indent: None }],
        }]
    );
    assert_eq!(nums, vec![Num { id: 1, abstract_num_id: 0, overrides: vec![] }]);
}

#[test]
fn numbering_ids_that_are_not_numbers_fail() {
    let xml = r#"<w:numbering xmlns:w="x"><w:abstractNum w:abstractNumId="a"></w:abstractNum></w:numbering>"#;
    assert_eq!(read_numberings(xml).err(), Some(ReaderError::NumberParseError));
    let xml = r#"<w:numbering xmlns:w="x"><w:num w:numId="1"><w:abstractNumId w:val="-1"/></w:num></w:numbering>"#;
    assert_eq!(read_numberings(xml).err(), Some(ReaderError::NumberParseError));
}

#[test]
fn missing_ids_default_to_zero_and_bare_links_change_nothing() {
    let xml = r#"<w:numbering xmlns:w="x"><w:abstractNum><w:styleLink/><w:numStyleLink/></w:abstractNum><w:num><w:abstractNumId/></w:num></w:numbering>"#;
    let (abs, nums) = read_numberings(xml).unwrap();
    assert_eq!(abs, vec![AbstractNum { id: 0, style_link: None, num_style_link: None, levels: vec![] }]);
    assert_eq!(nums, vec![Num { id: 0, abstract_num_id: 0, overrides: vec![] }]);
}

#[test]
fn level_values_that_do_not_parse_keep_defaults() {
    let xml = r#"<w:lvl w:ilvl="2"><w:start w:val="x"/><w:lvlRestart w:val="99999999999"/><w:suff w:val="space"/><w:isLgl/><w:pStyle w:val="P"/><w:ind w:left="5"/></w:lvl>"#;
    let mut c = Cursor::new(xml);
    let first = c.next();
    let l = read_level(&mut c, &attrs_of(&first)).unwrap();
    let mut expected = level(2, None, "decimal", "", "left");
    expected.suffix = LevelSuffix::Space;
    expected.is_lgl = true;
    expected.style_id = Some("P".to_string());
    assert_eq!(l, Level { state: expected, indent: Some((Some("5".to_string()), None)) });
}

/// Reads a styles part, where a style is its `w:styleId`, read up to its end.
fn read_styles(xml: &str) -> Result<(Vec<Option<String>>, Option<usize>), ReaderError> {
    let mut c = Cursor::new(xml);
    let mut styles = StylesRead::new();
    let mut n_defaults = 0;
    loop {
        let e = c.next();
        let attrs = attrs_of(&e);
        match styles_step(&e) {
            StylesStep::ReadStyle => {
                styles.add_style(value_of(&attrs, "styleId"));
                c.skip();
            }
            StylesStep::ReadDocDefaults => {
                n_defaults += 1;
                styles.set_doc_defaults(n_defaults);
                c.skip();
            }
            StylesStep::Done => return Ok(styles.into_parts()),
            StylesStep::Fail => return Err(ReaderError::XMLReadError),
            StylesStep::Continue => {}
        }
    }
}

#[test]
fn test_from_xml() {
    let xml = r#"<w:styles xmlns:w="http://schemas.openxmlformats.org/wordprocessingml/2006/main">
    <w:style w:type="character" w:styleId="FootnoteTextChar">
        <w:name w:val="Footnote Text Char"></w:name>
        <w:rPr>
            <w:sz w:val="20"></w:sz>
            <w:szCs w:val="20"></w:szCs>
        </w:rPr>
        <w:uiPriority w:val="99"></w:uiPriority>
        <w:unhideWhenUsed></w:unhideWhenUsed>
        <w:basedOn w:val="DefaultParagraphFont"></w:basedOn>
        <w:link w:val="FootnoteText"></w:link>
        <w:uiPriority w:val="99"></w:uiPriority>
        <w:semiHidden></w:semiHidden>
    </w:style>
</w:styles>"#;
    assert_eq!(read_styles(xml).unwrap(), (vec![Some("FootnoteTextChar".to_string())], None));
}

#[test]
fn test_table_style_jc_without_val_attribute_does_not_panic() {
    let with_bare_jc = r#"<w:styles xmlns:w="http://schemas.openxmlformats.org/wordprocessingml/2006/main">
    <w:style w:type="table" w:styleId="TableNormal">
        <w:name w:val="Normal Table"></w:name>
        <w:tblPr>
            <w:jc/>
        </w:tblPr>
    </w:style>
</w:styles>"#;
    let without_jc = r#"<w:styles xmlns:w="http://schemas.openxmlformats.org/wordprocessingml/2006/main">
    <w:style w:type="table" w:styleId="TableNormal">
        <w:name w:val="Normal Table"></w:name>
        <w:tblPr>
        </w:tblPr>
    </w:style>
</w:styles>"#;
    let bare = read_styles(with_bare_jc).expect("bare table-style jc parses");
    let absent = read_styles(without_jc).expect("absent jc parses");
    assert_eq!(bare, absent);
}

#[test]
fn styles_in_order_and_last_doc_defaults_win() {
    let xml = r#"<w:styles xmlns:w="x"><w:docDefaults/><w:style w:styleId="A"/><w:style w:styleId="B"/><w:docDefaults/></w:styles>"#;
    assert_eq!(read_styles(xml).unwrap(), (vec![Some("A".to_string()), Some("B".to_string())], Some(2)));
    let broken: Result<XmlEvent, String> = Err("broken".to_string());
    assert_eq!(styles_step(&broken), StylesStep::Fail);
}

/// Reads run properties, the nested parts skipped.
fn read_rpr(xml: &str) -> (RunPropertyState, Vec<String>) {
    let mut c = Cursor::new(xml);
    c.next();
    let mut state = RunPropertyState::new();
    let mut actions = Vec::new();
    loop {
        let e = c.next();
        let (next, action) = run_property_step(state, &e);
        state = next;
        match action {
            RunPropertyAction::Done | RunPropertyAction::Fail => return (state, actions),
            RunPropertyAction::SkipElement | RunPropertyAction::ReadShading => {
                actions.push(format!("{:?}", action));
                c.skip();
            }
            RunPropertyAction::Continue => {}
            other => actions.push(format!("{:?}", other)),
        }
    }
}

#[test]
fn run_property_toggles_and_values() {
    let xml = r#"<w:rPr xmlns:w="x"><w:b/><w:i w:val="0"/><w:caps w:val="false"/><w:strike w:val="1"/><w:dstrike w:val="off"/><w:rStyle w:val="Emph"/><w:color w:val="FF0000"/><w:u w:val="single"/><w:highlight w:val="yellow"/><w:vanish/><w:sz w:val="20.5"/><w:spacing w:val="-3"/><w:vertAlign w:val="superscript"/><w:fitText w:val="240" w:id="7"/><w:rFonts w:ascii="Arial"/><w:shd w:fill="auto"></w:shd><w:rPrChange><w:b/></w:rPrChange></w:rPr>"#;
    let (s, actions) = read_rpr(xml);
    assert_eq!(s.bold, Some(true));
    assert_eq!(s.italic, Some(false));
    assert_eq!(s.caps, Some(false));
    assert_eq!(s.strike, Some(true));
    assert_eq!(s.dstrike, Some(true));
    assert_eq!(s.style.as_deref(), Some("Emph"));
    assert_eq!(s.color.as_deref(), Some("FF0000"));
    assert_eq!(s.underline.as_deref(), Some("single"));
    assert_eq!(s.highlight.as_deref(), Some("yellow"));
    assert!(s.vanish);
    assert!(!s.spec_vanish);
    assert_eq!(s.fit_text, Some((240, Some(7))));
    assert_eq!(s.fonts.as_ref().and_then(|f| f.ascii.clone()).as_deref(), Some("Arial"));
    assert_eq!(
        actions,
        vec![
            "SetSize(\"20.5\")".to_string(),
            "SetSpacing(\"-3\")".to_string(),
            "SetVertAlign(\"superscript\")".to_string(),
            "ReadShading".to_string(),
            "SkipElement".to_string(),
        ]
    );
    assert!(s.recovered.is_empty());
}

#[test]
fn run_property_recovers_text_only_inside_t() {
    let xml = "<w:rPr xmlns:w=\"x\">\n  <w:b/>\n  <w:t>Hello</w:t>\n  <w:t xml:space=\"preserve\"> world</w:t>\n</w:rPr>";
    let (s, _) = read_rpr(xml);
    assert_eq!(s.recovered, vec!["Hello".to_string(), " world".to_string()]);
    assert!(!s.capturing_text);
}

#[test]
fn run_property_bare_values_change_nothing() {
    let xml = r#"<w:rPr xmlns:w="x"><w:color/><w:u/><w:highlight/><w:sz/><w:vertAlign/><w:rStyle/><w:fitText w:val="x"/></w:rPr>"#;
    let (s, actions) = read_rpr(xml);
    assert_eq!(s, RunPropertyState::new());
    assert!(actions.is_empty());
}

#[test]
fn decimal_numbers() {
    let p = |s: &str| parse_usize(&s.to_string());
    assert_eq!(p("0"), Some(0));
    assert_eq!(p("+42"), Some(42));
    assert_eq!(p("007"), Some(7));
    assert_eq!(p(""), None);
    assert_eq!(p("+"), None);
    assert_eq!(p("-1"), None);
    assert_eq!(p("1 "), None);
    assert_eq!(p("1.5"), None);
    assert_eq!(p("99999999999999999999999"), None);
    assert_eq!(p(&usize::MAX.to_string()), Some(usize::MAX));
    assert_eq!(parse_u32(&"4294967295".to_string()), Some(u32::MAX));
    assert_eq!(parse_u32(&"4294967296".to_string()), None);
}

fn attr(local: &str, value: &str) -> OwnedAttribute {
    OwnedAttribute {
        name: OwnedName { local_name: local.to_string(), namespace: None, prefix: Some("w".to_string()) },
        value: value.to_string(),
    }
}

#[test]
fn numeric_attributes_and_on_off() {
    assert_eq!(read_numeric_attribute(&[], "ilvl"), Ok(0));
    assert_eq!(read_numeric_attribute(&[attr("ilvl", "1"), attr("ilvl", "3")], "ilvl"), Ok(3));
    assert_eq!(
        read_numeric_attribute(&[attr("ilvl", "x"), attr("ilvl", "3")], "ilvl"),
        Err(ReaderError::NumberParseError)
    );
    assert!(read_bool(&[]));
    assert!(read_bool(&[attr("val", "true")]));
    assert!(!read_bool(&[attr("val", "0")]));
    assert!(!read_bool(&[attr("val", "false"), attr("val", "1")]));
}

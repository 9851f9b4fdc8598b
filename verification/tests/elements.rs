use docx_rs::alt_chunk::{AltChunk, DrainStep};
use docx_rs::reader::ReaderError;
use docx_rs::run_fonts::{read_run_fonts, RunFonts};
use docx_rs::xml_parser::{OwnedAttribute, OwnedName, XmlEvent};

fn attr(prefix: Option<&str>, local: &str, value: &str) -> OwnedAttribute {
    OwnedAttribute {
        name: OwnedName {
            local_name: local.to_string(),
            namespace: None,
            prefix: prefix.map(|p| p.to_string()),
        },
        value: value.to_string(),
    }
}

fn end(prefix: &str, local: &str) -> XmlEvent {
    XmlEvent::EndElement {
        name: OwnedName { local_name: local.to_string(), namespace: None, prefix: Some(prefix.to_string()) },
    }
}

#[test]
fn alt_chunk_builders() {
    let c = AltChunk::new("rId5");
    assert_eq!(c.id, "rId5");
    assert_eq!(c.content_type, None);
    assert_eq!(c.data, None);
    let c = c.content_type("text/html").data(b"<p>x</p>".to_vec());
    assert_eq!(c.id, "rId5");
    assert_eq!(c.content_type.as_deref(), Some("text/html"));
    assert_eq!(c.data.as_deref(), Some(&b"<p>x</p>"[..]));
    let d = AltChunk::new("rId5").data(b"<p>x</p>".to_vec()).content_type("text/html");
    assert_eq!(c, d);
}

#[test]
fn alt_chunk_id_from_r_id() {
    let c = AltChunk::from_attributes(&[attr(Some("r"), "id", "rIdChunk")]).unwrap();
    assert_eq!(c, AltChunk::new("rIdChunk"));
}

#[test]
fn alt_chunk_last_id_wins() {
    let attrs = [attr(Some("r"), "id", "a"), attr(None, "other", "x"), attr(Some("w"), "id", "b")];
    assert_eq!(AltChunk::from_attributes(&attrs).unwrap().id, "b");
}

#[test]
fn alt_chunk_without_id_fails() {
    assert_eq!(AltChunk::from_attributes(&[]), Err(ReaderError::XMLReadError));
    assert_eq!(
        AltChunk::from_attributes(&[attr(Some("r"), "idx", "a")]),
        Err(ReaderError::XMLReadError)
    );
}

#[test]
fn alt_chunk_content_is_skipped_to_its_end() {
    let ok: Result<XmlEvent, ()> = Ok(end("w", "altChunk"));
    assert_eq!(AltChunk::drain_step(&ok), DrainStep::Done);
    let ok: Result<XmlEvent, ()> = Ok(XmlEvent::EndDocument);
    assert_eq!(AltChunk::drain_step(&ok), DrainStep::Done);
    let ok: Result<XmlEvent, ()> = Ok(end("w", "altChunkPr"));
    assert_eq!(AltChunk::drain_step(&ok), DrainStep::Continue);
    let ok: Result<XmlEvent, ()> = Ok(XmlEvent::Characters("x".to_string()));
    assert_eq!(AltChunk::drain_step(&ok), DrainStep::Continue);
    let err: Result<XmlEvent, ()> = Err(());
    assert_eq!(AltChunk::drain_step(&err), DrainStep::Fail);
}

#[test]
fn run_fonts_from_attributes() {
    let attrs = [
        attr(Some("w"), "ascii", "Arial"),
        attr(Some("w"), "hAnsi", "Arial"),
        attr(Some("w"), "eastAsia", "MS Mincho"),
        attr(Some("w"), "cs", "Times"),
        attr(Some("w"), "asciiTheme", "minorHAnsi"),
        attr(Some("w"), "hAnsiTheme", "minorHAnsi"),
        attr(Some("w"), "eastAsiaTheme", "minorEastAsia"),
        attr(Some("w"), "cstheme", "minorBidi"),
        attr(Some("w"), "hint", "eastAsia"),
        attr(Some("w"), "unknown", "x"),
        attr(Some("w"), "ascii", "Calibri"),
    ];
    let f = read_run_fonts(&attrs).unwrap();
    assert_eq!(
        f,
        RunFonts {
            ascii: Some("Calibri".to_string()),
            hi_ansi: Some("Arial".to_string()),
            east_asia: Some("MS Mincho".to_string()),
            cs: Some("Times".to_string()),
            ascii_theme: Some("minorHAnsi".to_string()),
            hi_ansi_theme: Some("minorHAnsi".to_string()),
            east_asia_theme: Some("minorEastAsia".to_string()),
            cs_theme: Some("minorBidi".to_string()),
            hint: Some("eastAsia".to_string()),
        }
    );
    assert_eq!(read_run_fonts(&[]).unwrap(), RunFonts::new());
    assert_eq!(RunFonts::new(), RunFonts::default());
}

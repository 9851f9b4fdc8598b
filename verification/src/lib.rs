//! Reading support for WordprocessingML parts: an XML event reader that
//! coalesces text runs into single events, and element readers built on it.

pub mod codec;
pub mod xml_parser;
pub mod reader_laws;
pub mod reader;
pub mod alt_chunk;
pub mod run_fonts;
pub mod styles;
pub mod level;
pub mod numberings;
pub mod run_property;

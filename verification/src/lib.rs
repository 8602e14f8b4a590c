//! A codec for the OpenDocument Spreadsheet content model.
//!
//! The crate converts between a sparse in-memory workbook (sheets, typed cell
//! values, named formats and styles) and the repeat-count-compressed XML
//! document stored in an ODS container.  The grid compression and expansion,
//! the typed value model with its wire encodings, the format renderer and the
//! structural parser and serializer are all verified; the byte-level XML
//! reader and writer of `quick_xml` stand behind trusted wrappers.

pub mod attrmap;
pub mod book;
pub mod datetime;
pub mod decimal;
pub mod digits;
pub mod duration;
pub mod error;
pub mod format;
pub mod locale;
pub mod pagestyle;
pub mod qxml;
pub mod read;
pub mod roundtrip;
pub mod style;
pub mod textstyle;
pub mod units;
pub mod value;
pub mod write;
pub mod xml;

pub use error::OdsError;

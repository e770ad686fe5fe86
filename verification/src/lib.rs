//! A GS1 Application Identifier (AI) syntax engine.
//!
//! The engine parses, validates and re-serializes element strings: ordered
//! sequences of (AI, value) fields.  It converts between five textual
//! representations of the same data: the unbracketed data string, the
//! bracketed AI string, human-readable interpretation (HRI) lines, GS1
//! Digital Link URIs, and symbology-framed barcode scan data.

pub mod chars;
pub mod checkdigit;
pub mod dict;
pub mod elements;
pub mod dsform;
pub mod dslaws;
pub mod aiform;
pub mod validate;
pub mod hri;
pub mod dluri;
pub mod dlparse;
pub mod scandata;
pub mod encoder;

pub use encoder::{GS1Encoder, GS1EncoderError};
pub use scandata::Symbology;
pub use validate::Validation;

//! A structural model and codec for a JSON-based linked-data vocabulary.
//!
//! A value of the vocabulary may stand on the wire as a plain identifier, as a
//! link or as a full object with a discriminator, and a property may hold one
//! such value or several. The codec reads each of these shapes into one typed
//! value and writes it back in one canonical shape.
//!
//! - [`json`] holds documents and their mathematical model, [`document`]
//!   reads them from text.
//! - [`schema`] is the wire grammar: it says what every document decodes to.
//!   The decoders and encoders of [`activity_streams`] are specified against
//!   it, and [`laws`] and [`stable`] state what holds of it for every
//!   document.
//! - [`util`] holds the container of one or more values, [`bounded`] the
//!   numbers that are checked against a range, [`instant`] the date and time,
//!   [`envelope`] the pairing of a payload with its context.
//! - [`strict`] tells which fields of a document a record would pass over.
//! - [`error`] holds the failures, [`names`] and [`distinct`] the facts about
//!   keys and discriminators that the laws rest on.

pub mod activity_streams;
pub mod bounded;
pub mod distinct;
pub mod document;
pub mod envelope;
pub mod error;
pub mod instant;
pub mod json;
pub mod laws;
pub mod marker_types;
pub mod names;
pub mod schema;
pub mod stable;
pub mod strict;
pub mod util;

pub use envelope::{AsLinkedData, LinkedData};

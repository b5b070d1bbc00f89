//! Decoders that turn a large, loosely shaped JSON document into typed
//! records, and the pipeline that streams the records of a list to a
//! consumer one at a time.
//!
//! - `chan_workaround`: the streaming pipeline as two state machines, and
//!   what a consumer is handed in the end.
//! - `seq_des`: the decoders of a document with the sections `documents`
//!   and `journal`, which fold a list of objects into one aggregate and
//!   count what they skip.
//! - `visitors`: the decoders of the records of a chain configuration.
//! - `fields`, `radix`, `text`, `scan`: reading one typed field, numbers in
//!   digits, texts, and walking the pairs of a map.
//! - `json`, `payload`: what is taken on trust of `serde_json` and of the
//!   records that are carried through as they are.
//! - `error`: the names of the fields and the ways a decode pass fails.

pub mod chan_workaround;
pub mod error;
pub mod fields;
pub mod json;
pub mod payload;
pub mod radix;
pub mod scan;
pub mod seq_des;
pub mod text;
pub mod visitors;

//! Normalisation and control logic of a three-stage object indexing pipeline.
//!
//! The pipeline takes object changes from a chain node, enriches them with
//! the objects' full state and loads the result into a document store. Its
//! stages are separate processes joined by broker topics. This crate holds
//! what the stages decide and compute; reading, sending and waiting are left
//! to the program around it. Every executable function carries a contract
//! that Verus proves, but for the calls into the `bson` crate in
//! [`document`], whose contracts are taken from that crate's source.
//!
//! * [`type_path`], [`ownership`], [`normalizer`], [`object`], [`raw`] and
//!   [`document`]: from a raw document to a normalised object.
//! * [`shutdown`] and [`stage`]: the two shutdown signals and what each task
//!   of a stage does under them.
//! * [`transformer`], [`loader`] and [`confirmer`]: what becomes of one
//!   record in the transform and load stages, and of its acknowledgement.
//! * [`query`]: what the query service computes.
//! * [`chars`] and [`hex`]: texts.

pub mod chars;
pub mod confirmer;
pub mod document;
pub mod error;
pub mod hex;
pub mod loader;
pub mod normalizer;
pub mod object;
pub mod ownership;
pub mod query;
pub mod raw;
pub mod shutdown;
pub mod stage;
pub mod transformer;
pub mod type_path;

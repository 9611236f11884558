//! Parser for Endless Sky data files.
//!
//! A data file is text: records of five kinds (galaxy, system, planet, ship,
//! start), with blank lines and comments between them. A record is a line
//! with its keyword and name, and below it, one level of indentation deeper,
//! its fields in any order. One tab or four spaces make one level.
//!
//! Every parser takes the text that is left to read and hands back what it
//! left unread together with the value it found, or a [`Failure`]. A soft
//! failure lets the caller try something else at the same place; a hard one
//! ends the parse. What a parser returns is stated, over the bytes of the
//! text, by a specification function of the same name with `spec_` before it.
//!
//! - [`text`] cuts texts at byte offsets.
//! - [`helpers`] holds the lexical primitives, [`values`] the values of
//!   fields.
//! - [`fields`] is the engine that reads the fields of a record: a field on
//!   a line of its own, a field that repeats, and the sweep that takes fields
//!   into a draft until none fits.
//! - [`builders`] holds the drafts, which yield a record or name the first
//!   required field that is missing.
//! - [`galaxy`], [`system`], [`planet`], [`ship`] and [`start`] hold the
//!   grammars of the records, [`document`] that of the whole file, with the
//!   strict [`validate`] and the best-effort [`parse`].
//! - [`laws`], [`exchange`] and [`locality`] hold what is proved of all
//!   texts: that the order of a record's fields does not matter, that a
//!   repeated field keeps the order of the text, and that a record without a
//!   required field is invalid.
//!
//! Texts in records are views into the text that was parsed. Decimal numbers
//! are kept as they were written.

pub mod builders;
pub mod document;
pub mod errors;
pub mod exchange;
pub mod fields;
pub mod galaxy;
pub mod helpers;
pub mod laws;
pub mod locality;
pub mod model;
pub mod planet;
pub mod ship;
pub mod start;
pub mod system;
pub mod text;
pub mod types;
pub mod values;

pub use document::{parse, validate};
pub use errors::{Context, DataError, Failure, Mismatch};
pub use types::{
    Account, Asteroids, Date, Fleet, Galaxy, Minables, Mortgage, Object, Planet, Position, Ship,
    ShipAttributes, ShipWeapon, Sprite, Start, System, SystemObject, Trade, Tribute,
};

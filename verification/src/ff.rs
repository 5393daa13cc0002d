//! File format constants: the kind bytes of encoded values.
//!
//! Existing stores depend on these numbers; they do not change.

use vstd::prelude::*;

verus! {

/// The empty (unit) schema.
pub const NONE: u8 = 0;
/// A variable in a constraint.
pub const VAR: u8 = 1;
/// An `i64`.
pub const INTEGER: u8 = 4;
/// An `f64`.
pub const FLOAT: u8 = 5;
/// A duration.
pub const DURATION: u8 = 6;
/// A point in time.
pub const DATE_TIME: u8 = 7;
/// An object reference.
pub const OBJECT: u8 = 9;
/// A language.
pub const LANGUAGE: u8 = 10;
/// A URL.
pub const URL: u8 = 11;
/// A color.
pub const COLOR: u8 = 12;
/// A schema.
pub const SCHEMA: u8 = 13;
/// A constraint.
pub const CONSTRAINT: u8 = 14;
/// An email address.
pub const EMAIL: u8 = 15;
/// Text.
pub const TEXT: u8 = 16;
/// Binary data.
pub const BINARY: u8 = 17;
/// Encrypted forms of the three above.
pub const ENC_EMAIL: u8 = 18;
pub const ENC_TEXT: u8 = 19;
pub const ENC_BINARY: u8 = 20;
/// A character.
pub const CHARACTER: u8 = 21;
/// Arithmetic and comparison operators.
pub const NEG: u8 = 22;
pub const ADD: u8 = 23;
pub const SUB: u8 = 24;
pub const MUL: u8 = 25;
pub const DIV: u8 = 26;
pub const MOD: u8 = 27;
pub const EQ: u8 = 28;
pub const NEQ: u8 = 29;
pub const LTH: u8 = 30;
pub const LE: u8 = 31;
pub const GTH: u8 = 32;
pub const GE: u8 = 33;
/// An optional object reference.
pub const OPT_OBJECT: u8 = 34;
/// 15 bytes of inlined text.
pub const TEXT_MAX: u8 = 35;
/// External text resource.
pub const TEXT_RES: u8 = 36;
/// 15 bytes of inlined binary data.
pub const BINARY_MAX: u8 = 37;
/// External binary resource.
pub const BINARY_RES: u8 = 38;
/// 15 bytes of inlined email text.
pub const EMAIL_MAX: u8 = 39;
/// External email text resource.
pub const EMAIL_RES: u8 = 40;
/// 15 bytes of inlined, encrypted text.
pub const ENC_TEXT_MAX: u8 = 41;
/// External resource containing encrypted text.
pub const ENC_TEXT_RES: u8 = 42;
/// 15 bytes of inlined, encrypted binary data.
pub const ENC_BINARY_MAX: u8 = 43;
/// External resource containing encrypted binary data.
pub const ENC_BINARY_RES: u8 = 44;
/// 15 bytes of an encrypted, inlined email address.
pub const ENC_EMAIL_MAX: u8 = 45;
/// External resource containing an encrypted email address.
pub const ENC_EMAIL_RES: u8 = 46;
/// External resource containing a duration.
pub const BIG_DURATION: u8 = 47;
/// External resource containing a point in time.
pub const BIG_DATE_TIME: u8 = 48;
/// Encrypted content of any kind.
pub const ENCRYPTED: u8 = 49;

/// The unit value of a row.
pub const UNIT: u8 = 0;
/// An object reference in a row.
pub const OBJECT_REFERENCE: u8 = 9;

/// Offsets of the feature bits in the features meta field.
pub const FEATURE_CREATION: u8 = 0;
pub const FEATURE_BIN: u8 = 1;
pub const FEATURE_NAMING: u8 = 2;
pub const FEATURE_INTERNATIONALIZATION: u8 = 3;
pub const FEATURE_FILE_SYSTEM: u8 = 4;
pub const FEATURE_FILE_TYPES: u8 = 5;
pub const FEATURE_NODE_COUNT: u8 = 6;
pub const FEATURE_IMAGES: u8 = 7;
pub const FEATURE_FAVOURITES: u8 = 8;
pub const FEATURE_TEMPORARY_OBJECTS: u8 = 9;
pub const FEATURE_USERS: u8 = 10;
pub const FEATURE_REFERENCES: u8 = 11;

} // verus!

//! Rows of the first store layout: a used row holds a tag and a value, a
//! free row links to the next free one.

use vstd::prelude::*;

use crate::ids::ObjectId;
use crate::values::Value;

verus! {

/// A row that holds an association.
pub struct UsedRow {
    pub tag_object: ObjectId,
    pub value: Value,
}

/// A row of the free list.
pub struct FreeRow {
    pub next_free_row: u64,
}

/// A row: used or free.
pub enum Row {
    Used(UsedRow),
    Free(FreeRow),
}

/// The color spaces a color may be given in.
#[derive(Copy, Clone, Debug, PartialEq, Eq)]
pub enum ColorType {
    Cie1931Xyz,
    Cie1931Xyy,
    Oklab,
    Oklch,
    Cielab,
    Cielch,
    LinearSrgb,
    LinearAdobeRgb,
    LinearDisplayP3,
    Srgb,
    AdobeRgb,
    DisplayP3,
}

} // verus!

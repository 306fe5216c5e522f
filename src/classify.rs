//! Sorting a computed term into one of three display buckets.
use vstd::prelude::*;

verus! {

/// The largest value that still counts as small.
pub const SMALL_LIMIT: u32 = 10;

/// The bucket a value falls in: zero, from one to `SMALL_LIMIT`, or above.
#[derive(Clone, Copy, Debug, PartialEq, Eq, Structural)]
pub enum Label {
    Zero,
    Small,
    Big,
}

/// The bucket of `v`.
pub open spec fn label_of(v: int) -> Label {
    if v == 0 {
        Label::Zero
    } else if v <= SMALL_LIMIT {
        Label::Small
    } else {
        Label::Big
    }
}

/// The line printed for each bucket.
pub open spec fn label_text(l: Label) -> Seq<char> {
    match l {
        Label::Zero => "Zero!"@,
        Label::Small => "Small number"@,
        Label::Big => "Big number"@,
    }
}

/// Places `value` in its bucket.
pub fn classify(value: u32) -> (r: Label)
    ensures
        r == label_of(value as int),
{
    if value == 0 {
        Label::Zero
    } else if value <= SMALL_LIMIT {
        Label::Small
    } else {
        Label::Big
    }
}

impl Label {
    /// The text shown for this bucket.
    pub fn text(&self) -> (r: &'static str)
        ensures
            r@ == label_text(*self),
    {
        match self {
            Label::Zero => "Zero!",
            Label::Small => "Small number",
            Label::Big => "Big number",
        }
    }
}

} // verus!

//! Decisions of the tag patching logic: what a present, absent, empty
//! or zero field of a `TagUpdate` means for the tag on disk. The
//! format-specific writers apply these decisions.

use vstd::prelude::*;

verus! {

/// A stored zero is normalized to absence.
pub fn zero_none(n: Option<u16>) -> (r: Option<u16>)
    ensures
        r == match n {
            Some(v) => if v == 0 {
                None
            } else {
                Some(v)
            },
            None => None::<u16>,
        },
{
    match n {
        Some(v) => if v == 0 {
            None
        } else {
            Some(v)
        },
        None => None,
    }
}

/// What to do with one string field of a tag.
#[derive(Clone, Debug, PartialEq)]
pub enum StrFieldAction {
    Keep,
    Remove,
    Replace(String),
}

/// What to do with one numeric field of a tag.
#[derive(Clone, Copy, Debug, PartialEq, Eq, Structural)]
pub enum NumFieldAction {
    Keep,
    Remove,
    Replace(u16),
}

/// What to do with a paired number/total field of a tag whose format
/// stores both in one atom.
#[derive(Clone, Copy, Debug, PartialEq, Eq, Structural)]
pub enum PairFieldAction {
    Keep,
    Remove,
    ReplaceBoth(u16, u16),
    ReplaceNumber(u16),
    ReplaceTotal(u16),
}

/// An absent patch field leaves the tag alone; an empty string removes
/// the field; anything else replaces it.
pub fn str_field_action(f: &Option<String>) -> (r: StrFieldAction)
    ensures
        r == match *f {
            Some(s) => if s@.len() == 0 {
                StrFieldAction::Remove
            } else {
                StrFieldAction::Replace(s)
            },
            None => StrFieldAction::Keep,
        },
{
    match f {
        Some(s) => if s.as_str().is_empty() {
            StrFieldAction::Remove
        } else {
            StrFieldAction::Replace(s.clone())
        },
        None => StrFieldAction::Keep,
    }
}

/// An absent patch field leaves the tag alone; zero removes the field;
/// anything else replaces it.
pub fn num_field_action(f: Option<u16>) -> (r: NumFieldAction)
    ensures
        r == match f {
            Some(v) => if v == 0 {
                NumFieldAction::Remove
            } else {
                NumFieldAction::Replace(v)
            },
            None => NumFieldAction::Keep,
        },
{
    match f {
        Some(v) => if v == 0 {
            NumFieldAction::Remove
        } else {
            NumFieldAction::Replace(v)
        },
        None => NumFieldAction::Keep,
    }
}

/// For a format that stores number and total together: both present
/// and zero removes the atom, both present otherwise sets both, one
/// present sets that half, none leaves the atom alone.
pub fn pair_field_action(n: Option<u16>, t: Option<u16>) -> (r: PairFieldAction)
    ensures
        r == match (n, t) {
            (Some(nv), Some(tv)) => if nv == 0 && tv == 0 {
                PairFieldAction::Remove
            } else {
                PairFieldAction::ReplaceBoth(nv, tv)
            },
            (Some(nv), None) => PairFieldAction::ReplaceNumber(nv),
            (None, Some(tv)) => PairFieldAction::ReplaceTotal(tv),
            (None, None) => PairFieldAction::Keep,
        },
{
    match (n, t) {
        (Some(nv), Some(tv)) => if nv == 0 && tv == 0 {
            PairFieldAction::Remove
        } else {
            PairFieldAction::ReplaceBoth(nv, tv)
        },
        (Some(nv), None) => PairFieldAction::ReplaceNumber(nv),
        (None, Some(tv)) => PairFieldAction::ReplaceTotal(tv),
        (None, None) => PairFieldAction::Keep,
    }
}

} // verus!

//! Entry keys as the decimal text of an index, ordered by the index.
use crate::keys::{decimal, decimal_string, parse_u64, parsed_u64, parses_as_u64};
use std::cmp::Ordering;
use vstd::prelude::*;

verus! {

/// An entry key: the decimal text of an index, ordered by the number it
/// spells rather than by its characters.
pub struct KeyString(pub String);

impl KeyString {
    /// The key of index `num`.
    pub fn from(num: u64) -> (r: KeyString)
        ensures
            r.0@ == decimal(num as nat),
    {
        KeyString(decimal_string(num))
    }

    /// Orders two keys by the numbers they spell.
    pub fn cmp(&self, other: &Self) -> (r: Ordering)
        requires
            parses_as_u64(self.0@),
            parses_as_u64(other.0@),
        ensures
            (r == Ordering::Less) == (parsed_u64(self.0@) < parsed_u64(other.0@)),
            (r == Ordering::Equal) == (parsed_u64(self.0@) == parsed_u64(other.0@)),
            (r == Ordering::Greater) == (parsed_u64(self.0@) > parsed_u64(other.0@)),
    {
        match (parse_u64(self.0.as_str()), parse_u64(other.0.as_str())) {
            (Some(a), Some(b)) => {
                if a < b {
                    Ordering::Less
                } else if a == b {
                    Ordering::Equal
                } else {
                    Ordering::Greater
                }
            },
            _ => {
                assert(false);
                Ordering::Equal
            },
        }
    }

    /// The order of two keys, which is always defined.
    pub fn partial_cmp(&self, other: &Self) -> (r: Option<Ordering>)
        requires
            parses_as_u64(self.0@),
            parses_as_u64(other.0@),
        ensures
            r matches Some(o) && (o == Ordering::Less) == (parsed_u64(self.0@) < parsed_u64(other.0@))
                && (o == Ordering::Equal) == (parsed_u64(self.0@) == parsed_u64(other.0@))
                && (o == Ordering::Greater) == (parsed_u64(self.0@) > parsed_u64(other.0@)),
    {
        Some(self.cmp(other))
    }
}

} // verus!

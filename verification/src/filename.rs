//! The coordinates of a region, read from the name of its file.

use crate::error::SearchError;
use crate::text::{i64_value, parse_i64};
use regex::Regex;
use vstd::prelude::*;
use vstd::string::*;

verus! {

/// The pattern of a region file's path: directories or none, then the name
/// of the file, which is `r.`, the two coordinates in decimal with a dot
/// between them, a dot and an extension that is not empty.
pub const REGION_PATTERN: &'static str = r"(?s)^(?:.*/)?r\.(?P<x>-?\d+)\.(?P<z>-?\d+)\.[^/]+$";

/// The least coordinate of a region whose 32 chunk coordinates all fit in
/// an `i64`.
pub const MIN_REGION: i64 = -0x400_0000_0000_0000;

/// The greatest coordinate of a region whose 32 chunk coordinates all fit
/// in an `i64`.
pub const MAX_REGION: i64 = 0x3ff_ffff_ffff_ffff;

/// `regex::Error`, the failure to compile a pattern. It is carried, never
/// read.
#[verifier::external_type_specification]
#[verifier::external_body]
pub struct ExPatternError(regex::Error);

/// What a search for a pattern in a text captures. `None` where the
/// pattern does not compile; else `Some(None)` where nothing in the text
/// matches, or the texts of the capture groups of the leftmost match, group
/// 0 first, `None` for a group that took no part in the match.
pub uninterp spec fn regex_captures(pattern: Seq<char>, text: Seq<char>) -> Option<
    Option<Seq<Option<Seq<char>>>>,
>;

/// The model of one capture group.
pub open spec fn group_view(group: Option<String>) -> Option<Seq<char>> {
    match group {
        Some(text) => Some(text@),
        None => None,
    }
}

/// The model of the capture groups of a search.
pub open spec fn captures_view(captures: Option<Vec<Option<String>>>) -> Option<
    Seq<Option<Seq<char>>>,
> {
    match captures {
        Some(groups) => Some(Seq::new(groups@.len(), |i: int| group_view(groups@[i]))),
        None => None,
    }
}

/// `Regex::new`, then `Regex::captures` on the text: the groups of the
/// leftmost match as owned strings, in the order of `Captures::iter`. The
/// result depends on the pattern and the text alone; the contract gives it
/// its name and claims nothing more.
#[verifier::external_body]
fn captures(pattern: &str, text: &str) -> (r: Result<Option<Vec<Option<String>>>, regex::Error>)
    ensures
        match r {
            Ok(found) => regex_captures(pattern@, text@) == Some(captures_view(found)),
            Err(_) => regex_captures(pattern@, text@) is None,
        },
{
    let regex = Regex::new(pattern)?;
    let found = regex.captures(text);
    Ok(found.map(|groups| groups.iter().map(|group| group.map(|m| m.as_str().to_string())).collect()))
}

/// Whether a region with these coordinates has all its chunk coordinates
/// within `i64`.
pub open spec fn region_in_range(x: i64, z: i64) -> bool {
    MIN_REGION <= x <= MAX_REGION && MIN_REGION <= z <= MAX_REGION
}

/// The coordinates that the capture groups of a region file's name give:
/// group 1 is x and group 2 is z, each a decimal `i64`, and both within the
/// range of region coordinates.
pub open spec fn coords_of_captures(captures: Option<Seq<Option<Seq<char>>>>) -> Option<
    (i64, i64),
> {
    match captures {
        Some(groups) => {
            if groups.len() == 3 && groups[1] is Some && groups[2] is Some {
                match (i64_value(groups[1]->0), i64_value(groups[2]->0)) {
                    (Some(x), Some(z)) => if region_in_range(x, z) {
                        Some((x, z))
                    } else {
                        None
                    },
                    _ => None,
                }
            } else {
                None
            }
        },
        None => None,
    }
}

/// The coordinates that the name of a region file gives, if it gives any.
pub open spec fn region_coords(filename: Seq<char>) -> Option<(i64, i64)> {
    match regex_captures(REGION_PATTERN@, filename) {
        Some(captures) => coords_of_captures(captures),
        None => None,
    }
}

/// Reads the coordinates out of the capture groups of a region file's name.
pub fn coords_from_captures(captures: &Option<Vec<Option<String>>>) -> (r: Option<(i64, i64)>)
    ensures
        r == coords_of_captures(captures_view(*captures)),
{
    match captures {
        Some(groups) => {
            if groups.len() != 3 {
                return None;
            }
            let x = match &groups[1] {
                Some(text) => parse_i64(text.as_str()),
                None => {
                    return None;
                },
            };
            let z = match &groups[2] {
                Some(text) => parse_i64(text.as_str()),
                None => {
                    return None;
                },
            };
            match (x, z) {
                (Some(x), Some(z)) => {
                    if MIN_REGION <= x && x <= MAX_REGION && MIN_REGION <= z && z <= MAX_REGION {
                        Some((x, z))
                    } else {
                        None
                    }
                },
                _ => None,
            }
        },
        None => None,
    }
}

/// Reads the coordinates of a region out of the path of its file.
///
/// Fails with `MalformedFilename`, which carries the path, where the path
/// does not match [`REGION_PATTERN`], where a coordinate is no decimal
/// `i64`, and where a coordinate lies outside
/// [`MIN_REGION`]`..=`[`MAX_REGION`].
pub fn read_region_coords(filename: &str) -> (r: Result<(i64, i64), SearchError>)
    ensures
        match r {
            Ok(coords) => region_coords(filename@) == Some(coords),
            Err(error) => region_coords(filename@) is None && (
            error matches SearchError::MalformedFilename { filename: name } && name@
                == filename@),
        },
{
    let coords = match captures(REGION_PATTERN, filename) {
        Ok(found) => coords_from_captures(&found),
        Err(_) => None,
    };
    match coords {
        Some(coords) => Ok(coords),
        None => Err(SearchError::MalformedFilename { filename: String::from_str(filename) }),
    }
}

} // verus!

//! The size that a request asks for, and the size that it gets.

use vstd::prelude::*;
use vstd::string::StringExecFns;
use crate::names::str_eq;
use crate::numbers::{decimal, parse_u32, parsed_u32, push_decimal};

verus! {

/// The width of a picture where the request names none.
pub const DEFAULT_WIDTH: u32 = 800;

/// The height of a picture where the request names none.
pub const DEFAULT_HEIGHT: u32 = 600;

/// The largest width or height that is ever served.
pub const MAX_SIDE: u32 = 2048;

/// The width that a thumbnail fits in.
pub const THUMBNAIL_WIDTH: u32 = 128;

/// The height that a thumbnail fits in.
pub const THUMBNAIL_HEIGHT: u32 = 96;

/// The size of the box that a picture is scaled to fit in.
#[derive(Debug, Clone, Copy, Hash, PartialEq, Eq, Structural)]
pub struct Dimensions {
    /// The width of the box.
    pub w: u32,
    /// The height of the box.
    pub h: u32,
}

impl Dimensions {
    /// Both sides are at least one pixel and at most [`MAX_SIDE`].
    pub open spec fn wf(&self) -> bool {
        &&& 1 <= self.w <= MAX_SIDE
        &&& 1 <= self.h <= MAX_SIDE
    }

    /// The box of a thumbnail.
    pub fn thumbnail() -> (d: Dimensions)
        ensures
            d == (Dimensions { w: THUMBNAIL_WIDTH, h: THUMBNAIL_HEIGHT }),
            d.wf(),
    {
        Dimensions { w: THUMBNAIL_WIDTH, h: THUMBNAIL_HEIGHT }
    }

    /// The query string that asks for this size, question mark included.
    pub open spec fn query(&self) -> Seq<char> {
        "?w="@ + decimal(self.w as nat) + "&h="@ + decimal(self.h as nat)
    }

    /// Writes [`Self::query`] at the end of `out`.
    pub fn push_query(&self, out: &mut String)
        ensures
            final(out)@ == old(out)@ + self.query(),
    {
        out.append("?w=");
        push_decimal(out, self.w);
        out.append("&h=");
        push_decimal(out, self.h);
        assert(final(out)@ =~= old(out)@ + self.query());
    }

    /// The query string that asks for this size, as in a link to a picture
    /// of this size.
    pub fn to_query(&self) -> (text: String)
        ensures
            text@ == self.query(),
    {
        let mut text = String::new();
        self.push_query(&mut text);
        assert(Seq::<char>::empty() + self.query() =~= self.query());
        text
    }
}

/// The side that is served where `asked` was asked for: the default where
/// nothing was, else what was asked, but no less than one pixel and no more
/// than [`MAX_SIDE`].
pub open spec fn granted_side(asked: Option<u32>, default: u32) -> u32 {
    match asked {
        None => default,
        Some(side) => if side < 1 {
            1
        } else if side > MAX_SIDE {
            MAX_SIDE
        } else {
            side
        },
    }
}

/// What a request says about the size it wants.
#[derive(Debug, Clone, Copy, Hash, PartialEq, Eq, Structural)]
pub struct Params {
    /// The width asked for, if any.
    pub w: Option<u32>,
    /// The height asked for, if any.
    pub h: Option<u32>,
}

impl Default for Params {
    fn default() -> (p: Params)
        ensures
            p == (Params { w: None, h: None }),
    {
        Params { w: None, h: None }
    }
}

/// The parameters after one more pair of the query string.
pub open spec fn with_pair(params: Params, key: Seq<char>, value: Seq<char>) -> Params {
    if key == "w"@ {
        Params { w: parsed_u32(value), h: params.h }
    } else if key == "h"@ {
        Params { w: params.w, h: parsed_u32(value) }
    } else {
        params
    }
}

/// The parameters that a query string gives, pair by pair: a later `w` or
/// `h` replaces an earlier one, also by nothing where it is no number, and
/// other keys are ignored.
pub open spec fn params_of(pairs: Seq<(Seq<char>, Seq<char>)>) -> Params
    decreases pairs.len(),
{
    if pairs.len() == 0 {
        Params { w: None, h: None }
    } else {
        with_pair(params_of(pairs.drop_last()), pairs.last().0, pairs.last().1)
    }
}

/// The texts of the pairs of a query string.
pub open spec fn pair_texts(pairs: Seq<(String, String)>) -> Seq<(Seq<char>, Seq<char>)> {
    Seq::new(pairs.len(), |i: int| (pairs[i].0@, pairs[i].1@))
}

impl Params {
    /// Reads the parameters off the pairs of a query string.
    pub fn from_pairs(pairs: &Vec<(String, String)>) -> (params: Params)
        ensures
            params == params_of(pair_texts(pairs@)),
    {
        let mut params = Params { w: None, h: None };
        let mut i: usize = 0;
        while i < pairs.len()
            invariant
                i <= pairs.len(),
                params == params_of(pair_texts(pairs@).take(i as int)),
            decreases pairs.len() - i,
        {
            let key = pairs[i].0.as_str();
            let value = pairs[i].1.as_str();
            if str_eq(key, "w") {
                params.w = parse_u32(value);
            } else if str_eq(key, "h") {
                params.h = parse_u32(value);
            }
            assert(pair_texts(pairs@).take(i + 1).drop_last() =~= pair_texts(pairs@).take(
                i as int,
            ));
            i = i + 1;
        }
        assert(pair_texts(pairs@).take(pairs.len() as int) =~= pair_texts(pairs@));
        params
    }

    /// Whether the request asks for a size at all.
    pub open spec fn asks_for_size(&self) -> bool {
        self.w is Some || self.h is Some
    }

    /// Fill in missing parameters with default values, and apply the limits:
    /// a side is never less than one pixel nor more than [`MAX_SIDE`].
    pub fn get_dimensions(&self) -> (d: Dimensions)
        ensures
            d.w == granted_side(self.w, DEFAULT_WIDTH),
            d.h == granted_side(self.h, DEFAULT_HEIGHT),
            d.wf(),
    {
        Dimensions { w: grant(self.w, DEFAULT_WIDTH), h: grant(self.h, DEFAULT_HEIGHT) }
    }
}

fn grant(asked: Option<u32>, default: u32) -> (side: u32)
    ensures
        side == granted_side(asked, default),
{
    match asked {
        None => default,
        Some(side) => if side < 1 {
            1
        } else if side > MAX_SIDE {
            MAX_SIDE
        } else {
            side
        },
    }
}

} // verus!

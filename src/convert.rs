//! Converters from raw path segments to typed values.
use vstd::prelude::*;
use crate::outcome::Outcome;
use crate::path::views;
use crate::text::{copy_text, number_value, parse_usize, spells_usize};

verus! {

/// The second segment of a wildcard binding.
#[derive(Debug, Clone)]
pub struct CustomPath(pub Vec<char>);

/// What the second-segment converter gives: the second segment when there
/// are at least two, else the number of segments present.
pub open spec fn second_segment(segs: Seq<Seq<char>>) -> Result<Seq<char>, nat> {
    if segs.len() >= 2 {
        Ok(segs[1])
    } else {
        Err(segs.len())
    }
}

impl CustomPath {
    /// Takes the second of the wildcard's segments, counting the segments
    /// it walks so that a shortfall reports how many there were.
    pub fn from_segments(segs: &Vec<Vec<char>>) -> (r: Result<CustomPath, usize>)
        ensures
            match second_segment(views(segs@)) {
                Ok(s) => r is Ok && r->Ok_0.0@ == s,
                Err(n) => r == Err::<CustomPath, usize>(n as usize),
            },
    {
        let mut n: usize = 0;
        while n < segs.len()
            invariant
                n <= segs@.len(),
                n < 2,
            decreases segs@.len() - n,
        {
            n = n + 1;
            if n == 2 {
                return Ok(CustomPath(copy_text(&segs[1])));
            }
        }
        Err(n)
    }
}

/// The lowest age the age guard accepts.
pub const MIN_AGE: usize = 1;

/// The highest age the age guard accepts.
pub const MAX_AGE: usize = 122;

/// Proof that an age segment lies in the accepted range.
#[derive(Debug, Clone, Copy, PartialEq, Eq, Structural)]
pub struct GoodAge;

/// Whether a raw segment spells an age in the accepted range.
pub open spec fn is_good_age(raw: Seq<char>) -> bool {
    spells_usize(raw) && MIN_AGE <= number_value(raw) <= MAX_AGE
}

impl GoodAge {
    /// The age guard: succeeds on a number from one to 122, and forwards on
    /// anything else, so that a less demanding route can answer.
    pub fn from_segment(raw: &Vec<char>) -> (r: Outcome<GoodAge, ()>)
        ensures
            r is Success <==> is_good_age(raw@),
            r is Forward <==> !is_good_age(raw@),
    {
        match parse_usize(raw) {
            Some(age) => if MIN_AGE <= age && age <= MAX_AGE {
                Outcome::Success(GoodAge)
            } else {
                Outcome::Forward
            },
            None => Outcome::Forward,
        }
    }
}

/// Reads a segment as a `usize`, forwarding when it is not one.
pub fn usize_param(raw: &Vec<char>) -> (r: Outcome<usize, ()>)
    ensures
        spells_usize(raw@) ==> r == Outcome::<usize, ()>::Success(number_value(raw@) as usize),
        !spells_usize(raw@) ==> r is Forward,
{
    match parse_usize(raw) {
        Some(v) => Outcome::Success(v),
        None => Outcome::Forward,
    }
}

/// Whether a segment spells a `u8`.
pub open spec fn spells_u8(raw: Seq<char>) -> bool {
    spells_usize(raw) && number_value(raw) <= 255
}

/// Reads a segment as a `u8`, forwarding when it is not one.
pub fn u8_param(raw: &Vec<char>) -> (r: Outcome<u8, ()>)
    ensures
        spells_u8(raw@) ==> r == Outcome::<u8, ()>::Success(number_value(raw@) as u8),
        !spells_u8(raw@) ==> r is Forward,
{
    match parse_usize(raw) {
        Some(v) => if v <= 255 {
            Outcome::Success(v as u8)
        } else {
            Outcome::Forward
        },
        None => Outcome::Forward,
    }
}

/// How one task is to be shown.
#[derive(Debug, Clone, Copy, PartialEq, Eq, Structural)]
pub enum OneTaskKind {
    Html,
    Json,
}

/// The kind a segment names, if any.
pub open spec fn task_kind_of(raw: Seq<char>) -> Option<OneTaskKind> {
    if raw == "html"@ {
        Some(OneTaskKind::Html)
    } else if raw == "json"@ {
        Some(OneTaskKind::Json)
    } else {
        None
    }
}

impl OneTaskKind {
    /// Accepts exactly `html` and `json`; hands the segment back otherwise.
    pub fn from_param(raw: &Vec<char>) -> (r: Result<OneTaskKind, Vec<char>>)
        ensures
            match task_kind_of(raw@) {
                Some(k) => r == Ok::<OneTaskKind, Vec<char>>(k),
                None => r is Err && r->Err_0@ == raw@,
            },
    {
        let html = crate::text::chars_of("html");
        let json = crate::text::chars_of("json");
        if crate::path::same_text(raw, &html) {
            Ok(OneTaskKind::Html)
        } else if crate::path::same_text(raw, &json) {
            Ok(OneTaskKind::Json)
        } else {
            Err(copy_text(raw))
        }
    }
}

} // verus!

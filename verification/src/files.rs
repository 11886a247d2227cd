//! File-list rules around the pickers: which file names count as videos
//! when a movie folder is listed, and which modes allow which picker.
//!
//! The surrounding application reads directories and shows dialogs; the
//! rules that decide what is kept are verified here.

use vstd::prelude::*;
use crate::codec::{bytes_eq, lit_vec};
use vstd::string::StringSliceAdditionalSpecFns;

verus! {

/// Index of the last dot at or before position `i`.
pub open spec fn sp_last_dot(p: Seq<u8>, i: int) -> Option<int>
    decreases i,
{
    if !(0 <= i < p.len()) {
        None
    } else if p[i] == 46 {
        Some(i)
    } else if i == 0 {
        None
    } else {
        sp_last_dot(p, i - 1)
    }
}

/// ASCII lowercase of a byte string.
pub open spec fn sp_lower(s: Seq<u8>) -> Seq<u8> {
    Seq::new(s.len(), |i: int| if 65 <= s[i] <= 90 {
        (s[i] + 32) as u8
    } else {
        s[i]
    })
}

/// Whether `e` is one of the recognized video extensions (already
/// lowercased).
pub open spec fn sp_is_video_ext(e: Seq<u8>) -> bool {
    ||| e == "mp4".spec_bytes()
    ||| e == "mkv".spec_bytes()
    ||| e == "webm".spec_bytes()
    ||| e == "avi".spec_bytes()
    ||| e == "mov".spec_bytes()
}

/// Whether a file name is kept when listing a movie folder: its extension
/// — what follows the last dot, not counting a leading dot — must be one
/// of the recognized video extensions, compared case-insensitively.
pub open spec fn sp_is_video_filename(name: Seq<u8>) -> bool {
    if name.len() == 0 {
        false
    } else {
        match sp_last_dot(name, name.len() - 1) {
            Some(k) => k > 0 && sp_is_video_ext(sp_lower(name.subrange(k + 1, name.len() as int))),
            None => false,
        }
    }
}

/// Executable mirror of [`sp_last_dot`].
fn last_dot(p: &Vec<u8>, i: usize) -> (r: Option<usize>)
    requires
        i < p.len(),
    ensures
        (match r {
            Some(k) => Some(k as int),
            None => None,
        }) == sp_last_dot(p@, i as int),
        r matches Some(k) ==> k < p.len(),
    decreases i,
{
    if p[i] == 46 {
        Some(i)
    } else if i == 0 {
        None
    } else {
        last_dot(p, i - 1)
    }
}

/// ASCII-lowercased copy of a byte string.
pub fn to_lower(s: &Vec<u8>) -> (r: Vec<u8>)
    ensures
        r@ == sp_lower(s@),
{
    let mut r: Vec<u8> = Vec::new();
    let mut i: usize = 0;
    while i < s.len()
        invariant
            i <= s.len(),
            r@ == sp_lower(s@).subrange(0, i as int),
        decreases s.len() - i,
    {
        let b = s[i];
        if 65 <= b && b <= 90 {
            r.push(b + 32);
        } else {
            r.push(b);
        }
        proof {
            assert(r@ =~= sp_lower(s@).subrange(0, i + 1 as int));
        }
        i = i + 1;
    }
    proof {
        assert(r@ =~= sp_lower(s@));
    }
    r
}

/// Executable mirror of [`sp_is_video_filename`].
pub fn is_video_filename(name: &Vec<u8>) -> (r: bool)
    ensures
        r == sp_is_video_filename(name@),
{
    if name.len() == 0 {
        return false;
    }
    match last_dot(name, name.len() - 1) {
        Some(k) => {
            if k == 0 {
                return false;
            }
            let ext = crate::json::sub_bytes(name, k + 1, name.len());
            let low = to_lower(&ext);
            let e1 = lit_vec("mp4");
            let e2 = lit_vec("mkv");
            let e3 = lit_vec("webm");
            let e4 = lit_vec("avi");
            let e5 = lit_vec("mov");
            bytes_eq(&low, &e1) || bytes_eq(&low, &e2) || bytes_eq(&low, &e3) || bytes_eq(
                &low,
                &e4,
            ) || bytes_eq(&low, &e5)
        },
        None => false,
    }
}

/// The names of `names` that are kept as videos, in order.
pub open spec fn sp_video_names(names: Seq<Seq<u8>>) -> Seq<Seq<u8>>
    decreases names.len(),
{
    if names.len() == 0 {
        Seq::empty()
    } else {
        (if sp_is_video_filename(names[0]) {
            seq![names[0]]
        } else {
            Seq::empty()
        }) + sp_video_names(names.drop_first())
    }
}

/// Keep, in order, the file names that count as videos.
pub fn filter_video_names(names: Vec<Vec<u8>>) -> (r: Vec<Vec<u8>>)
    ensures
        crate::events::bytes_model(r@) == sp_video_names(crate::events::bytes_model(names@)),
    decreases names.len(),
{
    let mut names = names;
    if names.len() == 0 {
        let none: Vec<Vec<u8>> = Vec::new();
        proof {
            assert(crate::events::bytes_model(none@) =~= Seq::<Seq<u8>>::empty());
            assert(crate::events::bytes_model(names@).len() == 0);
        }
        none
    } else {
        let ghost whole = crate::events::bytes_model(names@);
        let head = names.remove(0);
        proof {
            assert(crate::events::bytes_model(names@) =~= whole.drop_first());
            assert(whole[0] == head@);
        }
        let keep = is_video_filename(&head);
        let mut rest = filter_video_names(names);
        if keep {
            let ghost restm = crate::events::bytes_model(rest@);
            rest.insert(0, head);
            proof {
                assert forall|k: int| 0 <= k < rest@.len() implies crate::events::bytes_model(
                    rest@,
                )[k] == (seq![whole[0]] + restm)[k] by {}
                assert(crate::events::bytes_model(rest@) =~= seq![whole[0]] + restm);
                assert(crate::events::bytes_model(rest@) =~= sp_video_names(whole));
            }
            rest
        } else {
            proof {
                assert(crate::events::bytes_model(rest@) =~= sp_video_names(whole));
            }
            rest
        }
    }
}

/// Whether the video picker is offered at all: only the two batch modes
/// pick video folders.
pub fn mode_allows_video_pick(mode: &Vec<u8>) -> (r: bool)
    ensures
        r == (mode@ == "movie".spec_bytes() || mode@ == "series".spec_bytes()),
{
    let m1 = lit_vec("movie");
    let m2 = lit_vec("series");
    bytes_eq(mode, &m1) || bytes_eq(mode, &m2)
}

/// Whether the request is in single-file (movie) mode.
pub fn mode_is_movie(mode: &Vec<u8>) -> (r: bool)
    ensures
        r == (mode@ == "movie".spec_bytes()),
{
    let m1 = lit_vec("movie");
    bytes_eq(mode, &m1)
}

} // verus!

//! Interpretation of the media-probing utility's structured output.
//!
//! The application invokes the external prober and hands its whole
//! standard output here; the verified code parses it under the wire
//! grammar and reads off whether the file has an audio stream, whether it
//! has a video stream, and the reported duration text.  An output that is
//! not one well-formed object is a hard error for that single probe.

use vstd::prelude::*;
use crate::codec::{
    sp_is_number_text, is_number_text, sp_lookup, sp_str_inner, lit_vec, bytes_eq,
};
use crate::json::{
    InnerPair, InnerPairModel, TopPairModel, TopVal, TopValModel, obj_list_model, parse_doc,
    sp_doc,
};
use crate::events::view_opt_bytes;
use vstd::string::StringSliceAdditionalSpecFns;

verus! {

/// What one probe reports about one file.
pub struct MediaProbe {
    pub has_audio: bool,
    pub has_video: bool,
    pub duration: Option<Vec<u8>>,
}

/// Mathematical view of a [`MediaProbe`].
pub struct MediaProbeModel {
    pub has_audio: bool,
    pub has_video: bool,
    pub duration: Option<Seq<u8>>,
}

impl View for MediaProbe {
    type V = MediaProbeModel;

    open spec fn view(&self) -> MediaProbeModel {
        MediaProbeModel {
            has_audio: self.has_audio,
            has_video: self.has_video,
            duration: view_opt_bytes(self.duration),
        }
    }
}

/// Whether some stream object at or after `i` declares the given codec
/// type.
pub open spec fn sp_has_codec(os: Seq<Seq<InnerPairModel>>, kind: Seq<u8>, i: int) -> bool
    decreases os.len() - i,
{
    if !(0 <= i < os.len()) {
        false
    } else if sp_str_inner(os[i], "codec_type".spec_bytes()) == Some(kind) {
        true
    } else {
        sp_has_codec(os, kind, i + 1)
    }
}

/// The stream list of a probe document; a missing or ill-typed `streams`
/// field reads as no streams, not as an error.
pub open spec fn sp_streams(ps: Seq<TopPairModel>) -> Seq<Seq<InnerPairModel>> {
    match sp_lookup(ps, "streams".spec_bytes()) {
        Some(TopValModel::Arr(os)) => os,
        _ => Seq::empty(),
    }
}

/// The duration text of a probe document: the `duration` string of the
/// `format` object, kept only when it is well-formed number text.
pub open spec fn sp_duration(ps: Seq<TopPairModel>) -> Option<Seq<u8>> {
    match sp_lookup(ps, "format".spec_bytes()) {
        Some(TopValModel::Obj(o)) => match sp_str_inner(o, "duration".spec_bytes()) {
            Some(t) => if sp_is_number_text(t) {
                Some(t)
            } else {
                None
            },
            None => None,
        },
        _ => None,
    }
}

/// The probe read off a parsed document.
pub open spec fn sp_probe_of(ps: Seq<TopPairModel>) -> MediaProbeModel {
    MediaProbeModel {
        has_audio: sp_has_codec(sp_streams(ps), "audio".spec_bytes(), 0),
        has_video: sp_has_codec(sp_streams(ps), "video".spec_bytes(), 0),
        duration: sp_duration(ps),
    }
}

/// The interpretation of the prober's whole output: `None` when it is not
/// one well-formed object (a hard error for this single probe), otherwise
/// exactly the probe the document describes.
pub open spec fn sp_interpret_probe(out: Seq<u8>) -> Option<MediaProbeModel> {
    match sp_doc(out) {
        Some(ps) => Some(sp_probe_of(ps)),
        None => None,
    }
}

/// Executable mirror of [`sp_has_codec`].
fn has_codec(os: &Vec<Vec<InnerPair>>, kind: &Vec<u8>, i: usize) -> (r: bool)
    requires
        i <= os.len(),
    ensures
        r == sp_has_codec(obj_list_model(os@), kind@, i as int),
    decreases os.len() - i,
{
    if i >= os.len() {
        false
    } else {
        let kct = lit_vec("codec_type");
        match crate::codec::str_inner(&os[i], &kct) {
            Some(t) => {
                if bytes_eq(&t, kind) {
                    true
                } else {
                    has_codec(os, kind, i + 1)
                }
            },
            None => has_codec(os, kind, i + 1),
        }
    }
}

/// Executable mirror of [`sp_interpret_probe`].
pub fn interpret_probe(out: &Vec<u8>) -> (r: Option<MediaProbe>)
    ensures
        (match r {
            Some(p) => Some(p@),
            None => None,
        }) == sp_interpret_probe(out@),
{
    let ps = match parse_doc(out) {
        Some(ps) => ps,
        None => {
            return None;
        },
    };
    let kstreams = lit_vec("streams");
    let kformat = lit_vec("format");
    let kduration = lit_vec("duration");
    let kaudio = lit_vec("audio");
    let kvideo = lit_vec("video");
    let empty_streams: Vec<Vec<InnerPair>> = Vec::new();
    proof {
        assert(obj_list_model(empty_streams@) =~= Seq::<Seq<InnerPairModel>>::empty());
    }
    let (has_audio, has_video) = match crate::codec::lookup_from(&ps, &kstreams, 0) {
        Some(k) => {
            match &ps[k].val {
                TopVal::Arr(os) => (has_codec(os, &kaudio, 0), has_codec(os, &kvideo, 0)),
                _ => (
                    has_codec(&empty_streams, &kaudio, 0),
                    has_codec(&empty_streams, &kvideo, 0),
                ),
            }
        },
        None => (has_codec(&empty_streams, &kaudio, 0), has_codec(&empty_streams, &kvideo, 0)),
    };
    let duration = match crate::codec::lookup_from(&ps, &kformat, 0) {
        Some(k) => {
            match &ps[k].val {
                TopVal::Obj(o) => match crate::codec::str_inner(o, &kduration) {
                    Some(t) => {
                        if is_number_text(&t) {
                            Some(t)
                        } else {
                            None
                        }
                    },
                    None => None,
                },
                _ => None,
            }
        },
        None => None,
    };
    Some(MediaProbe { has_audio, has_video, duration })
}

} // verus!

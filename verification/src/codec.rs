//! The job codec: decoding one worker output line into a [`BridgeEvent`],
//! and encoding a [`JobRequest`] as the single line written to the worker's
//! input stream.
//!
//! A line is first parsed under the wire grammar (`json`), then the event is
//! extracted by tag dispatch on the `type` field.  Blank lines are skipped;
//! every other failure — unparsable text, an unknown tag, a missing or
//! ill-typed field — is one recoverable `Malformed` outcome, never an error
//! of the session.

use vstd::prelude::*;
use crate::events::{
    BridgeEvent, EventModel, JobRequest, SyncResult, SyncResultModel, copy_bytes, results_model,
    view_opt_bytes,
};
use crate::json::{
    InnerPair, InnerPairModel, InnerVal, InnerValModel, Scalar, ScalarModel, TopPair,
    TopPairModel, TopVal, TopValModel, doc_model, inner_obj_model, obj_list_model, is_blank, parse_doc,
    sp_blank, sp_doc,
};
use vstd::string::StrSliceExecFns;
use vstd::string::StringSliceAdditionalSpecFns;

verus! {

/// The literal's bytes as a vector (the worker protocol is byte-oriented).
pub fn lit_vec(lit: &str) -> (r: Vec<u8>)
    ensures
        r@ == lit.spec_bytes(),
{
    lit.as_bytes_vec()
}

/// Byte-for-byte equality of two byte strings.
pub fn bytes_eq(a: &Vec<u8>, b: &Vec<u8>) -> (r: bool)
    ensures
        r == (a@ == b@),
{
    if a.len() != b.len() {
        return false;
    }
    let mut i: usize = 0;
    while i < a.len()
        invariant
            i <= a.len(),
            a.len() == b.len(),
            forall|k: int| 0 <= k < i ==> a@[k] == b@[k],
        decreases a.len() - i,
    {
        if a[i] != b[i] {
            return false;
        }
        i = i + 1;
    }
    proof {
        assert(a@ =~= b@);
    }
    true
}

/// Value of a run of decimal digits, most significant first.
pub open spec fn sp_dec_val(t: Seq<u8>) -> int
    decreases t.len(),
{
    if t.len() == 0 {
        0
    } else {
        sp_dec_val(t.drop_last()) * 10 + (t.last() - 48)
    }
}

proof fn lemma_dec_val_nonneg(t: Seq<u8>)
    requires
        sp_all_digits(t),
    ensures
        sp_dec_val(t) >= 0,
    decreases t.len(),
{
    if t.len() > 0 {
        assert(sp_all_digits(t.drop_last()));
        lemma_dec_val_nonneg(t.drop_last());
        assert(sp_dec_val(t.drop_last()) * 10 >= 0) by (nonlinear_arith)
            requires
                sp_dec_val(t.drop_last()) >= 0,
        ;
    }
}

/// Whether every byte of `t` is a decimal digit.
pub open spec fn sp_all_digits(t: Seq<u8>) -> bool {
    forall|k: int| 0 <= k < t.len() ==> 48 <= #[trigger] t[k] <= 57
}

/// The unsigned value of a digit string, when it is one and fits in `u64`.
pub open spec fn sp_parse_u64(t: Seq<u8>) -> Option<u64> {
    if t.len() >= 1 && sp_all_digits(t) && 0 <= sp_dec_val(t) <= u64::MAX {
        Some(sp_dec_val(t) as u64)
    } else {
        None
    }
}

proof fn lemma_dec_val_step(t: Seq<u8>, m: int)
    requires
        0 <= m < t.len(),
        sp_all_digits(t),
    ensures
        sp_dec_val(t.subrange(0, m)) <= sp_dec_val(t.subrange(0, m + 1)),
{
    let p = t.subrange(0, m + 1);
    assert(p.drop_last() =~= t.subrange(0, m));
    assert(sp_all_digits(t.subrange(0, m)));
    lemma_dec_val_nonneg(t.subrange(0, m));
    assert(sp_dec_val(p) == sp_dec_val(t.subrange(0, m)) * 10 + (p.last() - 48));
    assert(sp_dec_val(t.subrange(0, m)) * 10 >= sp_dec_val(t.subrange(0, m))) by (nonlinear_arith)
        requires
            sp_dec_val(t.subrange(0, m)) >= 0,
    ;
}

proof fn lemma_dec_val_mono(t: Seq<u8>, m: int)
    requires
        0 <= m <= t.len(),
        sp_all_digits(t),
    ensures
        sp_dec_val(t.subrange(0, m)) <= sp_dec_val(t),
    decreases t.len() - m,
{
    if m == t.len() {
        assert(t.subrange(0, m) =~= t);
    } else {
        lemma_dec_val_step(t, m);
        lemma_dec_val_mono(t, m + 1);
    }
}

/// Executable mirror of [`sp_parse_u64`].
pub fn parse_u64(t: &Vec<u8>) -> (r: Option<u64>)
    ensures
        r == sp_parse_u64(t@),
{
    if t.len() == 0 {
        return None;
    }
    let mut acc: u64 = 0;
    let mut i: usize = 0;
    while i < t.len()
        invariant
            i <= t.len(),
            forall|k: int| 0 <= k < i ==> 48 <= #[trigger] t@[k] <= 57,
            acc == sp_dec_val(t@.subrange(0, i as int)),
        decreases t.len() - i,
    {
        let b = t[i];
        if !(48 <= b && b <= 57) {
            assert(!sp_all_digits(t@));
            return None;
        }
        let d: u64 = (b - 48) as u64;
        proof {
            assert(t@.subrange(0, i + 1 as int).drop_last() =~= t@.subrange(0, i as int));
            assert(sp_dec_val(t@.subrange(0, i + 1 as int)) == acc * 10 + d);
        }
        if acc > (u64::MAX - d) / 10 {
            proof {
                assert(acc * 10 + d > u64::MAX) by (nonlinear_arith)
                    requires
                        acc > (u64::MAX - d) / 10,
                        d <= 9,
                ;
                if sp_all_digits(t@) {
                    lemma_dec_val_mono(t@, i + 1);
                }
            }
            return None;
        }
        proof {
            assert(acc * 10 + d <= u64::MAX) by (nonlinear_arith)
                requires
                    acc <= (u64::MAX - d) / 10,
                    d <= 9,
            ;
        }
        acc = acc * 10 + d;
        i = i + 1;
    }
    proof {
        assert(t@.subrange(0, t@.len() as int) =~= t@);
    }
    Some(acc)
}

/// First occurrence of `key` in the top-level pairs, from position `i` on.
pub open spec fn sp_lookup_from(ps: Seq<TopPairModel>, key: Seq<u8>, i: int) -> Option<
    TopValModel,
>
    decreases ps.len() - i,
{
    if i < 0 || i >= ps.len() {
        None
    } else if ps[i].key == key {
        Some(ps[i].val)
    } else {
        sp_lookup_from(ps, key, i + 1)
    }
}

/// First occurrence of `key` in the top-level pairs.
pub open spec fn sp_lookup(ps: Seq<TopPairModel>, key: Seq<u8>) -> Option<TopValModel> {
    sp_lookup_from(ps, key, 0)
}

/// Executable mirror of [`sp_lookup_from`], returning the pair's index.
pub fn lookup_from(ps: &Vec<TopPair>, key: &Vec<u8>, i: usize) -> (r: Option<usize>)
    requires
        i <= ps.len(),
    ensures
        match r {
            Some(k) => i <= k < ps.len() && sp_lookup_from(doc_model(ps@), key@, i as int)
                == Some(doc_model(ps@)[k as int].val),
            None => sp_lookup_from(doc_model(ps@), key@, i as int) is None,
        },
    decreases ps.len() - i,
{
    if i >= ps.len() {
        None
    } else if bytes_eq(&ps[i].key, key) {
        Some(i)
    } else {
        lookup_from(ps, key, i + 1)
    }
}

/// First occurrence of `key` in an inner object, from position `i` on.
pub open spec fn sp_lookup_inner_from(o: Seq<InnerPairModel>, key: Seq<u8>, i: int) -> Option<
    InnerValModel,
>
    decreases o.len() - i,
{
    if i < 0 || i >= o.len() {
        None
    } else if o[i].key == key {
        Some(o[i].val)
    } else {
        sp_lookup_inner_from(o, key, i + 1)
    }
}

/// First occurrence of `key` in an inner object.
pub open spec fn sp_lookup_inner(o: Seq<InnerPairModel>, key: Seq<u8>) -> Option<InnerValModel> {
    sp_lookup_inner_from(o, key, 0)
}

/// Executable mirror of [`sp_lookup_inner_from`], returning the pair's index.
fn lookup_inner_from(o: &Vec<InnerPair>, key: &Vec<u8>, i: usize) -> (r: Option<usize>)
    requires
        i <= o.len(),
    ensures
        match r {
            Some(k) => i <= k < o.len() && sp_lookup_inner_from(inner_obj_model(o@), key@, i as int)
                == Some(inner_obj_model(o@)[k as int].val),
            None => sp_lookup_inner_from(inner_obj_model(o@), key@, i as int) is None,
        },
    decreases o.len() - i,
{
    if i >= o.len() {
        None
    } else if bytes_eq(&o[i].key, key) {
        Some(i)
    } else {
        lookup_inner_from(o, key, i + 1)
    }
}

/// A required string field of the top-level object.
pub open spec fn sp_str_top(ps: Seq<TopPairModel>, key: Seq<u8>) -> Option<Seq<u8>> {
    match sp_lookup(ps, key) {
        Some(TopValModel::Sc(ScalarModel::Str(t))) => Some(t),
        _ => None,
    }
}

/// Executable mirror of [`sp_str_top`].
fn str_top(ps: &Vec<TopPair>, key: &Vec<u8>) -> (r: Option<Vec<u8>>)
    ensures
        (match r {
            Some(t) => Some(t@),
            None => None,
        }) == sp_str_top(doc_model(ps@), key@),
{
    match lookup_from(ps, key, 0) {
        Some(k) => {
            match &ps[k].val {
                TopVal::Sc(Scalar::Str(t)) => Some(copy_bytes(t)),
                _ => None,
            }
        },
        None => None,
    }
}

/// An optional string field of the top-level object: absent and `null`
/// both mean "no value"; any other type is ill-formed.
pub open spec fn sp_opt_str_top(ps: Seq<TopPairModel>, key: Seq<u8>) -> Option<Option<Seq<u8>>> {
    match sp_lookup(ps, key) {
        None => Some(None),
        Some(TopValModel::Sc(ScalarModel::Null)) => Some(None),
        Some(TopValModel::Sc(ScalarModel::Str(t))) => Some(Some(t)),
        _ => None,
    }
}

/// Executable mirror of [`sp_opt_str_top`].
fn opt_str_top(ps: &Vec<TopPair>, key: &Vec<u8>) -> (r: Option<Option<Vec<u8>>>)
    ensures
        (match r {
            Some(o) => Some(view_opt_bytes(o)),
            None => None,
        }) == sp_opt_str_top(doc_model(ps@), key@),
{
    match lookup_from(ps, key, 0) {
        None => Some(None),
        Some(k) => {
            match &ps[k].val {
                TopVal::Sc(Scalar::Null) => Some(None),
                TopVal::Sc(Scalar::Str(t)) => Some(Some(copy_bytes(t))),
                _ => None,
            }
        },
    }
}

/// A required unsigned integer field of the top-level object.
pub open spec fn sp_u64_top(ps: Seq<TopPairModel>, key: Seq<u8>) -> Option<u64> {
    match sp_lookup(ps, key) {
        Some(TopValModel::Sc(ScalarModel::Num(t))) => sp_parse_u64(t),
        _ => None,
    }
}

/// Executable mirror of [`sp_u64_top`].
fn u64_top(ps: &Vec<TopPair>, key: &Vec<u8>) -> (r: Option<u64>)
    ensures
        r == sp_u64_top(doc_model(ps@), key@),
{
    match lookup_from(ps, key, 0) {
        Some(k) => {
            match &ps[k].val {
                TopVal::Sc(Scalar::Num(t)) => parse_u64(t),
                _ => None,
            }
        },
        None => None,
    }
}

/// An optional unsigned integer field of the top-level object.
pub open spec fn sp_opt_u64_top(ps: Seq<TopPairModel>, key: Seq<u8>) -> Option<Option<u64>> {
    match sp_lookup(ps, key) {
        None => Some(None),
        Some(TopValModel::Sc(ScalarModel::Null)) => Some(None),
        Some(TopValModel::Sc(ScalarModel::Num(t))) => match sp_parse_u64(t) {
            Some(n) => Some(Some(n)),
            None => None,
        },
        _ => None,
    }
}

/// Executable mirror of [`sp_opt_u64_top`].
fn opt_u64_top(ps: &Vec<TopPair>, key: &Vec<u8>) -> (r: Option<Option<u64>>)
    ensures
        r == sp_opt_u64_top(doc_model(ps@), key@),
{
    match lookup_from(ps, key, 0) {
        None => Some(None),
        Some(k) => {
            match &ps[k].val {
                TopVal::Sc(Scalar::Null) => Some(None),
                TopVal::Sc(Scalar::Num(t)) => match parse_u64(t) {
                    Some(n) => Some(Some(n)),
                    None => None,
                },
                _ => None,
            }
        },
    }
}

/// An optional numeric field of the top-level object, kept as its exact
/// decimal text.
pub open spec fn sp_opt_num_top(ps: Seq<TopPairModel>, key: Seq<u8>) -> Option<
    Option<Seq<u8>>,
> {
    match sp_lookup(ps, key) {
        None => Some(None),
        Some(TopValModel::Sc(ScalarModel::Null)) => Some(None),
        Some(TopValModel::Sc(ScalarModel::Num(t))) => Some(Some(t)),
        _ => None,
    }
}

/// Executable mirror of [`sp_opt_num_top`].
fn opt_num_top(ps: &Vec<TopPair>, key: &Vec<u8>) -> (r: Option<Option<Vec<u8>>>)
    ensures
        (match r {
            Some(o) => Some(view_opt_bytes(o)),
            None => None,
        }) == sp_opt_num_top(doc_model(ps@), key@),
{
    match lookup_from(ps, key, 0) {
        None => Some(None),
        Some(k) => {
            match &ps[k].val {
                TopVal::Sc(Scalar::Null) => Some(None),
                TopVal::Sc(Scalar::Num(t)) => Some(Some(copy_bytes(t))),
                _ => None,
            }
        },
    }
}

/// A required string field of an inner object.
pub open spec fn sp_str_inner(o: Seq<InnerPairModel>, key: Seq<u8>) -> Option<Seq<u8>> {
    match sp_lookup_inner(o, key) {
        Some(InnerValModel::Sc(ScalarModel::Str(t))) => Some(t),
        _ => None,
    }
}

/// Executable mirror of [`sp_str_inner`].
pub fn str_inner(o: &Vec<InnerPair>, key: &Vec<u8>) -> (r: Option<Vec<u8>>)
    ensures
        (match r {
            Some(t) => Some(t@),
            None => None,
        }) == sp_str_inner(inner_obj_model(o@), key@),
{
    match lookup_inner_from(o, key, 0) {
        Some(k) => {
            match &o[k].val {
                InnerVal::Sc(Scalar::Str(t)) => Some(copy_bytes(t)),
                _ => None,
            }
        },
        None => None,
    }
}

/// An optional string field of an inner object.
pub open spec fn sp_opt_str_inner(o: Seq<InnerPairModel>, key: Seq<u8>) -> Option<
    Option<Seq<u8>>,
> {
    match sp_lookup_inner(o, key) {
        None => Some(None),
        Some(InnerValModel::Sc(ScalarModel::Null)) => Some(None),
        Some(InnerValModel::Sc(ScalarModel::Str(t))) => Some(Some(t)),
        _ => None,
    }
}

/// Executable mirror of [`sp_opt_str_inner`].
fn opt_str_inner(o: &Vec<InnerPair>, key: &Vec<u8>) -> (r: Option<Option<Vec<u8>>>)
    ensures
        (match r {
            Some(x) => Some(view_opt_bytes(x)),
            None => None,
        }) == sp_opt_str_inner(inner_obj_model(o@), key@),
{
    match lookup_inner_from(o, key, 0) {
        None => Some(None),
        Some(k) => {
            match &o[k].val {
                InnerVal::Sc(Scalar::Null) => Some(None),
                InnerVal::Sc(Scalar::Str(t)) => Some(Some(copy_bytes(t))),
                _ => None,
            }
        },
    }
}

/// An optional numeric field of an inner object, kept as decimal text.
pub open spec fn sp_opt_num_inner(o: Seq<InnerPairModel>, key: Seq<u8>) -> Option<
    Option<Seq<u8>>,
> {
    match sp_lookup_inner(o, key) {
        None => Some(None),
        Some(InnerValModel::Sc(ScalarModel::Null)) => Some(None),
        Some(InnerValModel::Sc(ScalarModel::Num(t))) => Some(Some(t)),
        _ => None,
    }
}

/// Executable mirror of [`sp_opt_num_inner`].
fn opt_num_inner(o: &Vec<InnerPair>, key: &Vec<u8>) -> (r: Option<Option<Vec<u8>>>)
    ensures
        (match r {
            Some(x) => Some(view_opt_bytes(x)),
            None => None,
        }) == sp_opt_num_inner(inner_obj_model(o@), key@),
{
    match lookup_inner_from(o, key, 0) {
        None => Some(None),
        Some(k) => {
            match &o[k].val {
                InnerVal::Sc(Scalar::Null) => Some(None),
                InnerVal::Sc(Scalar::Num(t)) => Some(Some(copy_bytes(t))),
                _ => None,
            }
        },
    }
}

/// An optional unsigned integer field of an inner object.
pub open spec fn sp_opt_u64_inner(o: Seq<InnerPairModel>, key: Seq<u8>) -> Option<Option<u64>> {
    match sp_lookup_inner(o, key) {
        None => Some(None),
        Some(InnerValModel::Sc(ScalarModel::Null)) => Some(None),
        Some(InnerValModel::Sc(ScalarModel::Num(t))) => match sp_parse_u64(t) {
            Some(n) => Some(Some(n)),
            None => None,
        },
        _ => None,
    }
}

/// Executable mirror of [`sp_opt_u64_inner`].
fn opt_u64_inner(o: &Vec<InnerPair>, key: &Vec<u8>) -> (r: Option<Option<u64>>)
    ensures
        r == sp_opt_u64_inner(inner_obj_model(o@), key@),
{
    match lookup_inner_from(o, key, 0) {
        None => Some(None),
        Some(k) => {
            match &o[k].val {
                InnerVal::Sc(Scalar::Null) => Some(None),
                InnerVal::Sc(Scalar::Num(t)) => match parse_u64(t) {
                    Some(n) => Some(Some(n)),
                    None => None,
                },
                _ => None,
            }
        },
    }
}


/// The elapsed-time field of one result entry.  Entries written by the
/// worker's incremental protocol carry `elapsed_ms`; entries re-serialized
/// from a result record carry `elapsedMs`; both spellings are read.
pub open spec fn sp_elapsed_inner(o: Seq<InnerPairModel>) -> Option<Option<u64>> {
    if sp_lookup_inner(o, "elapsed_ms".spec_bytes()) is Some {
        sp_opt_u64_inner(o, "elapsed_ms".spec_bytes())
    } else {
        sp_opt_u64_inner(o, "elapsedMs".spec_bytes())
    }
}

/// Executable mirror of [`sp_elapsed_inner`].
fn elapsed_inner(o: &Vec<InnerPair>) -> (r: Option<Option<u64>>)
    ensures
        r == sp_elapsed_inner(inner_obj_model(o@)),
{
    let snake = lit_vec("elapsed_ms");
    match lookup_inner_from(o, &snake, 0) {
        Some(_) => opt_u64_inner(o, &snake),
        None => {
            let camel = lit_vec("elapsedMs");
            opt_u64_inner(o, &camel)
        },
    }
}

/// One result record extracted from an inner object of a `done` list.
pub open spec fn sp_result_inner(o: Seq<InnerPairModel>) -> Option<SyncResultModel> {
    match (
        sp_str_inner(o, "videoFile".spec_bytes()),
        sp_str_inner(o, "audioFile".spec_bytes()),
        sp_opt_num_inner(o, "startDelay".spec_bytes()),
        sp_opt_num_inner(o, "endDelay".spec_bytes()),
        sp_opt_str_inner(o, "error".spec_bytes()),
        sp_elapsed_inner(o),
    ) {
        (Some(vf), Some(af), Some(sd), Some(ed), Some(er), Some(em)) => Some(
            SyncResultModel {
                video_file: vf,
                audio_file: af,
                start_delay: sd,
                end_delay: ed,
                error: er,
                elapsed_ms: em,
            },
        ),
        _ => None,
    }
}

/// Executable mirror of [`sp_result_inner`].
fn result_inner(o: &Vec<InnerPair>) -> (r: Option<SyncResult>)
    ensures
        (match r {
            Some(x) => Some(x@),
            None => None,
        }) == sp_result_inner(inner_obj_model(o@)),
{
    let kvf = lit_vec("videoFile");
    let kaf = lit_vec("audioFile");
    let ksd = lit_vec("startDelay");
    let ked = lit_vec("endDelay");
    let ker = lit_vec("error");
    match (
        str_inner(o, &kvf),
        str_inner(o, &kaf),
        opt_num_inner(o, &ksd),
        opt_num_inner(o, &ked),
        opt_str_inner(o, &ker),
        elapsed_inner(o),
    ) {
        (Some(vf), Some(af), Some(sd), Some(ed), Some(er), Some(em)) => Some(
            SyncResult {
                video_file: vf,
                audio_file: af,
                start_delay: sd,
                end_delay: ed,
                error: er,
                elapsed_ms: em,
            },
        ),
        _ => None,
    }
}

/// One result record carried by a `result` event on the top-level object.
pub open spec fn sp_result_top(ps: Seq<TopPairModel>) -> Option<SyncResultModel> {
    match (
        sp_str_top(ps, "videoFile".spec_bytes()),
        sp_str_top(ps, "audioFile".spec_bytes()),
        sp_opt_num_top(ps, "startDelay".spec_bytes()),
        sp_opt_num_top(ps, "endDelay".spec_bytes()),
        sp_opt_str_top(ps, "error".spec_bytes()),
        sp_opt_u64_top(ps, "elapsed_ms".spec_bytes()),
    ) {
        (Some(vf), Some(af), Some(sd), Some(ed), Some(er), Some(em)) => Some(
            SyncResultModel {
                video_file: vf,
                audio_file: af,
                start_delay: sd,
                end_delay: ed,
                error: er,
                elapsed_ms: em,
            },
        ),
        _ => None,
    }
}

/// Executable mirror of [`sp_result_top`].
fn result_top(ps: &Vec<TopPair>) -> (r: Option<SyncResult>)
    ensures
        (match r {
            Some(x) => Some(x@),
            None => None,
        }) == sp_result_top(doc_model(ps@)),
{
    let kvf = lit_vec("videoFile");
    let kaf = lit_vec("audioFile");
    let ksd = lit_vec("startDelay");
    let ked = lit_vec("endDelay");
    let ker = lit_vec("error");
    let kem = lit_vec("elapsed_ms");
    match (
        str_top(ps, &kvf),
        str_top(ps, &kaf),
        opt_num_top(ps, &ksd),
        opt_num_top(ps, &ked),
        opt_str_top(ps, &ker),
        opt_u64_top(ps, &kem),
    ) {
        (Some(vf), Some(af), Some(sd), Some(ed), Some(er), Some(em)) => Some(
            SyncResult {
                video_file: vf,
                audio_file: af,
                start_delay: sd,
                end_delay: ed,
                error: er,
                elapsed_ms: em,
            },
        ),
        _ => None,
    }
}

/// The result records of a `done` list, in order; any ill-formed entry
/// makes the whole list ill-formed.
pub open spec fn sp_results_from(os: Seq<Seq<InnerPairModel>>, i: int) -> Option<
    Seq<SyncResultModel>,
>
    decreases os.len() - i,
{
    if i < 0 || i >= os.len() {
        Some(Seq::empty())
    } else {
        match sp_result_inner(os[i]) {
            None => None,
            Some(x) => match sp_results_from(os, i + 1) {
                Some(rest) => Some(seq![x] + rest),
                None => None,
            },
        }
    }
}

/// Executable mirror of [`sp_results_from`].
fn results_from(os: &Vec<Vec<InnerPair>>, i: usize) -> (r: Option<Vec<SyncResult>>)
    requires
        i <= os.len(),
    ensures
        (match r {
            Some(v) => Some(results_model(v@)),
            None => None,
        }) == sp_results_from(obj_list_model(os@), i as int),
    decreases os.len() - i,
{
    if i >= os.len() {
        let none: Vec<SyncResult> = Vec::new();
        proof {
            assert(results_model(none@) =~= Seq::<SyncResultModel>::empty());
        }
        Some(none)
    } else {
        match result_inner(&os[i]) {
            None => None,
            Some(x) => match results_from(os, i + 1) {
                Some(rest) => {
                    let mut rest = rest;
                    let ghost rest0 = rest@;
                    let ghost xm = x@;
                    rest.insert(0, x);
                    proof {
                        assert forall|k: int| 0 <= k < rest@.len() implies results_model(rest@)[k]
                            == (seq![xm] + results_model(rest0))[k] by {
                            if k > 0 {
                                assert(rest@[k] == rest0[k - 1]);
                            }
                        }
                        assert(results_model(rest@) =~= seq![xm] + results_model(rest0));
                    }
                    Some(rest)
                },
                None => None,
            },
        }
    }
}

/// The event carried by a parsed line, by tag dispatch on its `type`
/// field; `None` when the tag is unknown or a field is missing or
/// ill-typed.
pub open spec fn sp_event(ps: Seq<TopPairModel>) -> Option<EventModel> {
    match sp_str_top(ps, "type".spec_bytes()) {
        None => None,
        Some(tag) => {
            if tag == "progress".spec_bytes() {
                match (
                    sp_u64_top(ps, "processed".spec_bytes()),
                    sp_u64_top(ps, "total".spec_bytes()),
                    sp_opt_str_top(ps, "current".spec_bytes()),
                ) {
                    (Some(p), Some(t), Some(c)) => Some(
                        EventModel::Progress { processed: p, total: t, current: c },
                    ),
                    _ => None,
                }
            } else if tag == "file_start".spec_bytes() {
                match sp_str_top(ps, "file".spec_bytes()) {
                    Some(f) => Some(EventModel::FileStart { file: f }),
                    None => None,
                }
            } else if tag == "file_end".spec_bytes() {
                match (
                    sp_str_top(ps, "file".spec_bytes()),
                    sp_u64_top(ps, "elapsed_ms".spec_bytes()),
                ) {
                    (Some(f), Some(e)) => Some(EventModel::FileEnd { file: f, elapsed_ms: e }),
                    _ => None,
                }
            } else if tag == "file_progress".spec_bytes() {
                match (
                    sp_str_top(ps, "file".spec_bytes()),
                    sp_u64_top(ps, "percent".spec_bytes()),
                ) {
                    (Some(f), Some(n)) => {
                        if n <= 255 {
                            Some(EventModel::FileProgress { file: f, percent: n as u8 })
                        } else {
                            None
                        }
                    },
                    _ => None,
                }
            } else if tag == "log".spec_bytes() {
                match sp_str_top(ps, "message".spec_bytes()) {
                    Some(m) => Some(EventModel::Log { message: m }),
                    None => None,
                }
            } else if tag == "result".spec_bytes() {
                match sp_result_top(ps) {
                    Some(x) => Some(EventModel::ResultItem { result: x }),
                    None => None,
                }
            } else if tag == "done".spec_bytes() {
                match sp_lookup(ps, "results".spec_bytes()) {
                    Some(TopValModel::Arr(os)) => match sp_results_from(os, 0) {
                        Some(rs) => Some(EventModel::Done { results: rs }),
                        None => None,
                    },
                    _ => None,
                }
            } else {
                None
            }
        },
    }
}

/// Executable mirror of [`sp_event`].
pub fn event_of(ps: &Vec<TopPair>) -> (r: Option<BridgeEvent>)
    ensures
        (match r {
            Some(e) => Some(e@),
            None => None,
        }) == sp_event(doc_model(ps@)),
{
    let ktype = lit_vec("type");
    let tag = match str_top(ps, &ktype) {
        Some(t) => t,
        None => {
            return None;
        },
    };
    let t_progress = lit_vec("progress");
    let t_file_start = lit_vec("file_start");
    let t_file_end = lit_vec("file_end");
    let t_file_progress = lit_vec("file_progress");
    let t_log = lit_vec("log");
    let t_result = lit_vec("result");
    let t_done = lit_vec("done");
    if bytes_eq(&tag, &t_progress) {
        let kp = lit_vec("processed");
        let kt = lit_vec("total");
        let kc = lit_vec("current");
        match (u64_top(ps, &kp), u64_top(ps, &kt), opt_str_top(ps, &kc)) {
            (Some(p), Some(t), Some(c)) => Some(
                BridgeEvent::Progress { processed: p, total: t, current: c },
            ),
            _ => None,
        }
    } else if bytes_eq(&tag, &t_file_start) {
        let kf = lit_vec("file");
        match str_top(ps, &kf) {
            Some(f) => Some(BridgeEvent::FileStart { file: f }),
            None => None,
        }
    } else if bytes_eq(&tag, &t_file_end) {
        let kf = lit_vec("file");
        let ke = lit_vec("elapsed_ms");
        match (str_top(ps, &kf), u64_top(ps, &ke)) {
            (Some(f), Some(e)) => Some(BridgeEvent::FileEnd { file: f, elapsed_ms: e }),
            _ => None,
        }
    } else if bytes_eq(&tag, &t_file_progress) {
        let kf = lit_vec("file");
        let kn = lit_vec("percent");
        match (str_top(ps, &kf), u64_top(ps, &kn)) {
            (Some(f), Some(n)) => {
                if n <= 255 {
                    Some(BridgeEvent::FileProgress { file: f, percent: n as u8 })
                } else {
                    None
                }
            },
            _ => None,
        }
    } else if bytes_eq(&tag, &t_log) {
        let km = lit_vec("message");
        match str_top(ps, &km) {
            Some(m) => Some(BridgeEvent::Log { message: m }),
            None => None,
        }
    } else if bytes_eq(&tag, &t_result) {
        match result_top(ps) {
            Some(x) => Some(BridgeEvent::ResultItem { result: x }),
            None => None,
        }
    } else if bytes_eq(&tag, &t_done) {
        let kr = lit_vec("results");
        match lookup_from(ps, &kr, 0) {
            Some(k) => {
                match &ps[k].val {
                    TopVal::Arr(os) => match results_from(os, 0) {
                        Some(rs) => Some(BridgeEvent::Done { results: rs }),
                        None => None,
                    },
                    _ => None,
                }
            },
            None => None,
        }
    } else {
        None
    }
}

/// The outcome of decoding one line of the worker's output stream.
pub enum Decoded {
    /// Only whitespace: skipped silently.
    Blank,
    /// Not a well-formed event: reported as a diagnostic, never fatal.
    Malformed,
    /// One well-formed protocol event.
    Event(BridgeEvent),
}

/// Mathematical view of a [`Decoded`].
pub enum DecodedModel {
    Blank,
    Malformed,
    Event(EventModel),
}

impl View for Decoded {
    type V = DecodedModel;

    open spec fn view(&self) -> DecodedModel {
        match self {
            Decoded::Blank => DecodedModel::Blank,
            Decoded::Malformed => DecodedModel::Malformed,
            Decoded::Event(e) => DecodedModel::Event(e@),
        }
    }
}

/// The decode of one raw line: blank lines are skipped, well-formed event
/// objects become events, and everything else is one recoverable
/// `Malformed` outcome.
pub open spec fn sp_decode(line: Seq<u8>) -> DecodedModel {
    if sp_blank(line) {
        DecodedModel::Blank
    } else {
        match sp_doc(line) {
            None => DecodedModel::Malformed,
            Some(ps) => match sp_event(ps) {
                Some(e) => DecodedModel::Event(e),
                None => DecodedModel::Malformed,
            },
        }
    }
}

/// Decode one line read from the worker's output stream.
///
/// Returns exactly the spec-level decode of the line's bytes.
pub fn decode_line(line: &Vec<u8>) -> (r: Decoded)
    ensures
        r@ == sp_decode(line@),
{
    if is_blank(line) {
        return Decoded::Blank;
    }
    match parse_doc(line) {
        None => Decoded::Malformed,
        Some(ps) => match event_of(&ps) {
            Some(e) => Decoded::Event(e),
            None => Decoded::Malformed,
        },
    }
}

/// The diagnostic text logged for a line that failed to decode: a fixed
/// prefix followed by the offending line verbatim.
pub open spec fn sp_diag(line: Seq<u8>) -> Seq<u8> {
    "invalid bridge message: ".spec_bytes() + line
}

/// Executable mirror of [`sp_diag`].
pub fn diag_message(line: &Vec<u8>) -> (r: Vec<u8>)
    ensures
        r@ == sp_diag(line@),
{
    let mut r = lit_vec("invalid bridge message: ");
    let mut i: usize = 0;
    while i < line.len()
        invariant
            i <= line.len(),
            r@ == "invalid bridge message: ".spec_bytes() + line@.subrange(0, i as int),
        decreases line.len() - i,
    {
        r.push(line[i]);
        proof {
            assert(r@ =~= "invalid bridge message: ".spec_bytes() + line@.subrange(
                0,
                i + 1 as int,
            ));
        }
        i = i + 1;
    }
    proof {
        assert(r@ =~= "invalid bridge message: ".spec_bytes() + line@);
    }
    r
}


/// A lowercase hexadecimal digit.
pub open spec fn sp_hexd(n: int) -> u8 {
    if n < 10 {
        (48 + n) as u8
    } else {
        (87 + n) as u8
    }
}

/// The escape of one byte inside an encoded string literal.
pub open spec fn sp_esc_enc(b: u8) -> Seq<u8> {
    if b == 34 {
        seq![92u8, 34u8]
    } else if b == 92 {
        seq![92u8, 92u8]
    } else if b == 10 {
        seq![92u8, 110u8]
    } else if b == 9 {
        seq![92u8, 116u8]
    } else if b == 13 {
        seq![92u8, 114u8]
    } else if b == 8 {
        seq![92u8, 98u8]
    } else if b == 12 {
        seq![92u8, 102u8]
    } else if b < 32 {
        seq![92u8, 117u8, 48u8, 48u8, sp_hexd(b as int / 16), sp_hexd(b as int % 16)]
    } else {
        seq![b]
    }
}

/// The escaped form of a whole byte string.
pub open spec fn sp_escape(s: Seq<u8>) -> Seq<u8>
    decreases s.len(),
{
    if s.len() == 0 {
        Seq::empty()
    } else {
        sp_escape(s.drop_last()) + sp_esc_enc(s.last())
    }
}

/// A quoted, escaped string literal.
pub open spec fn sp_quoted(s: Seq<u8>) -> Seq<u8> {
    seq![34u8] + sp_escape(s) + seq![34u8]
}

/// A quoted string or `null`.
pub open spec fn sp_opt_quoted(o: Option<Seq<u8>>) -> Seq<u8> {
    match o {
        Some(s) => sp_quoted(s),
        None => "null".spec_bytes(),
    }
}

/// The first `n` entries of a string list, quoted and comma-separated.
pub open spec fn sp_list_items(vs: Seq<Seq<u8>>, n: int) -> Seq<u8>
    decreases n,
{
    if n <= 0 {
        Seq::empty()
    } else if n == 1 {
        sp_quoted(vs[0])
    } else {
        sp_list_items(vs, n - 1) + seq![44u8] + sp_quoted(vs[n - 1])
    }
}

/// A bracketed list of quoted strings, or `null` when absent.
pub open spec fn sp_opt_list(o: Option<Seq<Seq<u8>>>) -> Seq<u8> {
    match o {
        Some(vs) => seq![91u8] + sp_list_items(vs, vs.len() as int) + seq![93u8],
        None => "null".spec_bytes(),
    }
}

/// The encoded job payload: one object with the request's fields in fixed
/// order, absent options written as `null`, and the segment duration
/// spliced in as the number text it already is.
pub open spec fn sp_encode_request(rm: crate::events::JobRequestModel) -> Seq<u8> {
    "{\"mode\":".spec_bytes() + sp_quoted(rm.mode) + ",\"video_folder\":".spec_bytes()
        + sp_opt_quoted(rm.video_folder) + ",\"audio_folder\":".spec_bytes() + sp_opt_quoted(
        rm.audio_folder,
    ) + ",\"audio_file\":".spec_bytes() + sp_opt_quoted(rm.audio_file)
        + ",\"video_files\":".spec_bytes() + sp_opt_list(rm.video_files)
        + ",\"segment_duration\":".spec_bytes() + rm.segment_duration
        + ",\"match_pattern\":".spec_bytes() + sp_opt_quoted(rm.match_pattern)
        + "}".spec_bytes()
}

/// Append a literal's bytes.
fn push_lit(out: &mut Vec<u8>, lit: &str)
    ensures
        final(out)@ == old(out)@ + lit.spec_bytes(),
{
    let l = lit_vec(lit);
    out.extend_from_slice(l.as_slice());
}

/// Append a quoted, escaped string literal.
fn push_quoted(out: &mut Vec<u8>, s: &Vec<u8>)
    ensures
        final(out)@ == old(out)@ + sp_quoted(s@),
{
    let ghost base = out@;
    out.push(34);
    let mut i: usize = 0;
    while i < s.len()
        invariant
            i <= s.len(),
            out@ == base + seq![34u8] + sp_escape(s@.subrange(0, i as int)),
        decreases s.len() - i,
    {
        let ghost mid = out@;
        let b = s[i];
        if b == 34 {
            out.push(92);
            out.push(34);
        } else if b == 92 {
            out.push(92);
            out.push(92);
        } else if b == 10 {
            out.push(92);
            out.push(110);
        } else if b == 9 {
            out.push(92);
            out.push(116);
        } else if b == 13 {
            out.push(92);
            out.push(114);
        } else if b == 8 {
            out.push(92);
            out.push(98);
        } else if b == 12 {
            out.push(92);
            out.push(102);
        } else if b < 32 {
            out.push(92);
            out.push(117);
            out.push(48);
            out.push(48);
            let hi = b / 16;
            let lo = b % 16;
            out.push(if hi < 10 { 48 + hi } else { 87 + hi });
            out.push(if lo < 10 { 48 + lo } else { 87 + lo });
        } else {
            out.push(b);
        }
        proof {
            assert(out@ =~= mid + sp_esc_enc(s@[i as int]));
            assert(s@.subrange(0, i + 1 as int).drop_last() =~= s@.subrange(0, i as int));
            assert(s@.subrange(0, i + 1 as int).last() == s@[i as int]);
            assert(out@ =~= base + seq![34u8] + sp_escape(s@.subrange(0, i + 1 as int)));
        }
        i = i + 1;
    }
    out.push(34);
    proof {
        assert(s@.subrange(0, s@.len() as int) =~= s@);
        assert(out@ =~= base + sp_quoted(s@));
    }
}

/// Append a quoted string or `null`.
fn push_opt_quoted(out: &mut Vec<u8>, o: &Option<Vec<u8>>)
    ensures
        final(out)@ == old(out)@ + sp_opt_quoted(view_opt_bytes(*o)),
{
    match o {
        Some(s) => push_quoted(out, s),
        None => push_lit(out, "null"),
    }
}

/// Append a bracketed list of quoted strings, or `null`.
fn push_opt_list(out: &mut Vec<u8>, o: &Option<Vec<Vec<u8>>>)
    ensures
        final(out)@ == old(out)@ + sp_opt_list(
            match *o {
                Some(vs) => Some(crate::events::bytes_model(vs@)),
                None => None,
            },
        ),
{
    match o {
        Some(vs) => {
            let ghost base = out@;
            let ghost vm = crate::events::bytes_model(vs@);
            out.push(91);
            let mut i: usize = 0;
            while i < vs.len()
                invariant
                    i <= vs.len(),
                    vm == crate::events::bytes_model(vs@),
                    vm.len() == vs@.len(),
                    out@ == base + seq![91u8] + sp_list_items(vm, i as int),
                decreases vs.len() - i,
            {
                let ghost mid = out@;
                if i > 0 {
                    out.push(44);
                }
                push_quoted(out, &vs[i]);
                proof {
                    assert(vm[i as int] == vs@[i as int]@);
                    if i > 0 {
                        assert(out@ =~= mid + seq![44u8] + sp_quoted(vm[i as int]));
                        assert(out@ =~= base + seq![91u8] + sp_list_items(vm, i + 1 as int));
                    } else {
                        assert(out@ =~= base + seq![91u8] + sp_list_items(vm, 1));
                    }
                }
                i = i + 1;
            }
            out.push(93);
            proof {
                assert(out@ =~= base + sp_opt_list(Some(vm)));
            }
        },
        None => push_lit(out, "null"),
    }
}

/// Encode a job request as the single payload line handed to the worker's
/// input stream.  The segment duration must already be well-formed number
/// text — it is spliced into the payload verbatim — and the result is
/// exactly the spec-level encoding of the request.
pub fn encode_request(req: &JobRequest) -> (r: Vec<u8>)
    requires
        sp_is_number_text(req.segment_duration@),
    ensures
        r@ == sp_encode_request(req@),
{
    let mut out: Vec<u8> = Vec::new();
    push_lit(&mut out, "{\"mode\":");
    push_quoted(&mut out, &req.mode);
    push_lit(&mut out, ",\"video_folder\":");
    push_opt_quoted(&mut out, &req.video_folder);
    push_lit(&mut out, ",\"audio_folder\":");
    push_opt_quoted(&mut out, &req.audio_folder);
    push_lit(&mut out, ",\"audio_file\":");
    push_opt_quoted(&mut out, &req.audio_file);
    push_lit(&mut out, ",\"video_files\":");
    push_opt_list(&mut out, &req.video_files);
    push_lit(&mut out, ",\"segment_duration\":");
    out.extend_from_slice(req.segment_duration.as_slice());
    push_lit(&mut out, ",\"match_pattern\":");
    push_opt_quoted(&mut out, &req.match_pattern);
    push_lit(&mut out, "}");
    proof {
        assert(out@ =~= sp_encode_request(req@));
    }
    out
}

/// Whether `t` is exactly one well-formed number token of the wire
/// grammar (the form a segment-duration text must have).
pub open spec fn sp_is_number_text(t: Seq<u8>) -> bool {
    crate::json::sp_number(t, 0) == Some((t, t.len() as int))
}

/// Executable mirror of [`sp_is_number_text`].
pub fn is_number_text(t: &Vec<u8>) -> (r: bool)
    ensures
        r == sp_is_number_text(t@),
{
    match crate::json::number_lit(t, 0) {
        Some((tok, j)) => {
            let ok = j == t.len() && bytes_eq(&tok, t);
            ok
        },
        None => false,
    }
}

} // verus!

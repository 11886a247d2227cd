//! The wire grammar of the worker protocol.
//!
//! Each worker line is one JSON-style object.  The protocol only ever nests
//! two levels deep — an event object whose values are scalars, plus a single
//! list-of-objects field (`results`, or a probe's `streams`) and a single
//! object field (a probe's `format`) — so the grammar is stated at exactly
//! that depth.  Deeper values inside an inner object are skipped as balanced
//! brackets and recorded as such, never silently mistaken for data.
//! Strings decode the single-character escapes and `\uXXXX` escapes,
//! surrogate pairs included, to UTF-8 bytes; a lone surrogate or a bad hex
//! digit makes the string ill-formed, which at the protocol level is one
//! recoverable malformed-line diagnostic, never a failure.
//!
//! Every parsing function is a recursive executable mirror of a spec-level
//! grammar function, proved to return exactly the spec parse.

use vstd::prelude::*;

verus! {

/// A scalar value of the grammar.  Numbers keep their decimal text: the
/// orchestrator never computes with an offset, it only carries it.
pub enum Scalar {
    Null,
    Bool(bool),
    Num(Vec<u8>),
    Str(Vec<u8>),
}

/// Mathematical view of a [`Scalar`].
pub enum ScalarModel {
    Null,
    Bool(bool),
    Num(Seq<u8>),
    Str(Seq<u8>),
}

impl View for Scalar {
    type V = ScalarModel;

    open spec fn view(&self) -> ScalarModel {
        match self {
            Scalar::Null => ScalarModel::Null,
            Scalar::Bool(b) => ScalarModel::Bool(*b),
            Scalar::Num(t) => ScalarModel::Num(t@),
            Scalar::Str(t) => ScalarModel::Str(t@),
        }
    }
}

/// A value inside an inner (depth-two) object: a scalar, or a deeper
/// structure that was skipped as balanced brackets.
pub enum InnerVal {
    Sc(Scalar),
    Skipped,
}

/// Mathematical view of an [`InnerVal`].
pub enum InnerValModel {
    Sc(ScalarModel),
    Skipped,
}

impl View for InnerVal {
    type V = InnerValModel;

    open spec fn view(&self) -> InnerValModel {
        match self {
            InnerVal::Sc(sc) => InnerValModel::Sc(sc@),
            InnerVal::Skipped => InnerValModel::Skipped,
        }
    }
}

/// One key/value pair of an inner object.
pub struct InnerPair {
    pub key: Vec<u8>,
    pub val: InnerVal,
}

/// Mathematical view of an [`InnerPair`].
pub struct InnerPairModel {
    pub key: Seq<u8>,
    pub val: InnerValModel,
}

impl View for InnerPair {
    type V = InnerPairModel;

    open spec fn view(&self) -> InnerPairModel {
        InnerPairModel { key: self.key@, val: self.val@ }
    }
}

/// Model of a whole inner object, pair by pair.
pub open spec fn inner_obj_model(ps: Seq<InnerPair>) -> Seq<InnerPairModel> {
    Seq::new(ps.len(), |i: int| ps[i]@)
}

/// Model of a sequence of inner objects.
pub open spec fn obj_list_model(os: Seq<Vec<InnerPair>>) -> Seq<Seq<InnerPairModel>> {
    Seq::new(os.len(), |i: int| inner_obj_model(os[i]@))
}

/// A value of the top-level object.
pub enum TopVal {
    Sc(Scalar),
    Obj(Vec<InnerPair>),
    Arr(Vec<Vec<InnerPair>>),
}

/// Mathematical view of a [`TopVal`].
pub enum TopValModel {
    Sc(ScalarModel),
    Obj(Seq<InnerPairModel>),
    Arr(Seq<Seq<InnerPairModel>>),
}

impl View for TopVal {
    type V = TopValModel;

    open spec fn view(&self) -> TopValModel {
        match self {
            TopVal::Sc(sc) => TopValModel::Sc(sc@),
            TopVal::Obj(ps) => TopValModel::Obj(inner_obj_model(ps@)),
            TopVal::Arr(os) => TopValModel::Arr(obj_list_model(os@)),
        }
    }
}

/// One key/value pair of the top-level object.
pub struct TopPair {
    pub key: Vec<u8>,
    pub val: TopVal,
}

/// Mathematical view of a [`TopPair`].
pub struct TopPairModel {
    pub key: Seq<u8>,
    pub val: TopValModel,
}

impl View for TopPair {
    type V = TopPairModel;

    open spec fn view(&self) -> TopPairModel {
        TopPairModel { key: self.key@, val: self.val@ }
    }
}

/// Model of a whole parsed line, pair by pair.
pub open spec fn doc_model(ps: Seq<TopPair>) -> Seq<TopPairModel> {
    Seq::new(ps.len(), |i: int| ps[i]@)
}

/// JSON insignificant whitespace.
pub open spec fn is_ws(b: u8) -> bool {
    b == 32 || b == 9 || b == 10 || b == 13
}

/// First position at or after `i` holding a non-whitespace byte (or the end).
pub open spec fn sp_ws(s: Seq<u8>, i: int) -> int
    decreases s.len() - i,
{
    if 0 <= i < s.len() && is_ws(s[i]) {
        sp_ws(s, i + 1)
    } else {
        i
    }
}

/// Executable mirror of [`sp_ws`].
pub fn skip_ws(v: &Vec<u8>, i: usize) -> (r: usize)
    requires
        i <= v.len(),
    ensures
        r == sp_ws(v@, i as int),
        i <= r <= v.len(),
    decreases v.len() - i,
{
    if i < v.len() && (v[i] == 32 || v[i] == 9 || v[i] == 10 || v[i] == 13) {
        skip_ws(v, i + 1)
    } else {
        i
    }
}

/// What a backslash escape decodes to, if it is a recognized escape.
pub open spec fn sp_esc(b: u8) -> Option<u8> {
    if b == 34 {
        Some(34u8)
    } else if b == 92 {
        Some(92u8)
    } else if b == 47 {
        Some(47u8)
    } else if b == 110 {
        Some(10u8)
    } else if b == 116 {
        Some(9u8)
    } else if b == 114 {
        Some(13u8)
    } else if b == 98 {
        Some(8u8)
    } else if b == 102 {
        Some(12u8)
    } else {
        None
    }
}

/// Executable mirror of [`sp_esc`].
pub fn esc_byte(b: u8) -> (r: Option<u8>)
    ensures
        r == sp_esc(b),
{
    match b {
        34 => Some(34),
        92 => Some(92),
        47 => Some(47),
        110 => Some(10),
        116 => Some(9),
        114 => Some(13),
        98 => Some(8),
        102 => Some(12),
        _ => None,
    }
}

/// The value of one hexadecimal digit, upper or lower case.
pub open spec fn sp_hexval(b: u8) -> Option<int> {
    if 48 <= b <= 57 {
        Some((b - 48) as int)
    } else if 97 <= b <= 102 {
        Some((b - 87) as int)
    } else if 65 <= b <= 70 {
        Some((b - 55) as int)
    } else {
        None
    }
}

/// The value of the four hexadecimal digits at `i`.
pub open spec fn sp_hex4(s: Seq<u8>, i: int) -> Option<int> {
    if 0 <= i && i + 4 <= s.len() {
        match (sp_hexval(s[i]), sp_hexval(s[i + 1]), sp_hexval(s[i + 2]), sp_hexval(s[i + 3])) {
            (Some(a), Some(b), Some(c), Some(d)) => Some(a * 4096 + b * 256 + c * 16 + d),
            _ => None,
        }
    } else {
        None
    }
}

/// The UTF-8 encoding of one code point.
pub open spec fn sp_utf8(cp: int) -> Seq<u8> {
    if cp < 0x80 {
        seq![cp as u8]
    } else if cp < 0x800 {
        seq![(192 + cp / 64) as u8, (128 + cp % 64) as u8]
    } else if cp < 0x10000 {
        seq![(224 + cp / 4096) as u8, (128 + (cp / 64) % 64) as u8, (128 + cp % 64) as u8]
    } else {
        seq![
            (240 + cp / 262144) as u8,
            (128 + (cp / 4096) % 64) as u8,
            (128 + (cp / 64) % 64) as u8,
            (128 + cp % 64) as u8,
        ]
    }
}

/// Whether the code point is a high (leading) surrogate.
pub open spec fn sp_is_high_surrogate(cp: int) -> bool {
    0xD800 <= cp <= 0xDBFF
}

/// Whether the code point is a low (trailing) surrogate.
pub open spec fn sp_is_low_surrogate(cp: int) -> bool {
    0xDC00 <= cp <= 0xDFFF
}

/// The code point a surrogate pair stands for.
pub open spec fn sp_pair_cp(hi: int, lo: int) -> int {
    0x10000 + (hi - 0xD800) * 1024 + (lo - 0xDC00)
}

/// Body of a string literal, starting just after the opening quote:
/// the decoded bytes and the position just after the closing quote.
/// `\uXXXX` escapes decode to the code point's UTF-8 bytes, a surrogate
/// pair to its one code point.  Control bytes, unrecognized escapes and
/// lone surrogates make the string ill-formed.
pub open spec fn sp_str_body(s: Seq<u8>, i: int) -> Option<(Seq<u8>, int)>
    decreases s.len() - i,
{
    if i < 0 || i >= s.len() {
        None
    } else if s[i] == 34 {
        Some((Seq::empty(), i + 1))
    } else if s[i] == 92 {
        if i + 1 < s.len() {
            if s[i + 1] == 117 {
                match sp_hex4(s, i + 2) {
                    None => None,
                    Some(hi) => {
                        if sp_is_high_surrogate(hi) {
                            if i + 7 < s.len() && s[i + 6] == 92 && s[i + 7] == 117 {
                                match sp_hex4(s, i + 8) {
                                    Some(lo) => {
                                        if sp_is_low_surrogate(lo) && i + 12 <= s.len() {
                                            match sp_str_body(s, i + 12) {
                                                Some((t, j)) => Some(
                                                    (sp_utf8(sp_pair_cp(hi, lo)) + t, j),
                                                ),
                                                None => None,
                                            }
                                        } else {
                                            None
                                        }
                                    },
                                    None => None,
                                }
                            } else {
                                None
                            }
                        } else if sp_is_low_surrogate(hi) {
                            None
                        } else if i + 6 <= s.len() {
                            match sp_str_body(s, i + 6) {
                                Some((t, j)) => Some((sp_utf8(hi) + t, j)),
                                None => None,
                            }
                        } else {
                            None
                        }
                    },
                }
            } else {
                match sp_esc(s[i + 1]) {
                    Some(c) => match sp_str_body(s, i + 2) {
                        Some((t, j)) => Some((seq![c] + t, j)),
                        None => None,
                    },
                    None => None,
                }
            }
        } else {
            None
        }
    } else if s[i] < 32 {
        None
    } else {
        match sp_str_body(s, i + 1) {
            Some((t, j)) => Some((seq![s[i]] + t, j)),
            None => None,
        }
    }
}

/// Model of an optional (bytes, position) parse result.
pub open spec fn bytes_res_model(r: Option<(Vec<u8>, usize)>) -> Option<(Seq<u8>, int)> {
    match r {
        Some((t, j)) => Some((t@, j as int)),
        None => None,
    }
}

/// Executable mirror of [`sp_hexval`].
fn hexval(b: u8) -> (r: Option<u8>)
    ensures
        (match r {
            Some(x) => Some(x as int),
            None => None,
        }) == sp_hexval(b),
        r matches Some(x) ==> x < 16,
{
    if 48 <= b && b <= 57 {
        Some(b - 48)
    } else if 97 <= b && b <= 102 {
        Some(b - 87)
    } else if 65 <= b && b <= 70 {
        Some(b - 55)
    } else {
        None
    }
}

/// Executable mirror of [`sp_hex4`].
fn hex4(v: &Vec<u8>, i: usize) -> (r: Option<u32>)
    requires
        i <= v.len(),
    ensures
        (match r {
            Some(x) => Some(x as int),
            None => None,
        }) == sp_hex4(v@, i as int),
        r matches Some(x) ==> x < 0x10000 && i + 4 <= v.len(),
{
    if v.len() - i < 4 {
        return None;
    }
    match (hexval(v[i]), hexval(v[i + 1]), hexval(v[i + 2]), hexval(v[i + 3])) {
        (Some(a), Some(b), Some(c), Some(d)) => Some(
            (a as u32) * 4096 + (b as u32) * 256 + (c as u32) * 16 + (d as u32),
        ),
        _ => None,
    }
}

/// Executable mirror of [`sp_utf8`].
fn utf8_bytes(cp: u32) -> (r: Vec<u8>)
    requires
        cp < 0x110000,
    ensures
        r@ == sp_utf8(cp as int),
{
    let mut r: Vec<u8> = Vec::new();
    if cp < 0x80 {
        r.push(cp as u8);
    } else if cp < 0x800 {
        r.push((192 + cp / 64) as u8);
        r.push((128 + cp % 64) as u8);
    } else if cp < 0x10000 {
        r.push((224 + cp / 4096) as u8);
        r.push((128 + (cp / 64) % 64) as u8);
        r.push((128 + cp % 64) as u8);
    } else {
        r.push((240 + cp / 262144) as u8);
        r.push((128 + (cp / 4096) % 64) as u8);
        r.push((128 + (cp / 64) % 64) as u8);
        r.push((128 + cp % 64) as u8);
    }
    proof {
        assert(r@ =~= sp_utf8(cp as int));
    }
    r
}

/// Executable mirror of [`sp_str_body`].
pub fn str_body(v: &Vec<u8>, i: usize) -> (r: Option<(Vec<u8>, usize)>)
    requires
        i <= v.len(),
    ensures
        bytes_res_model(r) == sp_str_body(v@, i as int),
        r matches Some(p) ==> i < p.1 <= v.len(),
    decreases v.len() - i,
{
    if i >= v.len() {
        None
    } else if v[i] == 34 {
        Some((Vec::new(), i + 1))
    } else if v[i] == 92 {
        if i + 1 < v.len() {
            if v[i + 1] == 117 {
                match hex4(v, i + 2) {
                    None => None,
                    Some(hi) => {
                        if 0xD800 <= hi && hi <= 0xDBFF {
                            if v.len() - i > 7 && v[i + 6] == 92 && v[i + 7] == 117 {
                                match hex4(v, i + 8) {
                                    Some(lo) => {
                                        if 0xDC00 <= lo && lo <= 0xDFFF {
                                            match str_body(v, i + 12) {
                                                Some((t, j)) => {
                                                    let mut pre = utf8_bytes(
                                                        0x10000 + (hi - 0xD800) * 1024 + (lo
                                                            - 0xDC00),
                                                    );
                                                    let mut t = t;
                                                    pre.append(&mut t);
                                                    Some((pre, j))
                                                },
                                                None => None,
                                            }
                                        } else {
                                            None
                                        }
                                    },
                                    None => None,
                                }
                            } else {
                                None
                            }
                        } else if 0xDC00 <= hi && hi <= 0xDFFF {
                            None
                        } else {
                            match str_body(v, i + 6) {
                                Some((t, j)) => {
                                    let mut pre = utf8_bytes(hi);
                                    let mut t = t;
                                    pre.append(&mut t);
                                    Some((pre, j))
                                },
                                None => None,
                            }
                        }
                    },
                }
            } else {
                match esc_byte(v[i + 1]) {
                    Some(c) => match str_body(v, i + 2) {
                        Some((t, j)) => {
                            let mut t = t;
                            t.insert(0, c);
                            Some((t, j))
                        },
                        None => None,
                    },
                    None => None,
                }
            }
        } else {
            None
        }
    } else if v[i] < 32 {
        None
    } else {
        let c = v[i];
        match str_body(v, i + 1) {
            Some((t, j)) => {
                let mut t = t;
                t.insert(0, c);
                Some((t, j))
            },
            None => None,
        }
    }
}

/// A whole string literal at `i`, which must hold the opening quote.
pub open spec fn sp_string(s: Seq<u8>, i: int) -> Option<(Seq<u8>, int)> {
    if 0 <= i < s.len() && s[i] == 34 {
        sp_str_body(s, i + 1)
    } else {
        None
    }
}

/// Executable mirror of [`sp_string`].
pub fn string_lit(v: &Vec<u8>, i: usize) -> (r: Option<(Vec<u8>, usize)>)
    requires
        i <= v.len(),
    ensures
        bytes_res_model(r) == sp_string(v@, i as int),
        r matches Some(p) ==> i < p.1 <= v.len(),
{
    if i < v.len() && v[i] == 34 {
        str_body(v, i + 1)
    } else {
        None
    }
}

/// End of the run of decimal digits starting at `i`.
pub open spec fn sp_digit_run(s: Seq<u8>, i: int) -> int
    decreases s.len() - i,
{
    if 0 <= i < s.len() && 48 <= s[i] <= 57 {
        sp_digit_run(s, i + 1)
    } else {
        i
    }
}

/// Executable mirror of [`sp_digit_run`].
pub fn digit_run(v: &Vec<u8>, i: usize) -> (r: usize)
    requires
        i <= v.len(),
    ensures
        r == sp_digit_run(v@, i as int),
        i <= r <= v.len(),
    decreases v.len() - i,
{
    if i < v.len() && 48 <= v[i] && v[i] <= 57 {
        digit_run(v, i + 1)
    } else {
        i
    }
}

/// End of the fraction part starting at `i`, where a dot must be followed
/// by at least one digit; `None` when a dot stands there with no digits.
pub open spec fn sp_frac_end(s: Seq<u8>, i: int) -> Option<int> {
    if 0 <= i < s.len() && s[i] == 46 {
        let j = sp_digit_run(s, i + 1);
        if j == i + 1 {
            None
        } else {
            Some(j)
        }
    } else {
        Some(i)
    }
}

/// End of the exponent part starting at `i`: an `e` or `E`, an optional
/// sign, and at least one digit; `None` when the marker stands there with
/// no digits.
pub open spec fn sp_exp_end(s: Seq<u8>, i: int) -> Option<int> {
    if 0 <= i < s.len() && (s[i] == 101 || s[i] == 69) {
        let k = if i + 1 < s.len() && (s[i + 1] == 43 || s[i + 1] == 45) {
            i + 2
        } else {
            i + 1
        };
        let j = sp_digit_run(s, k);
        if j == k {
            None
        } else {
            Some(j)
        }
    } else {
        Some(i)
    }
}

/// A number token at `i`: an optional minus sign, one or more digits, an
/// optional fraction and an optional exponent.  The result keeps the
/// token's exact text.
pub open spec fn sp_number(s: Seq<u8>, i: int) -> Option<(Seq<u8>, int)> {
    if !(0 <= i < s.len()) {
        None
    } else {
        let j0 = if s[i] == 45 { i + 1 } else { i };
        let j1 = sp_digit_run(s, j0);
        if j1 == j0 {
            None
        } else {
            match sp_frac_end(s, j1) {
                None => None,
                Some(j2) => match sp_exp_end(s, j2) {
                    None => None,
                    Some(j3) => Some((s.subrange(i, j3), j3)),
                },
            }
        }
    }
}

/// Copy of `v[from .. to]`, with its view pinned down.
pub fn sub_bytes(v: &Vec<u8>, from: usize, to: usize) -> (r: Vec<u8>)
    requires
        from <= to <= v.len(),
    ensures
        r@ == v@.subrange(from as int, to as int),
{
    let mut r: Vec<u8> = Vec::new();
    let mut k: usize = from;
    while k < to
        invariant
            from <= k <= to <= v.len(),
            r@ == v@.subrange(from as int, k as int),
        decreases to - k,
    {
        r.push(v[k]);
        proof {
            assert(r@ =~= v@.subrange(from as int, k + 1 as int));
        }
        k = k + 1;
    }
    r
}

/// Executable mirror of [`sp_frac_end`].
fn frac_end(v: &Vec<u8>, i: usize) -> (r: Option<usize>)
    requires
        i <= v.len(),
    ensures
        (match r {
            Some(j) => Some(j as int),
            None => None,
        }) == sp_frac_end(v@, i as int),
        r matches Some(j) ==> i <= j <= v.len(),
{
    if i < v.len() && v[i] == 46 {
        let j = digit_run(v, i + 1);
        if j == i + 1 {
            None
        } else {
            Some(j)
        }
    } else {
        Some(i)
    }
}

/// Executable mirror of [`sp_exp_end`].
fn exp_end(v: &Vec<u8>, i: usize) -> (r: Option<usize>)
    requires
        i <= v.len(),
    ensures
        (match r {
            Some(j) => Some(j as int),
            None => None,
        }) == sp_exp_end(v@, i as int),
        r matches Some(j) ==> i <= j <= v.len(),
{
    if i < v.len() && (v[i] == 101 || v[i] == 69) {
        let k = if i + 1 < v.len() && (v[i + 1] == 43 || v[i + 1] == 45) {
            i + 2
        } else {
            i + 1
        };
        let j = digit_run(v, k);
        if j == k {
            None
        } else {
            Some(j)
        }
    } else {
        Some(i)
    }
}

/// Executable mirror of [`sp_number`].
pub fn number_lit(v: &Vec<u8>, i: usize) -> (r: Option<(Vec<u8>, usize)>)
    requires
        i <= v.len(),
    ensures
        bytes_res_model(r) == sp_number(v@, i as int),
        r matches Some(p) ==> i < p.1 <= v.len(),
{
    if i >= v.len() {
        None
    } else {
        let j0 = if v[i] == 45 { i + 1 } else { i };
        let j1 = digit_run(v, j0);
        if j1 == j0 {
            None
        } else {
            match frac_end(v, j1) {
                None => None,
                Some(j2) => match exp_end(v, j2) {
                    None => None,
                    Some(j3) => Some((sub_bytes(v, i, j3), j3)),
                },
            }
        }
    }
}

/// Model of an optional (scalar, position) parse result.
pub open spec fn scalar_res_model(r: Option<(Scalar, usize)>) -> Option<(ScalarModel, int)> {
    match r {
        Some((sc, j)) => Some((sc@, j as int)),
        None => None,
    }
}

/// Whether `s` holds the given literal bytes starting at `i`.
pub open spec fn has_lit(s: Seq<u8>, i: int, lit: Seq<u8>) -> bool {
    i + lit.len() <= s.len() && s.subrange(i, i + lit.len()) == lit
}

/// A scalar at `i`: a string, a number, `true`, `false` or `null`.
pub open spec fn sp_scalar(s: Seq<u8>, i: int) -> Option<(ScalarModel, int)> {
    if !(0 <= i < s.len()) {
        None
    } else if s[i] == 34 {
        match sp_string(s, i) {
            Some((t, j)) => Some((ScalarModel::Str(t), j)),
            None => None,
        }
    } else if s[i] == 45 || (48 <= s[i] <= 57) {
        match sp_number(s, i) {
            Some((t, j)) => Some((ScalarModel::Num(t), j)),
            None => None,
        }
    } else if has_lit(s, i, seq![116u8, 114u8, 117u8, 101u8]) {
        Some((ScalarModel::Bool(true), i + 4))
    } else if has_lit(s, i, seq![102u8, 97u8, 108u8, 115u8, 101u8]) {
        Some((ScalarModel::Bool(false), i + 5))
    } else if has_lit(s, i, seq![110u8, 117u8, 108u8, 108u8]) {
        Some((ScalarModel::Null, i + 4))
    } else {
        None
    }
}

/// Executable mirror of [`sp_scalar`].
pub fn scalar(v: &Vec<u8>, i: usize) -> (r: Option<(Scalar, usize)>)
    requires
        i <= v.len(),
    ensures
        scalar_res_model(r) == sp_scalar(v@, i as int),
        r matches Some(p) ==> i < p.1 <= v.len(),
{
    if i >= v.len() {
        None
    } else if v[i] == 34 {
        match string_lit(v, i) {
            Some((t, j)) => Some((Scalar::Str(t), j)),
            None => None,
        }
    } else if v[i] == 45 || (48 <= v[i] && v[i] <= 57) {
        match number_lit(v, i) {
            Some((t, j)) => Some((Scalar::Num(t), j)),
            None => None,
        }
    } else if v.len() - i >= 4 && v[i] == 116 && v[i + 1] == 114 && v[i + 2] == 117 && v[i + 3]
        == 101 {
        proof {
            assert(v@.subrange(i as int, i + 4 as int) =~= seq![116u8, 114u8, 117u8, 101u8]);
        }
        Some((Scalar::Bool(true), i + 4))
    } else if v.len() - i >= 5 && v[i] == 102 && v[i + 1] == 97 && v[i + 2] == 108 && v[i + 3]
        == 115 && v[i + 4] == 101 {
        proof {
            assert(v@.subrange(i as int, i + 5 as int) =~= seq![102u8, 97u8, 108u8, 115u8, 101u8]);
        }
        Some((Scalar::Bool(false), i + 5))
    } else if v.len() - i >= 4 && v[i] == 110 && v[i + 1] == 117 && v[i + 2] == 108 && v[i + 3]
        == 108 {
        proof {
            assert(v@.subrange(i as int, i + 4 as int) =~= seq![110u8, 117u8, 108u8, 108u8]);
        }
        Some((Scalar::Null, i + 4))
    } else {
        proof {
            if has_lit(v@, i as int, seq![116u8, 114u8, 117u8, 101u8]) {
                assert(v@[i as int] == 116u8);
            }
            if has_lit(v@, i as int, seq![102u8, 97u8, 108u8, 115u8, 101u8]) {
                assert(v@[i as int] == 102u8);
            }
            if has_lit(v@, i as int, seq![110u8, 117u8, 108u8, 108u8]) {
                assert(v@[i as int] == 110u8);
            }
        }
        None
    }
}


/// Position just past an arbitrarily nested bracketed value, scanned byte
/// by byte with a depth counter and string-literal awareness.  `depth` is
/// the number of brackets currently open.
pub open spec fn sp_skip_nest(s: Seq<u8>, i: int, depth: int, in_str: bool, esc: bool) -> Option<
    int,
>
    decreases s.len() - i,
{
    if i < 0 || i >= s.len() {
        None
    } else {
        let b = s[i];
        if in_str {
            if esc {
                sp_skip_nest(s, i + 1, depth, true, false)
            } else if b == 92 {
                sp_skip_nest(s, i + 1, depth, true, true)
            } else if b == 34 {
                sp_skip_nest(s, i + 1, depth, false, false)
            } else {
                sp_skip_nest(s, i + 1, depth, true, false)
            }
        } else {
            if b == 34 {
                sp_skip_nest(s, i + 1, depth, true, false)
            } else if b == 123 || b == 91 {
                sp_skip_nest(s, i + 1, depth + 1, false, false)
            } else if b == 125 || b == 93 {
                if depth == 1 {
                    Some(i + 1)
                } else if depth <= 0 {
                    None
                } else {
                    sp_skip_nest(s, i + 1, depth - 1, false, false)
                }
            } else {
                sp_skip_nest(s, i + 1, depth, false, false)
            }
        }
    }
}

/// Executable mirror of [`sp_skip_nest`].
pub fn skip_nest(v: &Vec<u8>, i: usize, depth: usize, in_str: bool, esc: bool) -> (r: Option<
    usize,
>)
    requires
        i <= v.len(),
        depth <= i,
    ensures
        (match r {
            Some(j) => Some(j as int),
            None => None,
        }) == sp_skip_nest(v@, i as int, depth as int, in_str, esc),
        r matches Some(j) ==> i < j <= v.len(),
    decreases v.len() - i,
{
    if i >= v.len() {
        None
    } else {
        let b = v[i];
        if in_str {
            if esc {
                skip_nest(v, i + 1, depth, true, false)
            } else if b == 92 {
                skip_nest(v, i + 1, depth, true, true)
            } else if b == 34 {
                skip_nest(v, i + 1, depth, false, false)
            } else {
                skip_nest(v, i + 1, depth, true, false)
            }
        } else {
            if b == 34 {
                skip_nest(v, i + 1, depth, true, false)
            } else if b == 123 || b == 91 {
                skip_nest(v, i + 1, depth + 1, false, false)
            } else if b == 125 || b == 93 {
                if depth == 1 {
                    Some(i + 1)
                } else if depth == 0 {
                    None
                } else {
                    skip_nest(v, i + 1, depth - 1, false, false)
                }
            } else {
                skip_nest(v, i + 1, depth, false, false)
            }
        }
    }
}

/// A value of an inner object: a kept scalar, or a skipped nested value.
pub open spec fn sp_inner_val(s: Seq<u8>, i: int) -> Option<(InnerValModel, int)> {
    if 0 <= i < s.len() && (s[i] == 123 || s[i] == 91) {
        match sp_skip_nest(s, i, 0, false, false) {
            Some(j) => Some((InnerValModel::Skipped, j)),
            None => None,
        }
    } else {
        match sp_scalar(s, i) {
            Some((sc, j)) => Some((InnerValModel::Sc(sc), j)),
            None => None,
        }
    }
}

/// Model of an optional (inner value, position) parse result.
pub open spec fn inner_val_res_model(r: Option<(InnerVal, usize)>) -> Option<
    (InnerValModel, int),
> {
    match r {
        Some((x, j)) => Some((x@, j as int)),
        None => None,
    }
}

/// Executable mirror of [`sp_inner_val`].
pub fn inner_val(v: &Vec<u8>, i: usize) -> (r: Option<(InnerVal, usize)>)
    requires
        i <= v.len(),
    ensures
        inner_val_res_model(r) == sp_inner_val(v@, i as int),
        r matches Some(p) ==> i < p.1 <= v.len(),
{
    if i < v.len() && (v[i] == 123 || v[i] == 91) {
        match skip_nest(v, i, 0, false, false) {
            Some(j) => Some((InnerVal::Skipped, j)),
            None => None,
        }
    } else {
        match scalar(v, i) {
            Some((sc, j)) => Some((InnerVal::Sc(sc), j)),
            None => None,
        }
    }
}

/// One or more `"key": value` pairs of an inner object, starting at the
/// first key, up to and including the closing brace.
pub open spec fn sp_inner_pairs(s: Seq<u8>, i: int) -> Option<(Seq<InnerPairModel>, int)>
    decreases s.len() - i,
{
    match sp_string(s, i) {
        None => None,
        Some((key, j1)) => {
            let j2 = sp_ws(s, j1);
            if !(j2 < s.len() && s[j2] == 58) {
                None
            } else {
                let j3 = sp_ws(s, j2 + 1);
                match sp_inner_val(s, j3) {
                    None => None,
                    Some((val, j4)) => {
                        let pair = InnerPairModel { key, val };
                        let j5 = sp_ws(s, j4);
                        if j5 < s.len() && s[j5] == 44 {
                            let j6 = sp_ws(s, j5 + 1);
                            if !(i < j6 <= s.len()) {
                                None
                            } else {
                                match sp_inner_pairs(s, j6) {
                                    Some((rest, j7)) => Some((seq![pair] + rest, j7)),
                                    None => None,
                                }
                            }
                        } else if j5 < s.len() && s[j5] == 125 {
                            Some((seq![pair], j5 + 1))
                        } else {
                            None
                        }
                    },
                }
            }
        },
    }
}

/// Model of an optional (pair list, position) parse result.
pub open spec fn pairs_res_model(r: Option<(Vec<InnerPair>, usize)>) -> Option<
    (Seq<InnerPairModel>, int),
> {
    match r {
        Some((ps, j)) => Some((inner_obj_model(ps@), j as int)),
        None => None,
    }
}

/// Executable mirror of [`sp_inner_pairs`].
pub fn inner_pairs(v: &Vec<u8>, i: usize) -> (r: Option<(Vec<InnerPair>, usize)>)
    requires
        i <= v.len(),
    ensures
        pairs_res_model(r) == sp_inner_pairs(v@, i as int),
        r matches Some(p) ==> i < p.1 <= v.len(),
    decreases v.len() - i,
{
    match string_lit(v, i) {
        None => None,
        Some((key, j1)) => {
            let j2 = skip_ws(v, j1);
            if !(j2 < v.len() && v[j2] == 58) {
                None
            } else {
                let j3 = skip_ws(v, j2 + 1);
                match inner_val(v, j3) {
                    None => None,
                    Some((val, j4)) => {
                        let pair = InnerPair { key, val };
                        let j5 = skip_ws(v, j4);
                        if j5 < v.len() && v[j5] == 44 {
                            let j6 = skip_ws(v, j5 + 1);
                            match inner_pairs(v, j6) {
                                Some((rest, j7)) => {
                                    let mut rest = rest;
                                    let ghost rest0 = rest@;
                                    rest.insert(0, pair);
                                    proof {
                                        assert forall|k: int| 0 <= k < rest@.len() implies
                                            inner_obj_model(rest@)[k] == (seq![pair@]
                                                + inner_obj_model(rest0))[k] by {
                                            if k > 0 {
                                                assert(rest@[k] == rest0[k - 1]);
                                            }
                                        }
                                        assert(inner_obj_model(rest@) =~= seq![pair@]
                                            + inner_obj_model(rest0));
                                    }
                                    Some((rest, j7))
                                },
                                None => None,
                            }
                        } else if j5 < v.len() && v[j5] == 125 {
                            let mut one: Vec<InnerPair> = Vec::new();
                            one.push(pair);
                            proof {
                                assert(inner_obj_model(one@) =~= seq![pair@]);
                            }
                            Some((one, j5 + 1))
                        } else {
                            None
                        }
                    },
                }
            }
        },
    }
}


/// A whole inner object at `i`, which must hold the opening brace.
pub open spec fn sp_inner_obj(s: Seq<u8>, i: int) -> Option<(Seq<InnerPairModel>, int)> {
    if 0 <= i < s.len() && s[i] == 123 {
        let j = sp_ws(s, i + 1);
        if j < s.len() && s[j] == 125 {
            Some((Seq::empty(), j + 1))
        } else {
            sp_inner_pairs(s, j)
        }
    } else {
        None
    }
}

/// Executable mirror of [`sp_inner_obj`].
pub fn inner_obj(v: &Vec<u8>, i: usize) -> (r: Option<(Vec<InnerPair>, usize)>)
    requires
        i <= v.len(),
    ensures
        pairs_res_model(r) == sp_inner_obj(v@, i as int),
        r matches Some(p) ==> i < p.1 <= v.len(),
{
    if i < v.len() && v[i] == 123 {
        let j = skip_ws(v, i + 1);
        if j < v.len() && v[j] == 125 {
            let none: Vec<InnerPair> = Vec::new();
            proof {
                assert(inner_obj_model(none@) =~= Seq::<InnerPairModel>::empty());
            }
            Some((none, j + 1))
        } else {
            inner_pairs(v, j)
        }
    } else {
        None
    }
}

/// One or more inner objects of an array, separated by commas, up to and
/// including the closing bracket.
pub open spec fn sp_arr_items(s: Seq<u8>, i: int) -> Option<(Seq<Seq<InnerPairModel>>, int)>
    decreases s.len() - i,
{
    match sp_inner_obj(s, i) {
        None => None,
        Some((o, j1)) => {
            let j2 = sp_ws(s, j1);
            if j2 < s.len() && s[j2] == 44 {
                let j3 = sp_ws(s, j2 + 1);
                if !(i < j3 <= s.len()) {
                    None
                } else {
                    match sp_arr_items(s, j3) {
                        Some((rest, j4)) => Some((seq![o] + rest, j4)),
                        None => None,
                    }
                }
            } else if j2 < s.len() && s[j2] == 93 {
                Some((seq![o], j2 + 1))
            } else {
                None
            }
        },
    }
}

/// Model of an optional (object list, position) parse result.
pub open spec fn objs_res_model(r: Option<(Vec<Vec<InnerPair>>, usize)>) -> Option<
    (Seq<Seq<InnerPairModel>>, int),
> {
    match r {
        Some((os, j)) => Some((obj_list_model(os@), j as int)),
        None => None,
    }
}

/// Executable mirror of [`sp_arr_items`].
pub fn arr_items(v: &Vec<u8>, i: usize) -> (r: Option<(Vec<Vec<InnerPair>>, usize)>)
    requires
        i <= v.len(),
    ensures
        objs_res_model(r) == sp_arr_items(v@, i as int),
        r matches Some(p) ==> i < p.1 <= v.len(),
    decreases v.len() - i,
{
    match inner_obj(v, i) {
        None => None,
        Some((o, j1)) => {
            let j2 = skip_ws(v, j1);
            if j2 < v.len() && v[j2] == 44 {
                let j3 = skip_ws(v, j2 + 1);
                match arr_items(v, j3) {
                    Some((rest, j4)) => {
                        let mut rest = rest;
                        let ghost rest0 = rest@;
                        let ghost om = inner_obj_model(o@);
                        rest.insert(0, o);
                        proof {
                            assert forall|k: int| 0 <= k < rest@.len() implies
                                obj_list_model(rest@)[k] == (seq![om]
                                    + obj_list_model(rest0))[k] by {
                                if k > 0 {
                                    assert(rest@[k] == rest0[k - 1]);
                                }
                            }
                            assert(obj_list_model(rest@) =~= seq![om] + obj_list_model(rest0));
                        }
                        Some((rest, j4))
                    },
                    None => None,
                }
            } else if j2 < v.len() && v[j2] == 93 {
                let ghost om = inner_obj_model(o@);
                let mut one: Vec<Vec<InnerPair>> = Vec::new();
                one.push(o);
                proof {
                    assert(obj_list_model(one@) =~= seq![om]);
                }
                Some((one, j2 + 1))
            } else {
                None
            }
        },
    }
}

/// A whole array of inner objects at `i`, which must hold the opening
/// bracket.
pub open spec fn sp_arr(s: Seq<u8>, i: int) -> Option<(Seq<Seq<InnerPairModel>>, int)> {
    if 0 <= i < s.len() && s[i] == 91 {
        let j = sp_ws(s, i + 1);
        if j < s.len() && s[j] == 93 {
            Some((Seq::empty(), j + 1))
        } else {
            sp_arr_items(s, j)
        }
    } else {
        None
    }
}

/// Executable mirror of [`sp_arr`].
pub fn arr(v: &Vec<u8>, i: usize) -> (r: Option<(Vec<Vec<InnerPair>>, usize)>)
    requires
        i <= v.len(),
    ensures
        objs_res_model(r) == sp_arr(v@, i as int),
        r matches Some(p) ==> i < p.1 <= v.len(),
{
    if i < v.len() && v[i] == 91 {
        let j = skip_ws(v, i + 1);
        if j < v.len() && v[j] == 93 {
            let none: Vec<Vec<InnerPair>> = Vec::new();
            proof {
                assert(obj_list_model(none@) =~= Seq::<Seq<InnerPairModel>>::empty());
            }
            Some((none, j + 1))
        } else {
            arr_items(v, j)
        }
    } else {
        None
    }
}

/// A value of the top-level object: an inner object, an array of inner
/// objects, or a scalar.
pub open spec fn sp_top_val(s: Seq<u8>, i: int) -> Option<(TopValModel, int)> {
    if 0 <= i < s.len() && s[i] == 123 {
        match sp_inner_obj(s, i) {
            Some((ps, j)) => Some((TopValModel::Obj(ps), j)),
            None => None,
        }
    } else if 0 <= i < s.len() && s[i] == 91 {
        match sp_arr(s, i) {
            Some((os, j)) => Some((TopValModel::Arr(os), j)),
            None => None,
        }
    } else {
        match sp_scalar(s, i) {
            Some((sc, j)) => Some((TopValModel::Sc(sc), j)),
            None => None,
        }
    }
}

/// Model of an optional (top value, position) parse result.
pub open spec fn top_val_res_model(r: Option<(TopVal, usize)>) -> Option<(TopValModel, int)> {
    match r {
        Some((x, j)) => Some((x@, j as int)),
        None => None,
    }
}

/// Executable mirror of [`sp_top_val`].
pub fn top_val(v: &Vec<u8>, i: usize) -> (r: Option<(TopVal, usize)>)
    requires
        i <= v.len(),
    ensures
        top_val_res_model(r) == sp_top_val(v@, i as int),
        r matches Some(p) ==> i < p.1 <= v.len(),
{
    if i < v.len() && v[i] == 123 {
        match inner_obj(v, i) {
            Some((ps, j)) => Some((TopVal::Obj(ps), j)),
            None => None,
        }
    } else if i < v.len() && v[i] == 91 {
        match arr(v, i) {
            Some((os, j)) => Some((TopVal::Arr(os), j)),
            None => None,
        }
    } else {
        match scalar(v, i) {
            Some((sc, j)) => Some((TopVal::Sc(sc), j)),
            None => None,
        }
    }
}

/// One or more `"key": value` pairs of the top-level object, up to and
/// including the closing brace.
pub open spec fn sp_top_pairs(s: Seq<u8>, i: int) -> Option<(Seq<TopPairModel>, int)>
    decreases s.len() - i,
{
    match sp_string(s, i) {
        None => None,
        Some((key, j1)) => {
            let j2 = sp_ws(s, j1);
            if !(j2 < s.len() && s[j2] == 58) {
                None
            } else {
                let j3 = sp_ws(s, j2 + 1);
                match sp_top_val(s, j3) {
                    None => None,
                    Some((val, j4)) => {
                        let pair = TopPairModel { key, val };
                        let j5 = sp_ws(s, j4);
                        if j5 < s.len() && s[j5] == 44 {
                            let j6 = sp_ws(s, j5 + 1);
                            if !(i < j6 <= s.len()) {
                                None
                            } else {
                                match sp_top_pairs(s, j6) {
                                    Some((rest, j7)) => Some((seq![pair] + rest, j7)),
                                    None => None,
                                }
                            }
                        } else if j5 < s.len() && s[j5] == 125 {
                            Some((seq![pair], j5 + 1))
                        } else {
                            None
                        }
                    },
                }
            }
        },
    }
}

/// Model of an optional (top pair list, position) parse result.
pub open spec fn top_pairs_res_model(r: Option<(Vec<TopPair>, usize)>) -> Option<
    (Seq<TopPairModel>, int),
> {
    match r {
        Some((ps, j)) => Some((doc_model(ps@), j as int)),
        None => None,
    }
}

/// Executable mirror of [`sp_top_pairs`].
pub fn top_pairs(v: &Vec<u8>, i: usize) -> (r: Option<(Vec<TopPair>, usize)>)
    requires
        i <= v.len(),
    ensures
        top_pairs_res_model(r) == sp_top_pairs(v@, i as int),
        r matches Some(p) ==> i < p.1 <= v.len(),
    decreases v.len() - i,
{
    match string_lit(v, i) {
        None => None,
        Some((key, j1)) => {
            let j2 = skip_ws(v, j1);
            if !(j2 < v.len() && v[j2] == 58) {
                None
            } else {
                let j3 = skip_ws(v, j2 + 1);
                match top_val(v, j3) {
                    None => None,
                    Some((val, j4)) => {
                        let pair = TopPair { key, val };
                        let ghost pairm = pair@;
                        let j5 = skip_ws(v, j4);
                        if j5 < v.len() && v[j5] == 44 {
                            let j6 = skip_ws(v, j5 + 1);
                            match top_pairs(v, j6) {
                                Some((rest, j7)) => {
                                    let mut rest = rest;
                                    let ghost rest0 = rest@;
                                    rest.insert(0, pair);
                                    proof {
                                        assert forall|k: int| 0 <= k < rest@.len() implies
                                            doc_model(rest@)[k] == (seq![pairm]
                                                + doc_model(rest0))[k] by {
                                            if k > 0 {
                                                assert(rest@[k] == rest0[k - 1]);
                                            }
                                        }
                                        assert(doc_model(rest@) =~= seq![pairm]
                                            + doc_model(rest0));
                                    }
                                    Some((rest, j7))
                                },
                                None => None,
                            }
                        } else if j5 < v.len() && v[j5] == 125 {
                            let mut one: Vec<TopPair> = Vec::new();
                            one.push(pair);
                            proof {
                                assert(doc_model(one@) =~= seq![pairm]);
                            }
                            Some((one, j5 + 1))
                        } else {
                            None
                        }
                    },
                }
            }
        },
    }
}

/// The whole top-level object at `i`, which must hold the opening brace.
pub open spec fn sp_top_obj(s: Seq<u8>, i: int) -> Option<(Seq<TopPairModel>, int)> {
    if 0 <= i < s.len() && s[i] == 123 {
        let j = sp_ws(s, i + 1);
        if j < s.len() && s[j] == 125 {
            Some((Seq::empty(), j + 1))
        } else {
            sp_top_pairs(s, j)
        }
    } else {
        None
    }
}

/// Executable mirror of [`sp_top_obj`].
pub fn top_obj(v: &Vec<u8>, i: usize) -> (r: Option<(Vec<TopPair>, usize)>)
    requires
        i <= v.len(),
    ensures
        top_pairs_res_model(r) == sp_top_obj(v@, i as int),
        r matches Some(p) ==> i < p.1 <= v.len(),
{
    if i < v.len() && v[i] == 123 {
        let j = skip_ws(v, i + 1);
        if j < v.len() && v[j] == 125 {
            let none: Vec<TopPair> = Vec::new();
            proof {
                assert(doc_model(none@) =~= Seq::<TopPairModel>::empty());
            }
            Some((none, j + 1))
        } else {
            top_pairs(v, j)
        }
    } else {
        None
    }
}

/// A line is blank when it holds only insignificant whitespace.
pub open spec fn sp_blank(s: Seq<u8>) -> bool {
    sp_ws(s, 0) == s.len()
}

/// The document parse of one line: the pairs of its single top-level
/// object, with nothing but whitespace around it.
pub open spec fn sp_doc(s: Seq<u8>) -> Option<Seq<TopPairModel>> {
    let i = sp_ws(s, 0);
    match sp_top_obj(s, i) {
        Some((ps, j)) => {
            if sp_ws(s, j) == s.len() {
                Some(ps)
            } else {
                None
            }
        },
        None => None,
    }
}

/// Executable mirror of [`sp_blank`].
pub fn is_blank(v: &Vec<u8>) -> (r: bool)
    ensures
        r == sp_blank(v@),
{
    let j = skip_ws(v, 0);
    j == v.len()
}

/// Executable mirror of [`sp_doc`].
pub fn parse_doc(v: &Vec<u8>) -> (r: Option<Vec<TopPair>>)
    ensures
        (match r {
            Some(ps) => Some(doc_model(ps@)),
            None => None,
        }) == sp_doc(v@),
{
    let i = skip_ws(v, 0);
    match top_obj(v, i) {
        Some((ps, j)) => {
            let k = skip_ws(v, j);
            if k == v.len() {
                Some(ps)
            } else {
                None
            }
        },
        None => None,
    }
}

} // verus!

//! Encoding and decoding of protocol envelopes on the wire format of
//! [`crate::wire`].
//!
//! Every payload is a record of named fields. Decoders are
//! forward-compatible: fields with unknown names are skipped, and an envelope
//! whose `message_type` names no known type fails with
//! [`ParseError::UnknownMessageType`] so the caller can skip the frame and
//! keep the connection.
//!
//! The central contract is the round-trip one: decoding what
//! [`encode_message`] produced gives the original envelope back, for every
//! well-formed envelope.

use vstd::prelude::*;
use crate::protocol::TransformData;
use crate::protocol::SceneChangePayload;
use crate::protocol::SceneChangeView;
use crate::protocol::TransformUpdatePayload;
use crate::protocol::TransformUpdateView;
use crate::protocol::ImageUpdatePayload;
use crate::protocol::ImageUpdateView;
use crate::protocol::FilterUpdatePayload;
use crate::protocol::FilterUpdateView;
use crate::protocol::SourceUpdatePayload;
use crate::protocol::SourceUpdateView;
use crate::protocol::SourceUpdateAction;
use crate::protocol::SyncMessageType;
use crate::protocol::SyncTargetType;
use crate::protocol::FilterData;
use crate::protocol::FilterDataView;
use crate::protocol::ImageData;
use crate::protocol::ImageDataView;
use crate::protocol::StateDifference;
use crate::protocol::StateDifferenceView;
use crate::protocol::DiffCategory;
use crate::protocol::DiffSeverity;
use crate::protocol::LocalSourceState;
use crate::protocol::LocalSourceStateView;
use crate::protocol::SceneItemData;
use crate::protocol::SceneItemDataView;
use crate::protocol::SceneData;
use crate::protocol::SceneDataView;
use crate::protocol::StateSyncPayload;
use crate::protocol::StateSyncView;
use crate::protocol::LocalStatePayload;
use crate::protocol::LocalStateView;
use crate::protocol::StateReportPayload;
use crate::protocol::StateReportView;
use crate::protocol::Payload;
use crate::protocol::PayloadView;
use crate::protocol::SyncMessage;
use crate::protocol::SyncMessageView;
use crate::protocol::payload_matches;
use crate::protocol::views_of;
use crate::wire::ParseError;
use crate::wire::dec_digits;
use crate::wire::enc_i64;
use crate::wire::enc_record;
use crate::wire::field_get;
use crate::wire::is_digit;
use crate::wire::is_token;
use crate::wire::lemma_dec_digits_are_digits;
use crate::wire::lemma_enc_record_snoc;
use crate::wire::lemma_field_get_at;
use crate::wire::lemma_tail_shift;
use crate::wire::parse_record;
use crate::wire::push_field;
use crate::wire::push_i64;
use crate::wire::read_digits;
use crate::wire::spec_field_get;
use crate::wire::str_eq;
use crate::wire::strs_view;
use crate::wire::enc_list;
use crate::wire::encode_list;
use crate::wire::parse_list;
use crate::wire::tail_of;
use crate::wire::wf_fields;

verus! {

// ---------------------------------------------------------------------------
// value encodings
// ---------------------------------------------------------------------------

/// The wire form of a boolean.
pub open spec fn enc_bool(b: bool) -> Seq<char> {
    if b {
        seq!['T']
    } else {
        seq!['F']
    }
}

/// The wire form of an optional value whose presence is flagged by a leading
/// `S` (or a lone `N` for absence).
pub open spec fn enc_opt(o: Option<Seq<char>>) -> Seq<char> {
    match o {
        None => seq!['N'],
        Some(v) => seq!['S'] + v,
    }
}

/// The wire form of an optional signed integer.
pub open spec fn enc_opt_i64(o: Option<i64>) -> Seq<char> {
    match o {
        None => enc_opt(None),
        Some(v) => enc_opt(Some(enc_i64(v))),
    }
}

pub fn encode_bool(b: bool) -> (r: &'static str)
    ensures
        r@ == enc_bool(b),
{
    proof {
        reveal_strlit("T");
        reveal_strlit("F");
        assert(("T")@ =~= seq!['T']);
        assert(("F")@ =~= seq!['F']);
    }
    if b {
        "T"
    } else {
        "F"
    }
}

pub fn decode_bool(s: &str) -> (r: Result<bool, ParseError>)
    ensures
        forall|b: bool| s@ == enc_bool(b) ==> r == Ok::<bool, ParseError>(b),
{
    let len = s.unicode_len();
    if len == 1 {
        let c = s.get_char(0);
        if c == 'T' {
            return Ok(true);
        }
        if c == 'F' {
            return Ok(false);
        }
    }
    Err(ParseError::Malformed)
}

pub fn encode_opt_i64(o: &Option<i64>) -> (r: String)
    ensures
        r@ == enc_opt_i64(*o),
{
    match o {
        None => {
            proof {
                reveal_strlit("N");
                assert(("N")@ =~= seq!['N']);
            }
            String::from_str("N")
        },
        Some(v) => {
            let mut out = String::from_str("S");
            proof {
                reveal_strlit("S");
                assert(out@ =~= seq!['S']);
            }
            push_i64(&mut out, *v);
            proof {
                assert(out@ =~= enc_opt_i64(*o));
            }
            out
        },
    }
}

pub fn decode_i64(s: &str) -> (r: Result<i64, ParseError>)
    ensures
        forall|n: i64| s@ == enc_i64(n) ==> r == Ok::<i64, ParseError>(n),
{
    let len = s.unicode_len();
    if len == 0 {
        proof {
            assert forall|n: i64| s@ == enc_i64(n) implies false by {
                lemma_dec_digits_are_digits(if n < 0 {
                    (-(n as int)) as nat
                } else {
                    n as nat
                });
            }
        }
        return Err(ParseError::Malformed);
    }
    let c0 = s.get_char(0);
    if c0 == '-' {
        match read_digits(s, 1) {
            Ok((mag, p)) => {
                if p != len || mag > 0x8000_0000_0000_0000u64 {
                    proof {
                        assert forall|n: i64| s@ == enc_i64(n) implies false by {
                            neg_enc_decomp(s@, n);
                        }
                    }
                    Err(ParseError::Malformed)
                } else {
                    let v: i64 = if mag == 0x8000_0000_0000_0000u64 {
                        i64::MIN
                    } else {
                        -(mag as i64)
                    };
                    proof {
                        assert forall|n: i64| s@ == enc_i64(n) implies v == n by {
                            neg_enc_decomp(s@, n);
                        }
                    }
                    Ok(v)
                }
            },
            Err(e) => {
                proof {
                    assert forall|n: i64| s@ == enc_i64(n) implies false by {
                        neg_enc_decomp(s@, n);
                    }
                }
                Err(e)
            },
        }
    } else {
        match read_digits(s, 0) {
            Ok((mag, p)) => {
                if p != len || mag > 0x7fff_ffff_ffff_ffffu64 {
                    proof {
                        assert forall|n: i64| s@ == enc_i64(n) implies false by {
                            pos_enc_decomp(s@, n);
                        }
                    }
                    Err(ParseError::Malformed)
                } else {
                    let v: i64 = mag as i64;
                    proof {
                        assert forall|n: i64| s@ == enc_i64(n) implies v == n by {
                            pos_enc_decomp(s@, n);
                        }
                    }
                    Ok(v)
                }
            },
            Err(e) => {
                proof {
                    assert forall|n: i64| s@ == enc_i64(n) implies false by {
                        pos_enc_decomp(s@, n);
                    }
                }
                Err(e)
            },
        }
    }
}

/// For a scan that saw a minus sign first: the encoded integer must be
/// negative, and its magnitude's digits fill the rest of the text.
proof fn neg_enc_decomp(s: Seq<char>, n: i64)
    requires
        s == enc_i64(n),
        s.len() > 0,
        s[0] == '-',
    ensures
        n < 0,
        ((-(n as int)) as u64) as nat == (-(n as int)) as nat,
        tail_of(s, 1) == dec_digits((((-(n as int)) as u64) as nat)) + Seq::<char>::empty(),
        s.len() == 1 + dec_digits((-(n as int)) as nat).len(),
        -(n as int) <= 0x8000_0000_0000_0000u64,
{
    lemma_dec_digits_are_digits(if n < 0 {
        (-(n as int)) as nat
    } else {
        n as nat
    });
    if n >= 0 {
        assert(is_digit(s[0]));
        assert(!is_digit('-'));
    }
    assert(tail_of(s, 0) =~= s);
    assert(tail_of(s, 0) == seq!['-'] + dec_digits((-(n as int)) as nat));
    lemma_tail_shift(s, 0, seq!['-'], dec_digits((-(n as int)) as nat));
    assert(tail_of(s, 1) =~= dec_digits((-(n as int)) as nat) + Seq::<char>::empty());
}

/// For a scan that saw a digit first: the encoded integer is non-negative and
/// its digits fill the whole text.
proof fn pos_enc_decomp(s: Seq<char>, n: i64)
    requires
        s == enc_i64(n),
        s.len() > 0,
        s[0] != '-',
    ensures
        n >= 0,
        (n as u64) as nat == n as nat,
        tail_of(s, 0) == dec_digits(((n as u64) as nat)) + Seq::<char>::empty(),
        s.len() == dec_digits(n as nat).len(),
        n <= 0x7fff_ffff_ffff_ffffu64,
{
    if n < 0 {
        assert(s[0] == (seq!['-'] + dec_digits((-(n as int)) as nat))[0]);
    }
    assert(tail_of(s, 0) =~= dec_digits(n as nat) + Seq::<char>::empty());
}

pub fn decode_opt_i64(s: &str) -> (r: Result<Option<i64>, ParseError>)
    ensures
        forall|o: Option<i64>| s@ == enc_opt_i64(o) ==> r == Ok::<Option<i64>, ParseError>(o),
{
    let len = s.unicode_len();
    if len == 0 {
        return Err(ParseError::Malformed);
    }
    let c = s.get_char(0);
    if c == 'N' {
        if len == 1 {
            return Ok(None);
        }
        return Err(ParseError::Malformed);
    }
    if c == 'S' {
        let body = s.substring_char(1, len);
        match decode_i64(body) {
            Ok(v) => {
                proof {
                    assert forall|o: Option<i64>| s@ == enc_opt_i64(o) implies Ok::<
                        Option<i64>,
                        ParseError,
                    >(Some(v)) == Ok::<Option<i64>, ParseError>(o) by {
                        let w = o.unwrap();
                        assert(body@ =~= enc_i64(w));
                    }
                }
                return Ok(Some(v));
            },
            Err(e) => {
                proof {
                    assert forall|o: Option<i64>| s@ == enc_opt_i64(o) implies false by {
                        let w = o.unwrap();
                        assert(body@ =~= enc_i64(w));
                    }
                }
                return Err(e);
            },
        }
    }
    Err(ParseError::Malformed)
}

/// Encodes an optional text value.
pub fn encode_opt_str(o: &Option<String>) -> (r: String)
    ensures
        r@ == enc_opt(
            match o {
                Some(v) => Some(v@),
                None => None,
            },
        ),
{
    match o {
        None => {
            proof {
                reveal_strlit("N");
                assert(("N")@ =~= seq!['N']);
            }
            String::from_str("N")
        },
        Some(v) => {
            let mut out = String::from_str("S");
            proof {
                reveal_strlit("S");
                assert(out@ =~= seq!['S']);
            }
            out.append(v.as_str());
            out
        },
    }
}

pub fn decode_opt_str(s: &str) -> (r: Result<Option<String>, ParseError>)
    ensures
        forall|o: Option<Seq<char>>|
            s@ == enc_opt(o) ==> (r matches Ok(v) && (v is Some == o is Some) && (o matches Some(
                x,
            ) ==> v.unwrap()@ == x)),
{
    let len = s.unicode_len();
    if len == 0 {
        return Err(ParseError::Malformed);
    }
    let c = s.get_char(0);
    if c == 'N' {
        if len == 1 {
            return Ok(None);
        }
        return Err(ParseError::Malformed);
    }
    if c == 'S' {
        let body = s.substring_char(1, len).to_owned();
        proof {
            assert forall|o: Option<Seq<char>>| s@ == enc_opt(o) implies o is Some && body@
                == o.unwrap() by {
                assert(body@ =~= o.unwrap());
            }
        }
        return Ok(Some(body));
    }
    Err(ParseError::Malformed)
}

// ---------------------------------------------------------------------------
// the transform record
// ---------------------------------------------------------------------------

/// The named fields of a transform record.
pub open spec fn transform_fields(t: TransformData) -> Seq<(Seq<char>, Seq<char>)> {
    seq![
        (("position_x")@, enc_opt_i64(t.position_x)),
        (("position_y")@, enc_opt_i64(t.position_y)),
        (("rotation")@, enc_opt_i64(t.rotation)),
        (("scale_x")@, enc_opt_i64(t.scale_x)),
        (("scale_y")@, enc_opt_i64(t.scale_y)),
        (("width")@, enc_opt_i64(t.width)),
        (("height")@, enc_opt_i64(t.height)),
    ]
}

/// The wire form of a transform.
pub open spec fn enc_transform(t: TransformData) -> Seq<char> {
    enc_record(transform_fields(t))
}

/// Field names of the transform record are tokens, pairwise distinct, and
/// each looks up to its own value.
proof fn transform_fields_facts(t: TransformData)
    ensures
        wf_fields(transform_fields(t)),
        spec_field_get(transform_fields(t), ("position_x")@) == Some(enc_opt_i64(t.position_x)),
        spec_field_get(transform_fields(t), ("position_y")@) == Some(enc_opt_i64(t.position_y)),
        spec_field_get(transform_fields(t), ("rotation")@) == Some(enc_opt_i64(t.rotation)),
        spec_field_get(transform_fields(t), ("scale_x")@) == Some(enc_opt_i64(t.scale_x)),
        spec_field_get(transform_fields(t), ("scale_y")@) == Some(enc_opt_i64(t.scale_y)),
        spec_field_get(transform_fields(t), ("width")@) == Some(enc_opt_i64(t.width)),
        spec_field_get(transform_fields(t), ("height")@) == Some(enc_opt_i64(t.height)),
{
    reveal_strlit("position_x");
    reveal_strlit("position_y");
    reveal_strlit("rotation");
    reveal_strlit("scale_x");
    reveal_strlit("scale_y");
    reveal_strlit("width");
    reveal_strlit("height");
    assert(("position_x")@.len() == 10);
    assert(("position_y")@.len() == 10);
    assert(("rotation")@.len() == 8);
    assert(("scale_x")@.len() == 7);
    assert(("scale_y")@.len() == 7);
    assert(("width")@.len() == 5);
    assert(("height")@.len() == 6);
    assert(("position_x")@[9] == 'x');
    assert(("position_y")@[9] == 'y');
    assert(("scale_x")@[6] == 'x');
    assert(("scale_y")@[6] == 'y');
    let fs = transform_fields(t);
    assert(is_token(("position_x")@));
    assert(is_token(("position_y")@));
    assert(is_token(("rotation")@));
    assert(is_token(("scale_x")@));
    assert(is_token(("scale_y")@));
    assert(is_token(("width")@));
    assert(is_token(("height")@));
    lemma_field_get_at(fs, 0);
    lemma_field_get_at(fs, 1);
    lemma_field_get_at(fs, 2);
    lemma_field_get_at(fs, 3);
    lemma_field_get_at(fs, 4);
    lemma_field_get_at(fs, 5);
    lemma_field_get_at(fs, 6);
}

/// Encodes a transform as a record.
pub fn encode_transform(t: &TransformData) -> (r: String)
    ensures
        r@ == enc_transform(*t),
{
    let mut out = String::new();
    let ghost mut fs: Seq<(Seq<char>, Seq<char>)> = Seq::empty();
    proof {
        assert(out@ =~= enc_record(fs));
    }
    let v0 = encode_opt_i64(&t.position_x);
    push_field(&mut out, "position_x", v0.as_str());
    proof {
        lemma_enc_record_snoc(fs, (("position_x")@, v0@));
        fs = fs.push((("position_x")@, v0@));
    }
    let v1 = encode_opt_i64(&t.position_y);
    push_field(&mut out, "position_y", v1.as_str());
    proof {
        lemma_enc_record_snoc(fs, (("position_y")@, v1@));
        fs = fs.push((("position_y")@, v1@));
    }
    let v2 = encode_opt_i64(&t.rotation);
    push_field(&mut out, "rotation", v2.as_str());
    proof {
        lemma_enc_record_snoc(fs, (("rotation")@, v2@));
        fs = fs.push((("rotation")@, v2@));
    }
    let v3 = encode_opt_i64(&t.scale_x);
    push_field(&mut out, "scale_x", v3.as_str());
    proof {
        lemma_enc_record_snoc(fs, (("scale_x")@, v3@));
        fs = fs.push((("scale_x")@, v3@));
    }
    let v4 = encode_opt_i64(&t.scale_y);
    push_field(&mut out, "scale_y", v4.as_str());
    proof {
        lemma_enc_record_snoc(fs, (("scale_y")@, v4@));
        fs = fs.push((("scale_y")@, v4@));
    }
    let v5 = encode_opt_i64(&t.width);
    push_field(&mut out, "width", v5.as_str());
    proof {
        lemma_enc_record_snoc(fs, (("width")@, v5@));
        fs = fs.push((("width")@, v5@));
    }
    let v6 = encode_opt_i64(&t.height);
    push_field(&mut out, "height", v6.as_str());
    proof {
        lemma_enc_record_snoc(fs, (("height")@, v6@));
        fs = fs.push((("height")@, v6@));
        assert(fs =~= transform_fields(*t));
    }
    out
}

/// Decodes a transform record. Unknown fields are ignored; a missing scalar
/// field fails.
pub fn decode_transform(s: &str) -> (r: Result<TransformData, ParseError>)
    ensures
        forall|t: TransformData|
            s@ == enc_transform(t) ==> r == Ok::<TransformData, ParseError>(t),
{
    let fields = match parse_record(s) {
        Ok(f) => f,
        Err(e) => {
            proof {
                assert forall|t: TransformData| s@ == enc_transform(t) implies false by {
                    transform_fields_facts(t);
                }
            }
            return Err(e);
        },
    };
    let f_px = field_get(&fields, "position_x");
    let f_py = field_get(&fields, "position_y");
    let f_rot = field_get(&fields, "rotation");
    let f_sx = field_get(&fields, "scale_x");
    let f_sy = field_get(&fields, "scale_y");
    let f_w = field_get(&fields, "width");
    let f_h = field_get(&fields, "height");
    proof {
        assert forall|t: TransformData| s@ == enc_transform(t) implies {
            &&& f_px matches Some(v) && v@ == enc_opt_i64(t.position_x)
            &&& f_py matches Some(v) && v@ == enc_opt_i64(t.position_y)
            &&& f_rot matches Some(v) && v@ == enc_opt_i64(t.rotation)
            &&& f_sx matches Some(v) && v@ == enc_opt_i64(t.scale_x)
            &&& f_sy matches Some(v) && v@ == enc_opt_i64(t.scale_y)
            &&& f_w matches Some(v) && v@ == enc_opt_i64(t.width)
            &&& f_h matches Some(v) && v@ == enc_opt_i64(t.height)
        } by {
            transform_fields_facts(t);
        }
    }
    match (f_px, f_py, f_rot, f_sx, f_sy, f_w, f_h) {
        (Some(px), Some(py), Some(rot), Some(sx), Some(sy), Some(w), Some(h)) => {
            let position_x = decode_opt_i64(px.as_str())?;
            let position_y = decode_opt_i64(py.as_str())?;
            let rotation = decode_opt_i64(rot.as_str())?;
            let scale_x = decode_opt_i64(sx.as_str())?;
            let scale_y = decode_opt_i64(sy.as_str())?;
            let width = decode_opt_i64(w.as_str())?;
            let height = decode_opt_i64(h.as_str())?;
            Ok(
                TransformData {
                    position_x,
                    position_y,
                    rotation,
                    scale_x,
                    scale_y,
                    width,
                    height,
                },
            )
        },
        _ => Err(ParseError::Malformed),
    }
}

// ---------------------------------------------------------------------------
// the scene-change record
// ---------------------------------------------------------------------------

/// The named fields of a scene-change payload.
pub open spec fn scene_change_fields(p: SceneChangeView) -> Seq<(Seq<char>, Seq<char>)> {
    seq![(("scene_name")@, p.scene_name)]
}

/// The wire form of a scene-change payload.
pub open spec fn enc_scene_change(p: SceneChangeView) -> Seq<char> {
    enc_record(scene_change_fields(p))
}

proof fn scene_change_fields_facts(p: SceneChangeView)
    ensures
        wf_fields(scene_change_fields(p)),
        spec_field_get(scene_change_fields(p), ("scene_name")@) == Some(p.scene_name),
{
    reveal_strlit("scene_name");
    assert(is_token(("scene_name")@));
    lemma_field_get_at(scene_change_fields(p), 0);
}

pub fn encode_scene_change(p: &SceneChangePayload) -> (r: String)
    ensures
        r@ == enc_scene_change(p@),
{
    let mut out = String::new();
    let ghost fs: Seq<(Seq<char>, Seq<char>)> = Seq::empty();
    proof {
        assert(out@ =~= enc_record(fs));
    }
    push_field(&mut out, "scene_name", p.scene_name.as_str());
    proof {
        lemma_enc_record_snoc(fs, (("scene_name")@, p.scene_name@));
        assert(fs.push((("scene_name")@, p.scene_name@)) =~= scene_change_fields(p@));
    }
    out
}

pub fn decode_scene_change(s: &str) -> (r: Result<SceneChangePayload, ParseError>)
    ensures
        forall|p: SceneChangeView|
            s@ == enc_scene_change(p) ==> (r matches Ok(d) && d@ == p),
{
    let fields = match parse_record(s) {
        Ok(f) => f,
        Err(e) => {
            proof {
                assert forall|p: SceneChangeView| s@ == enc_scene_change(p) implies false by {
                    scene_change_fields_facts(p);
                }
            }
            return Err(e);
        },
    };
    let f_name = field_get(&fields, "scene_name");
    proof {
        assert forall|p: SceneChangeView| s@ == enc_scene_change(p) implies (f_name matches Some(v)
            && v@ == p.scene_name) by {
            scene_change_fields_facts(p);
        }
    }
    match f_name {
        Some(name) => Ok(SceneChangePayload { scene_name: name.clone() }),
        None => Err(ParseError::Malformed),
    }
}

// ---------------------------------------------------------------------------
// enum tokens
// ---------------------------------------------------------------------------

/// The wire token of a message type.
pub open spec fn type_token(t: SyncMessageType) -> Seq<char> {
    match t {
        SyncMessageType::SourceUpdate => ("source_update")@,
        SyncMessageType::TransformUpdate => ("transform_update")@,
        SyncMessageType::SceneChange => ("scene_change")@,
        SyncMessageType::ImageUpdate => ("image_update")@,
        SyncMessageType::FilterUpdate => ("filter_update")@,
        SyncMessageType::Heartbeat => ("heartbeat")@,
        SyncMessageType::StateSync => ("state_sync")@,
        SyncMessageType::StateSyncRequest => ("state_sync_request")@,
        SyncMessageType::StateReport => ("state_report")@,
    }
}

proof fn type_token_facts()
    ensures
        forall|t1: SyncMessageType, t2: SyncMessageType|
            type_token(t1) == type_token(t2) ==> t1 == t2,
{
    reveal_strlit("source_update");
    reveal_strlit("transform_update");
    reveal_strlit("scene_change");
    reveal_strlit("image_update");
    reveal_strlit("filter_update");
    reveal_strlit("heartbeat");
    reveal_strlit("state_sync");
    reveal_strlit("state_sync_request");
    reveal_strlit("state_report");
    assert(("source_update")@.len() == 13);
    assert(("transform_update")@.len() == 16);
    assert(("scene_change")@.len() == 12);
    assert(("image_update")@.len() == 12);
    assert(("filter_update")@.len() == 13);
    assert(("heartbeat")@.len() == 9);
    assert(("state_sync")@.len() == 10);
    assert(("state_sync_request")@.len() == 18);
    assert(("state_report")@.len() == 12);
    assert(("source_update")@[0] == 's');
    assert(("filter_update")@[0] == 'f');
    assert(("scene_change")@[0] == 's');
    assert(("image_update")@[0] == 'i');
    assert(("state_report")@[0] == 's');
    assert(("scene_change")@[1] == 'c');
    assert(("state_report")@[1] == 't');
}

pub fn encode_message_type(t: &SyncMessageType) -> (r: &'static str)
    ensures
        r@ == type_token(*t),
{
    match t {
        SyncMessageType::SourceUpdate => "source_update",
        SyncMessageType::TransformUpdate => "transform_update",
        SyncMessageType::SceneChange => "scene_change",
        SyncMessageType::ImageUpdate => "image_update",
        SyncMessageType::FilterUpdate => "filter_update",
        SyncMessageType::Heartbeat => "heartbeat",
        SyncMessageType::StateSync => "state_sync",
        SyncMessageType::StateSyncRequest => "state_sync_request",
        SyncMessageType::StateReport => "state_report",
    }
}

/// Decodes a message-type token. An unrecognised token is the one decode
/// failure that reports `UnknownMessageType` rather than `Malformed`.
pub fn decode_message_type(s: &str) -> (r: Result<SyncMessageType, ParseError>)
    ensures
        forall|t: SyncMessageType|
            s@ == type_token(t) ==> r == Ok::<SyncMessageType, ParseError>(t),
        r is Err ==> r == Err::<SyncMessageType, ParseError>(ParseError::UnknownMessageType),
{
    proof {
        type_token_facts();
    }
    if str_eq(s, "source_update") {
        proof {
            assert(s@ == type_token(SyncMessageType::SourceUpdate));
        }
        return Ok(SyncMessageType::SourceUpdate);
    }
    if str_eq(s, "transform_update") {
        proof {
            assert(s@ == type_token(SyncMessageType::TransformUpdate));
        }
        return Ok(SyncMessageType::TransformUpdate);
    }
    if str_eq(s, "scene_change") {
        proof {
            assert(s@ == type_token(SyncMessageType::SceneChange));
        }
        return Ok(SyncMessageType::SceneChange);
    }
    if str_eq(s, "image_update") {
        proof {
            assert(s@ == type_token(SyncMessageType::ImageUpdate));
        }
        return Ok(SyncMessageType::ImageUpdate);
    }
    if str_eq(s, "filter_update") {
        proof {
            assert(s@ == type_token(SyncMessageType::FilterUpdate));
        }
        return Ok(SyncMessageType::FilterUpdate);
    }
    if str_eq(s, "heartbeat") {
        proof {
            assert(s@ == type_token(SyncMessageType::Heartbeat));
        }
        return Ok(SyncMessageType::Heartbeat);
    }
    if str_eq(s, "state_sync") {
        proof {
            assert(s@ == type_token(SyncMessageType::StateSync));
        }
        return Ok(SyncMessageType::StateSync);
    }
    if str_eq(s, "state_sync_request") {
        proof {
            assert(s@ == type_token(SyncMessageType::StateSyncRequest));
        }
        return Ok(SyncMessageType::StateSyncRequest);
    }
    if str_eq(s, "state_report") {
        proof {
            assert(s@ == type_token(SyncMessageType::StateReport));
        }
        return Ok(SyncMessageType::StateReport);
    }
    Err(ParseError::UnknownMessageType)
}

/// The wire token of a target type.
pub open spec fn target_token(t: SyncTargetType) -> Seq<char> {
    match t {
        SyncTargetType::Source => ("source")@,
        SyncTargetType::Preview => ("preview")@,
        SyncTargetType::Program => ("program")@,
    }
}

proof fn target_token_facts()
    ensures
        forall|t1: SyncTargetType, t2: SyncTargetType|
            target_token(t1) == target_token(t2) ==> t1 == t2,
{
    reveal_strlit("source");
    reveal_strlit("preview");
    reveal_strlit("program");
    assert(("source")@.len() == 6);
    assert(("preview")@.len() == 7);
    assert(("program")@.len() == 7);
    assert(("preview")@[2] == 'e');
    assert(("program")@[2] == 'o');
}

pub fn encode_target_type(t: &SyncTargetType) -> (r: &'static str)
    ensures
        r@ == target_token(*t),
{
    match t {
        SyncTargetType::Source => "source",
        SyncTargetType::Preview => "preview",
        SyncTargetType::Program => "program",
    }
}

pub fn decode_target_type(s: &str) -> (r: Result<SyncTargetType, ParseError>)
    ensures
        forall|t: SyncTargetType|
            s@ == target_token(t) ==> r == Ok::<SyncTargetType, ParseError>(t),
{
    proof {
        target_token_facts();
    }
    if str_eq(s, "source") {
        proof {
            assert(s@ == target_token(SyncTargetType::Source));
        }
        return Ok(SyncTargetType::Source);
    }
    if str_eq(s, "preview") {
        proof {
            assert(s@ == target_token(SyncTargetType::Preview));
        }
        return Ok(SyncTargetType::Preview);
    }
    if str_eq(s, "program") {
        proof {
            assert(s@ == target_token(SyncTargetType::Program));
        }
        return Ok(SyncTargetType::Program);
    }
    Err(ParseError::Malformed)
}

/// The wire token of a source-update action.
pub open spec fn action_token(a: SourceUpdateAction) -> Seq<char> {
    match a {
        SourceUpdateAction::Created => ("created")@,
        SourceUpdateAction::Removed => ("removed")@,
        SourceUpdateAction::EnabledStateChanged => ("enabled_state_changed")@,
        SourceUpdateAction::SettingsChanged => ("settings_changed")@,
    }
}

proof fn action_token_facts()
    ensures
        forall|a1: SourceUpdateAction, a2: SourceUpdateAction|
            action_token(a1) == action_token(a2) ==> a1 == a2,
{
    reveal_strlit("created");
    reveal_strlit("removed");
    reveal_strlit("enabled_state_changed");
    reveal_strlit("settings_changed");
    assert(("created")@.len() == 7);
    assert(("removed")@.len() == 7);
    assert(("enabled_state_changed")@.len() == 21);
    assert(("settings_changed")@.len() == 16);
    assert(("created")@[0] == 'c');
    assert(("removed")@[0] == 'r');
}

pub fn encode_action(a: &SourceUpdateAction) -> (r: &'static str)
    ensures
        r@ == action_token(*a),
{
    match a {
        SourceUpdateAction::Created => "created",
        SourceUpdateAction::Removed => "removed",
        SourceUpdateAction::EnabledStateChanged => "enabled_state_changed",
        SourceUpdateAction::SettingsChanged => "settings_changed",
    }
}

pub fn decode_action(s: &str) -> (r: Result<SourceUpdateAction, ParseError>)
    ensures
        forall|a: SourceUpdateAction|
            s@ == action_token(a) ==> r == Ok::<SourceUpdateAction, ParseError>(a),
{
    proof {
        action_token_facts();
    }
    if str_eq(s, "created") {
        proof {
            assert(s@ == action_token(SourceUpdateAction::Created));
        }
        return Ok(SourceUpdateAction::Created);
    }
    if str_eq(s, "removed") {
        proof {
            assert(s@ == action_token(SourceUpdateAction::Removed));
        }
        return Ok(SourceUpdateAction::Removed);
    }
    if str_eq(s, "enabled_state_changed") {
        proof {
            assert(s@ == action_token(SourceUpdateAction::EnabledStateChanged));
        }
        return Ok(SourceUpdateAction::EnabledStateChanged);
    }
    if str_eq(s, "settings_changed") {
        proof {
            assert(s@ == action_token(SourceUpdateAction::SettingsChanged));
        }
        return Ok(SourceUpdateAction::SettingsChanged);
    }
    Err(ParseError::Malformed)
}

/// The wire token of a difference category.
pub open spec fn category_token(c: DiffCategory) -> Seq<char> {
    match c {
        DiffCategory::SceneMismatch => ("scene_mismatch")@,
        DiffCategory::SourceMissing => ("source_missing")@,
        DiffCategory::TransformMismatch => ("transform_mismatch")@,
        DiffCategory::SettingsMismatch => ("settings_mismatch")@,
    }
}

proof fn category_token_facts()
    ensures
        forall|c1: DiffCategory, c2: DiffCategory|
            category_token(c1) == category_token(c2) ==> c1 == c2,
{
    reveal_strlit("scene_mismatch");
    reveal_strlit("source_missing");
    reveal_strlit("transform_mismatch");
    reveal_strlit("settings_mismatch");
    assert(("scene_mismatch")@.len() == 14);
    assert(("source_missing")@.len() == 14);
    assert(("transform_mismatch")@.len() == 18);
    assert(("settings_mismatch")@.len() == 17);
    assert(("scene_mismatch")@[1] == 'c');
    assert(("source_missing")@[1] == 'o');
}

pub fn encode_category(c: &DiffCategory) -> (r: &'static str)
    ensures
        r@ == category_token(*c),
{
    match c {
        DiffCategory::SceneMismatch => "scene_mismatch",
        DiffCategory::SourceMissing => "source_missing",
        DiffCategory::TransformMismatch => "transform_mismatch",
        DiffCategory::SettingsMismatch => "settings_mismatch",
    }
}

pub fn decode_category(s: &str) -> (r: Result<DiffCategory, ParseError>)
    ensures
        forall|c: DiffCategory|
            s@ == category_token(c) ==> r == Ok::<DiffCategory, ParseError>(c),
{
    proof {
        category_token_facts();
    }
    if str_eq(s, "scene_mismatch") {
        proof {
            assert(s@ == category_token(DiffCategory::SceneMismatch));
        }
        return Ok(DiffCategory::SceneMismatch);
    }
    if str_eq(s, "source_missing") {
        proof {
            assert(s@ == category_token(DiffCategory::SourceMissing));
        }
        return Ok(DiffCategory::SourceMissing);
    }
    if str_eq(s, "transform_mismatch") {
        proof {
            assert(s@ == category_token(DiffCategory::TransformMismatch));
        }
        return Ok(DiffCategory::TransformMismatch);
    }
    if str_eq(s, "settings_mismatch") {
        proof {
            assert(s@ == category_token(DiffCategory::SettingsMismatch));
        }
        return Ok(DiffCategory::SettingsMismatch);
    }
    Err(ParseError::Malformed)
}

/// The wire token of a difference severity.
pub open spec fn severity_token(v: DiffSeverity) -> Seq<char> {
    match v {
        DiffSeverity::Critical => ("critical")@,
        DiffSeverity::Warning => ("warning")@,
        DiffSeverity::Info => ("info")@,
    }
}

proof fn severity_token_facts()
    ensures
        forall|v1: DiffSeverity, v2: DiffSeverity|
            severity_token(v1) == severity_token(v2) ==> v1 == v2,
{
    reveal_strlit("critical");
    reveal_strlit("warning");
    reveal_strlit("info");
    assert(("critical")@.len() == 8);
    assert(("warning")@.len() == 7);
    assert(("info")@.len() == 4);
}

pub fn encode_severity(v: &DiffSeverity) -> (r: &'static str)
    ensures
        r@ == severity_token(*v),
{
    match v {
        DiffSeverity::Critical => "critical",
        DiffSeverity::Warning => "warning",
        DiffSeverity::Info => "info",
    }
}

pub fn decode_severity(s: &str) -> (r: Result<DiffSeverity, ParseError>)
    ensures
        forall|v: DiffSeverity|
            s@ == severity_token(v) ==> r == Ok::<DiffSeverity, ParseError>(v),
{
    proof {
        severity_token_facts();
    }
    if str_eq(s, "critical") {
        proof {
            assert(s@ == severity_token(DiffSeverity::Critical));
        }
        return Ok(DiffSeverity::Critical);
    }
    if str_eq(s, "warning") {
        proof {
            assert(s@ == severity_token(DiffSeverity::Warning));
        }
        return Ok(DiffSeverity::Warning);
    }
    if str_eq(s, "info") {
        proof {
            assert(s@ == severity_token(DiffSeverity::Info));
        }
        return Ok(DiffSeverity::Info);
    }
    Err(ParseError::Malformed)
}

// ---------------------------------------------------------------------------
// optional nested values
// ---------------------------------------------------------------------------

/// The wire form of an optional boolean.
pub open spec fn enc_opt_bool(o: Option<bool>) -> Seq<char> {
    match o {
        None => enc_opt(None),
        Some(b) => enc_opt(Some(enc_bool(b))),
    }
}

pub fn encode_opt_bool(o: &Option<bool>) -> (r: String)
    ensures
        r@ == enc_opt_bool(*o),
{
    match o {
        None => {
            proof {
                reveal_strlit("N");
                assert(("N")@ =~= seq!['N']);
            }
            String::from_str("N")
        },
        Some(b) => {
            let mut out = String::from_str("S");
            proof {
                reveal_strlit("S");
                assert(out@ =~= seq!['S']);
            }
            out.append(encode_bool(*b));
            proof {
                assert(out@ =~= enc_opt_bool(*o));
            }
            out
        },
    }
}

pub fn decode_opt_bool(s: &str) -> (r: Result<Option<bool>, ParseError>)
    ensures
        forall|o: Option<bool>| s@ == enc_opt_bool(o) ==> r == Ok::<Option<bool>, ParseError>(o),
{
    match decode_opt_str(s) {
        Ok(None) => {
            proof {
                assert forall|o: Option<bool>| s@ == enc_opt_bool(o) implies o is None by {
                    assert(enc_opt_bool(o) == enc_opt(match o {
                        None => None,
                        Some(b) => Some(enc_bool(b)),
                    }));
                }
            }
            Ok(None)
        },
        Ok(Some(body)) => {
            match decode_bool(body.as_str()) {
                Ok(b) => {
                    proof {
                        assert forall|o: Option<bool>| s@ == enc_opt_bool(o) implies Ok::<
                            Option<bool>,
                            ParseError,
                        >(Some(b)) == Ok::<Option<bool>, ParseError>(o) by {
                            assert(enc_opt_bool(o) == enc_opt(match o {
                                None => None,
                                Some(bb) => Some(enc_bool(bb)),
                            }));
                            assert(body@ == enc_bool(o.unwrap()));
                        }
                    }
                    Ok(Some(b))
                },
                Err(e) => {
                    proof {
                        assert forall|o: Option<bool>| s@ == enc_opt_bool(o) implies false by {
                            assert(enc_opt_bool(o) == enc_opt(match o {
                                None => None,
                                Some(bb) => Some(enc_bool(bb)),
                            }));
                            assert(body@ == enc_bool(o.unwrap()));
                        }
                    }
                    Err(e)
                },
            }
        },
        Err(e) => {
            proof {
                assert forall|o: Option<bool>| s@ == enc_opt_bool(o) implies false by {
                    assert(enc_opt_bool(o) == enc_opt(match o {
                        None => None,
                        Some(bb) => Some(enc_bool(bb)),
                    }));
                }
            }
            Err(e)
        },
    }
}

/// The wire form of an optional transform.
pub open spec fn enc_opt_transform(o: Option<TransformData>) -> Seq<char> {
    match o {
        None => enc_opt(None),
        Some(t) => enc_opt(Some(enc_transform(t))),
    }
}

pub fn encode_opt_transform(o: &Option<TransformData>) -> (r: String)
    ensures
        r@ == enc_opt_transform(*o),
{
    match o {
        None => {
            proof {
                reveal_strlit("N");
                assert(("N")@ =~= seq!['N']);
            }
            String::from_str("N")
        },
        Some(t) => {
            let mut out = String::from_str("S");
            proof {
                reveal_strlit("S");
                assert(out@ =~= seq!['S']);
            }
            let body = encode_transform(t);
            out.append(body.as_str());
            proof {
                assert(out@ =~= enc_opt_transform(*o));
            }
            out
        },
    }
}

pub fn decode_opt_transform(s: &str) -> (r: Result<Option<TransformData>, ParseError>)
    ensures
        forall|o: Option<TransformData>|
            s@ == enc_opt_transform(o) ==> r == Ok::<Option<TransformData>, ParseError>(o),
{
    match decode_opt_str(s) {
        Ok(None) => {
            proof {
                assert forall|o: Option<TransformData>| s@ == enc_opt_transform(o) implies o
                    is None by {
                    assert(enc_opt_transform(o) == enc_opt(match o {
                        None => None,
                        Some(t) => Some(enc_transform(t)),
                    }));
                }
            }
            Ok(None)
        },
        Ok(Some(body)) => {
            match decode_transform(body.as_str()) {
                Ok(t) => {
                    proof {
                        assert forall|o: Option<TransformData>| s@ == enc_opt_transform(o)
                            implies Ok::<Option<TransformData>, ParseError>(Some(t)) == Ok::<
                            Option<TransformData>,
                            ParseError,
                        >(o) by {
                            assert(enc_opt_transform(o) == enc_opt(match o {
                                None => None,
                                Some(tt) => Some(enc_transform(tt)),
                            }));
                            assert(body@ == enc_transform(o.unwrap()));
                        }
                    }
                    Ok(Some(t))
                },
                Err(e) => {
                    proof {
                        assert forall|o: Option<TransformData>| s@ == enc_opt_transform(o)
                            implies false by {
                            assert(enc_opt_transform(o) == enc_opt(match o {
                                None => None,
                                Some(tt) => Some(enc_transform(tt)),
                            }));
                            assert(body@ == enc_transform(o.unwrap()));
                        }
                    }
                    Err(e)
                },
            }
        },
        Err(e) => {
            proof {
                assert forall|o: Option<TransformData>| s@ == enc_opt_transform(o)
                    implies false by {
                    assert(enc_opt_transform(o) == enc_opt(match o {
                        None => None,
                        Some(tt) => Some(enc_transform(tt)),
                    }));
                }
            }
            Err(e)
        },
    }
}


/// The decimal rendering of a signed integer as an owned string.
pub fn encode_i64_str(n: i64) -> (r: String)
    ensures
        r@ == enc_i64(n),
{
    let mut out = String::new();
    push_i64(&mut out, n);
    proof {
        assert(out@ =~= enc_i64(n));
    }
    out
}

// ---------------------------------------------------------------------------
// the transform-update record
// ---------------------------------------------------------------------------

/// The named fields of a transform update record.
pub open spec fn transform_update_fields(p: TransformUpdateView) -> Seq<(Seq<char>, Seq<char>)> {
    seq![
        (("scene_name")@, p.scene_name),
        (("scene_item_id")@, enc_i64(p.scene_item_id)),
        (("transform")@, enc_transform(p.transform)),
    ]
}

/// The wire form of a transform update record.
pub open spec fn enc_transform_update(p: TransformUpdateView) -> Seq<char> {
    enc_record(transform_update_fields(p))
}

proof fn transform_update_fields_facts(p: TransformUpdateView)
    ensures
        wf_fields(transform_update_fields(p)),
        spec_field_get(transform_update_fields(p), ("scene_name")@) == Some(p.scene_name),
        spec_field_get(transform_update_fields(p), ("scene_item_id")@) == Some(enc_i64(p.scene_item_id)),
        spec_field_get(transform_update_fields(p), ("transform")@) == Some(enc_transform(p.transform)),
{
    reveal_strlit("scene_name");
    reveal_strlit("scene_item_id");
    reveal_strlit("transform");
    assert(("scene_name")@.len() == 10);
    assert(("scene_item_id")@.len() == 13);
    assert(("transform")@.len() == 9);
    assert(is_token(("scene_name")@));
    assert(is_token(("scene_item_id")@));
    assert(is_token(("transform")@));
    lemma_field_get_at(transform_update_fields(p), 0);
    lemma_field_get_at(transform_update_fields(p), 1);
    lemma_field_get_at(transform_update_fields(p), 2);
}

pub fn encode_transform_update(p: &TransformUpdatePayload) -> (r: String)
    ensures
        r@ == enc_transform_update(p@),
{
    let mut out = String::new();
    let ghost mut fs: Seq<(Seq<char>, Seq<char>)> = Seq::empty();
    proof {
        assert(out@ =~= enc_record(fs));
    }
    push_field(&mut out, "scene_name", p.scene_name.as_str());
    proof {
        lemma_enc_record_snoc(fs, (("scene_name")@, p.scene_name@));
        fs = fs.push((("scene_name")@, p.scene_name@));
    }
    let v1 = encode_i64_str(p.scene_item_id);
    push_field(&mut out, "scene_item_id", v1.as_str());
    proof {
        lemma_enc_record_snoc(fs, (("scene_item_id")@, v1@));
        fs = fs.push((("scene_item_id")@, v1@));
    }
    let v2 = encode_transform(&p.transform);
    push_field(&mut out, "transform", v2.as_str());
    proof {
        lemma_enc_record_snoc(fs, (("transform")@, v2@));
        fs = fs.push((("transform")@, v2@));
    }
    proof {
        assert(fs =~= transform_update_fields(p@));
    }
    out
}

pub fn decode_transform_update(s: &str) -> (r: Result<TransformUpdatePayload, ParseError>)
    ensures
        forall|p: TransformUpdateView| s@ == enc_transform_update(p) ==> (r matches Ok(d) && d@ == p),
{
    let fields = match parse_record(s) {
        Ok(f) => f,
        Err(e) => {
            proof {
                assert forall|p: TransformUpdateView| s@ == enc_transform_update(p) implies false by {
                    transform_update_fields_facts(p);
                }
            }
            return Err(e);
        },
    };
    let f_scene_name = field_get(&fields, "scene_name");
    let f_scene_item_id = field_get(&fields, "scene_item_id");
    let f_transform = field_get(&fields, "transform");
    proof {
        assert forall|p: TransformUpdateView| s@ == enc_transform_update(p) implies {
            &&& f_scene_name matches Some(v) && v@ == p.scene_name
            &&& f_scene_item_id matches Some(v) && v@ == enc_i64(p.scene_item_id)
            &&& f_transform matches Some(v) && v@ == enc_transform(p.transform)
        } by {
            transform_update_fields_facts(p);
        }
    }
    match (f_scene_name, f_scene_item_id, f_transform) {
        (Some(v_scene_name), Some(v_scene_item_id), Some(v_transform)) => {
            let scene_name = v_scene_name.clone();
            let scene_item_id = decode_i64(v_scene_item_id.as_str())?;
            let transform = decode_transform(v_transform.as_str())?;
            Ok(TransformUpdatePayload { scene_name, scene_item_id, transform })
        },
        _ => Err(ParseError::Malformed),
    }
}

// ---------------------------------------------------------------------------
// the image-update record
// ---------------------------------------------------------------------------

/// The named fields of a image update record.
pub open spec fn image_update_fields(p: ImageUpdateView) -> Seq<(Seq<char>, Seq<char>)> {
    seq![
        (("scene_name")@, p.scene_name),
        (("source_name")@, p.source_name),
        (("file")@, p.file),
        (("image_data")@, enc_opt(p.image_data)),
    ]
}

/// The wire form of a image update record.
pub open spec fn enc_image_update(p: ImageUpdateView) -> Seq<char> {
    enc_record(image_update_fields(p))
}

proof fn image_update_fields_facts(p: ImageUpdateView)
    ensures
        wf_fields(image_update_fields(p)),
        spec_field_get(image_update_fields(p), ("scene_name")@) == Some(p.scene_name),
        spec_field_get(image_update_fields(p), ("source_name")@) == Some(p.source_name),
        spec_field_get(image_update_fields(p), ("file")@) == Some(p.file),
        spec_field_get(image_update_fields(p), ("image_data")@) == Some(enc_opt(p.image_data)),
{
    reveal_strlit("scene_name");
    reveal_strlit("source_name");
    reveal_strlit("file");
    reveal_strlit("image_data");
    assert(("scene_name")@.len() == 10);
    assert(("source_name")@.len() == 11);
    assert(("file")@.len() == 4);
    assert(("image_data")@.len() == 10);
    assert(("scene_name")@[0] == 's');
    assert(("image_data")@[0] == 'i');
    assert(is_token(("scene_name")@));
    assert(is_token(("source_name")@));
    assert(is_token(("file")@));
    assert(is_token(("image_data")@));
    lemma_field_get_at(image_update_fields(p), 0);
    lemma_field_get_at(image_update_fields(p), 1);
    lemma_field_get_at(image_update_fields(p), 2);
    lemma_field_get_at(image_update_fields(p), 3);
}

pub fn encode_image_update(p: &ImageUpdatePayload) -> (r: String)
    ensures
        r@ == enc_image_update(p@),
{
    let mut out = String::new();
    let ghost mut fs: Seq<(Seq<char>, Seq<char>)> = Seq::empty();
    proof {
        assert(out@ =~= enc_record(fs));
    }
    push_field(&mut out, "scene_name", p.scene_name.as_str());
    proof {
        lemma_enc_record_snoc(fs, (("scene_name")@, p.scene_name@));
        fs = fs.push((("scene_name")@, p.scene_name@));
    }
    push_field(&mut out, "source_name", p.source_name.as_str());
    proof {
        lemma_enc_record_snoc(fs, (("source_name")@, p.source_name@));
        fs = fs.push((("source_name")@, p.source_name@));
    }
    push_field(&mut out, "file", p.file.as_str());
    proof {
        lemma_enc_record_snoc(fs, (("file")@, p.file@));
        fs = fs.push((("file")@, p.file@));
    }
    let v3 = encode_opt_str(&p.image_data);
    push_field(&mut out, "image_data", v3.as_str());
    proof {
        lemma_enc_record_snoc(fs, (("image_data")@, v3@));
        fs = fs.push((("image_data")@, v3@));
    }
    proof {
        assert(fs =~= image_update_fields(p@));
    }
    out
}

pub fn decode_image_update(s: &str) -> (r: Result<ImageUpdatePayload, ParseError>)
    ensures
        forall|p: ImageUpdateView| s@ == enc_image_update(p) ==> (r matches Ok(d) && d@ == p),
{
    let fields = match parse_record(s) {
        Ok(f) => f,
        Err(e) => {
            proof {
                assert forall|p: ImageUpdateView| s@ == enc_image_update(p) implies false by {
                    image_update_fields_facts(p);
                }
            }
            return Err(e);
        },
    };
    let f_scene_name = field_get(&fields, "scene_name");
    let f_source_name = field_get(&fields, "source_name");
    let f_file = field_get(&fields, "file");
    let f_image_data = field_get(&fields, "image_data");
    proof {
        assert forall|p: ImageUpdateView| s@ == enc_image_update(p) implies {
            &&& f_scene_name matches Some(v) && v@ == p.scene_name
            &&& f_source_name matches Some(v) && v@ == p.source_name
            &&& f_file matches Some(v) && v@ == p.file
            &&& f_image_data matches Some(v) && v@ == enc_opt(p.image_data)
        } by {
            image_update_fields_facts(p);
        }
    }
    match (f_scene_name, f_source_name, f_file, f_image_data) {
        (Some(v_scene_name), Some(v_source_name), Some(v_file), Some(v_image_data)) => {
            let scene_name = v_scene_name.clone();
            let source_name = v_source_name.clone();
            let file = v_file.clone();
            let image_data = decode_opt_str(v_image_data.as_str())?;
            Ok(ImageUpdatePayload { scene_name, source_name, file, image_data })
        },
        _ => Err(ParseError::Malformed),
    }
}

// ---------------------------------------------------------------------------
// the filter-update record
// ---------------------------------------------------------------------------

/// The named fields of a filter update record.
pub open spec fn filter_update_fields(p: FilterUpdateView) -> Seq<(Seq<char>, Seq<char>)> {
    seq![
        (("scene_name")@, p.scene_name),
        (("scene_item_id")@, enc_i64(p.scene_item_id)),
        (("source_name")@, p.source_name),
        (("filter_name")@, p.filter_name),
        (("filter_settings")@, p.filter_settings),
    ]
}

/// The wire form of a filter update record.
pub open spec fn enc_filter_update(p: FilterUpdateView) -> Seq<char> {
    enc_record(filter_update_fields(p))
}

proof fn filter_update_fields_facts(p: FilterUpdateView)
    ensures
        wf_fields(filter_update_fields(p)),
        spec_field_get(filter_update_fields(p), ("scene_name")@) == Some(p.scene_name),
        spec_field_get(filter_update_fields(p), ("scene_item_id")@) == Some(enc_i64(p.scene_item_id)),
        spec_field_get(filter_update_fields(p), ("source_name")@) == Some(p.source_name),
        spec_field_get(filter_update_fields(p), ("filter_name")@) == Some(p.filter_name),
        spec_field_get(filter_update_fields(p), ("filter_settings")@) == Some(p.filter_settings),
{
    reveal_strlit("scene_name");
    reveal_strlit("scene_item_id");
    reveal_strlit("source_name");
    reveal_strlit("filter_name");
    reveal_strlit("filter_settings");
    assert(("scene_name")@.len() == 10);
    assert(("scene_item_id")@.len() == 13);
    assert(("source_name")@.len() == 11);
    assert(("filter_name")@.len() == 11);
    assert(("filter_settings")@.len() == 15);
    assert(("source_name")@[0] == 's');
    assert(("filter_name")@[0] == 'f');
    assert(is_token(("scene_name")@));
    assert(is_token(("scene_item_id")@));
    assert(is_token(("source_name")@));
    assert(is_token(("filter_name")@));
    assert(is_token(("filter_settings")@));
    lemma_field_get_at(filter_update_fields(p), 0);
    lemma_field_get_at(filter_update_fields(p), 1);
    lemma_field_get_at(filter_update_fields(p), 2);
    lemma_field_get_at(filter_update_fields(p), 3);
    lemma_field_get_at(filter_update_fields(p), 4);
}

pub fn encode_filter_update(p: &FilterUpdatePayload) -> (r: String)
    ensures
        r@ == enc_filter_update(p@),
{
    let mut out = String::new();
    let ghost mut fs: Seq<(Seq<char>, Seq<char>)> = Seq::empty();
    proof {
        assert(out@ =~= enc_record(fs));
    }
    push_field(&mut out, "scene_name", p.scene_name.as_str());
    proof {
        lemma_enc_record_snoc(fs, (("scene_name")@, p.scene_name@));
        fs = fs.push((("scene_name")@, p.scene_name@));
    }
    let v1 = encode_i64_str(p.scene_item_id);
    push_field(&mut out, "scene_item_id", v1.as_str());
    proof {
        lemma_enc_record_snoc(fs, (("scene_item_id")@, v1@));
        fs = fs.push((("scene_item_id")@, v1@));
    }
    push_field(&mut out, "source_name", p.source_name.as_str());
    proof {
        lemma_enc_record_snoc(fs, (("source_name")@, p.source_name@));
        fs = fs.push((("source_name")@, p.source_name@));
    }
    push_field(&mut out, "filter_name", p.filter_name.as_str());
    proof {
        lemma_enc_record_snoc(fs, (("filter_name")@, p.filter_name@));
        fs = fs.push((("filter_name")@, p.filter_name@));
    }
    push_field(&mut out, "filter_settings", p.filter_settings.as_str());
    proof {
        lemma_enc_record_snoc(fs, (("filter_settings")@, p.filter_settings@));
        fs = fs.push((("filter_settings")@, p.filter_settings@));
    }
    proof {
        assert(fs =~= filter_update_fields(p@));
    }
    out
}

pub fn decode_filter_update(s: &str) -> (r: Result<FilterUpdatePayload, ParseError>)
    ensures
        forall|p: FilterUpdateView| s@ == enc_filter_update(p) ==> (r matches Ok(d) && d@ == p),
{
    let fields = match parse_record(s) {
        Ok(f) => f,
        Err(e) => {
            proof {
                assert forall|p: FilterUpdateView| s@ == enc_filter_update(p) implies false by {
                    filter_update_fields_facts(p);
                }
            }
            return Err(e);
        },
    };
    let f_scene_name = field_get(&fields, "scene_name");
    let f_scene_item_id = field_get(&fields, "scene_item_id");
    let f_source_name = field_get(&fields, "source_name");
    let f_filter_name = field_get(&fields, "filter_name");
    let f_filter_settings = field_get(&fields, "filter_settings");
    proof {
        assert forall|p: FilterUpdateView| s@ == enc_filter_update(p) implies {
            &&& f_scene_name matches Some(v) && v@ == p.scene_name
            &&& f_scene_item_id matches Some(v) && v@ == enc_i64(p.scene_item_id)
            &&& f_source_name matches Some(v) && v@ == p.source_name
            &&& f_filter_name matches Some(v) && v@ == p.filter_name
            &&& f_filter_settings matches Some(v) && v@ == p.filter_settings
        } by {
            filter_update_fields_facts(p);
        }
    }
    match (f_scene_name, f_scene_item_id, f_source_name, f_filter_name, f_filter_settings) {
        (Some(v_scene_name), Some(v_scene_item_id), Some(v_source_name), Some(v_filter_name), Some(v_filter_settings)) => {
            let scene_name = v_scene_name.clone();
            let scene_item_id = decode_i64(v_scene_item_id.as_str())?;
            let source_name = v_source_name.clone();
            let filter_name = v_filter_name.clone();
            let filter_settings = v_filter_settings.clone();
            Ok(FilterUpdatePayload { scene_name, scene_item_id, source_name, filter_name, filter_settings })
        },
        _ => Err(ParseError::Malformed),
    }
}

// ---------------------------------------------------------------------------
// the source-update record
// ---------------------------------------------------------------------------

/// The named fields of a source update record.
pub open spec fn source_update_fields(p: SourceUpdateView) -> Seq<(Seq<char>, Seq<char>)> {
    seq![
        (("scene_name")@, p.scene_name),
        (("scene_item_id")@, enc_i64(p.scene_item_id)),
        (("source_name")@, p.source_name),
        (("action")@, action_token(p.action)),
        (("source_type")@, enc_opt(p.source_type)),
        (("scene_item_enabled")@, enc_opt_bool(p.scene_item_enabled)),
        (("transform")@, enc_opt_transform(p.transform)),
    ]
}

/// The wire form of a source update record.
pub open spec fn enc_source_update(p: SourceUpdateView) -> Seq<char> {
    enc_record(source_update_fields(p))
}

proof fn source_update_fields_facts(p: SourceUpdateView)
    ensures
        wf_fields(source_update_fields(p)),
        spec_field_get(source_update_fields(p), ("scene_name")@) == Some(p.scene_name),
        spec_field_get(source_update_fields(p), ("scene_item_id")@) == Some(enc_i64(p.scene_item_id)),
        spec_field_get(source_update_fields(p), ("source_name")@) == Some(p.source_name),
        spec_field_get(source_update_fields(p), ("action")@) == Some(action_token(p.action)),
        spec_field_get(source_update_fields(p), ("source_type")@) == Some(enc_opt(p.source_type)),
        spec_field_get(source_update_fields(p), ("scene_item_enabled")@) == Some(enc_opt_bool(p.scene_item_enabled)),
        spec_field_get(source_update_fields(p), ("transform")@) == Some(enc_opt_transform(p.transform)),
{
    reveal_strlit("scene_name");
    reveal_strlit("scene_item_id");
    reveal_strlit("source_name");
    reveal_strlit("action");
    reveal_strlit("source_type");
    reveal_strlit("scene_item_enabled");
    reveal_strlit("transform");
    assert(("scene_name")@.len() == 10);
    assert(("scene_item_id")@.len() == 13);
    assert(("source_name")@.len() == 11);
    assert(("action")@.len() == 6);
    assert(("source_type")@.len() == 11);
    assert(("scene_item_enabled")@.len() == 18);
    assert(("transform")@.len() == 9);
    assert(("source_name")@[7] == 'n');
    assert(("source_type")@[7] == 't');
    assert(is_token(("scene_name")@));
    assert(is_token(("scene_item_id")@));
    assert(is_token(("source_name")@));
    assert(is_token(("action")@));
    assert(is_token(("source_type")@));
    assert(is_token(("scene_item_enabled")@));
    assert(is_token(("transform")@));
    lemma_field_get_at(source_update_fields(p), 0);
    lemma_field_get_at(source_update_fields(p), 1);
    lemma_field_get_at(source_update_fields(p), 2);
    lemma_field_get_at(source_update_fields(p), 3);
    lemma_field_get_at(source_update_fields(p), 4);
    lemma_field_get_at(source_update_fields(p), 5);
    lemma_field_get_at(source_update_fields(p), 6);
}

pub fn encode_source_update(p: &SourceUpdatePayload) -> (r: String)
    ensures
        r@ == enc_source_update(p@),
{
    let mut out = String::new();
    let ghost mut fs: Seq<(Seq<char>, Seq<char>)> = Seq::empty();
    proof {
        assert(out@ =~= enc_record(fs));
    }
    push_field(&mut out, "scene_name", p.scene_name.as_str());
    proof {
        lemma_enc_record_snoc(fs, (("scene_name")@, p.scene_name@));
        fs = fs.push((("scene_name")@, p.scene_name@));
    }
    let v1 = encode_i64_str(p.scene_item_id);
    push_field(&mut out, "scene_item_id", v1.as_str());
    proof {
        lemma_enc_record_snoc(fs, (("scene_item_id")@, v1@));
        fs = fs.push((("scene_item_id")@, v1@));
    }
    push_field(&mut out, "source_name", p.source_name.as_str());
    proof {
        lemma_enc_record_snoc(fs, (("source_name")@, p.source_name@));
        fs = fs.push((("source_name")@, p.source_name@));
    }
    let v3 = encode_action(&p.action);
    push_field(&mut out, "action", v3);
    proof {
        lemma_enc_record_snoc(fs, (("action")@, v3@));
        fs = fs.push((("action")@, v3@));
    }
    let v4 = encode_opt_str(&p.source_type);
    push_field(&mut out, "source_type", v4.as_str());
    proof {
        lemma_enc_record_snoc(fs, (("source_type")@, v4@));
        fs = fs.push((("source_type")@, v4@));
    }
    let v5 = encode_opt_bool(&p.scene_item_enabled);
    push_field(&mut out, "scene_item_enabled", v5.as_str());
    proof {
        lemma_enc_record_snoc(fs, (("scene_item_enabled")@, v5@));
        fs = fs.push((("scene_item_enabled")@, v5@));
    }
    let v6 = encode_opt_transform(&p.transform);
    push_field(&mut out, "transform", v6.as_str());
    proof {
        lemma_enc_record_snoc(fs, (("transform")@, v6@));
        fs = fs.push((("transform")@, v6@));
    }
    proof {
        assert(fs =~= source_update_fields(p@));
    }
    out
}

pub fn decode_source_update(s: &str) -> (r: Result<SourceUpdatePayload, ParseError>)
    ensures
        forall|p: SourceUpdateView| s@ == enc_source_update(p) ==> (r matches Ok(d) && d@ == p),
{
    let fields = match parse_record(s) {
        Ok(f) => f,
        Err(e) => {
            proof {
                assert forall|p: SourceUpdateView| s@ == enc_source_update(p) implies false by {
                    source_update_fields_facts(p);
                }
            }
            return Err(e);
        },
    };
    let f_scene_name = field_get(&fields, "scene_name");
    let f_scene_item_id = field_get(&fields, "scene_item_id");
    let f_source_name = field_get(&fields, "source_name");
    let f_action = field_get(&fields, "action");
    let f_source_type = field_get(&fields, "source_type");
    let f_scene_item_enabled = field_get(&fields, "scene_item_enabled");
    let f_transform = field_get(&fields, "transform");
    proof {
        assert forall|p: SourceUpdateView| s@ == enc_source_update(p) implies {
            &&& f_scene_name matches Some(v) && v@ == p.scene_name
            &&& f_scene_item_id matches Some(v) && v@ == enc_i64(p.scene_item_id)
            &&& f_source_name matches Some(v) && v@ == p.source_name
            &&& f_action matches Some(v) && v@ == action_token(p.action)
            &&& f_source_type matches Some(v) && v@ == enc_opt(p.source_type)
            &&& f_scene_item_enabled matches Some(v) && v@ == enc_opt_bool(p.scene_item_enabled)
            &&& f_transform matches Some(v) && v@ == enc_opt_transform(p.transform)
        } by {
            source_update_fields_facts(p);
        }
    }
    match (f_scene_name, f_scene_item_id, f_source_name, f_action, f_source_type, f_scene_item_enabled, f_transform) {
        (Some(v_scene_name), Some(v_scene_item_id), Some(v_source_name), Some(v_action), Some(v_source_type), Some(v_scene_item_enabled), Some(v_transform)) => {
            let scene_name = v_scene_name.clone();
            let scene_item_id = decode_i64(v_scene_item_id.as_str())?;
            let source_name = v_source_name.clone();
            let action = decode_action(v_action.as_str())?;
            let source_type = decode_opt_str(v_source_type.as_str())?;
            let scene_item_enabled = decode_opt_bool(v_scene_item_enabled.as_str())?;
            let transform = decode_opt_transform(v_transform.as_str())?;
            Ok(SourceUpdatePayload { scene_name, scene_item_id, source_name, action, source_type, scene_item_enabled, transform })
        },
        _ => Err(ParseError::Malformed),
    }
}

// ---------------------------------------------------------------------------
// the filter-data record
// ---------------------------------------------------------------------------

/// The named fields of a filter data record.
pub open spec fn filter_data_fields(p: FilterDataView) -> Seq<(Seq<char>, Seq<char>)> {
    seq![
        (("name")@, p.name),
        (("enabled")@, enc_bool(p.enabled)),
        (("settings")@, p.settings),
    ]
}

/// The wire form of a filter data record.
pub open spec fn enc_filter_data(p: FilterDataView) -> Seq<char> {
    enc_record(filter_data_fields(p))
}

proof fn filter_data_fields_facts(p: FilterDataView)
    ensures
        wf_fields(filter_data_fields(p)),
        spec_field_get(filter_data_fields(p), ("name")@) == Some(p.name),
        spec_field_get(filter_data_fields(p), ("enabled")@) == Some(enc_bool(p.enabled)),
        spec_field_get(filter_data_fields(p), ("settings")@) == Some(p.settings),
{
    reveal_strlit("name");
    reveal_strlit("enabled");
    reveal_strlit("settings");
    assert(("name")@.len() == 4);
    assert(("enabled")@.len() == 7);
    assert(("settings")@.len() == 8);
    assert(is_token(("name")@));
    assert(is_token(("enabled")@));
    assert(is_token(("settings")@));
    lemma_field_get_at(filter_data_fields(p), 0);
    lemma_field_get_at(filter_data_fields(p), 1);
    lemma_field_get_at(filter_data_fields(p), 2);
}

pub fn encode_filter_data(p: &FilterData) -> (r: String)
    ensures
        r@ == enc_filter_data(p@),
{
    let mut out = String::new();
    let ghost mut fs: Seq<(Seq<char>, Seq<char>)> = Seq::empty();
    proof {
        assert(out@ =~= enc_record(fs));
    }
    push_field(&mut out, "name", p.name.as_str());
    proof {
        lemma_enc_record_snoc(fs, (("name")@, p.name@));
        fs = fs.push((("name")@, p.name@));
    }
    let v1 = encode_bool(p.enabled);
    push_field(&mut out, "enabled", v1);
    proof {
        lemma_enc_record_snoc(fs, (("enabled")@, v1@));
        fs = fs.push((("enabled")@, v1@));
    }
    push_field(&mut out, "settings", p.settings.as_str());
    proof {
        lemma_enc_record_snoc(fs, (("settings")@, p.settings@));
        fs = fs.push((("settings")@, p.settings@));
    }
    proof {
        assert(fs =~= filter_data_fields(p@));
    }
    out
}

pub fn decode_filter_data(s: &str) -> (r: Result<FilterData, ParseError>)
    ensures
        forall|p: FilterDataView| s@ == enc_filter_data(p) ==> (r matches Ok(d) && d@ == p),
{
    let fields = match parse_record(s) {
        Ok(f) => f,
        Err(e) => {
            proof {
                assert forall|p: FilterDataView| s@ == enc_filter_data(p) implies false by {
                    filter_data_fields_facts(p);
                }
            }
            return Err(e);
        },
    };
    let f_name = field_get(&fields, "name");
    let f_enabled = field_get(&fields, "enabled");
    let f_settings = field_get(&fields, "settings");
    proof {
        assert forall|p: FilterDataView| s@ == enc_filter_data(p) implies {
            &&& f_name matches Some(v) && v@ == p.name
            &&& f_enabled matches Some(v) && v@ == enc_bool(p.enabled)
            &&& f_settings matches Some(v) && v@ == p.settings
        } by {
            filter_data_fields_facts(p);
        }
    }
    match (f_name, f_enabled, f_settings) {
        (Some(v_name), Some(v_enabled), Some(v_settings)) => {
            let name = v_name.clone();
            let enabled = decode_bool(v_enabled.as_str())?;
            let settings = v_settings.clone();
            Ok(FilterData { name, enabled, settings })
        },
        _ => Err(ParseError::Malformed),
    }
}

// ---------------------------------------------------------------------------
// the image-data record
// ---------------------------------------------------------------------------

/// The named fields of a image data record.
pub open spec fn image_data_fields(p: ImageDataView) -> Seq<(Seq<char>, Seq<char>)> {
    seq![
        (("file")@, p.file),
        (("data")@, p.data),
    ]
}

/// The wire form of a image data record.
pub open spec fn enc_image_data(p: ImageDataView) -> Seq<char> {
    enc_record(image_data_fields(p))
}

proof fn image_data_fields_facts(p: ImageDataView)
    ensures
        wf_fields(image_data_fields(p)),
        spec_field_get(image_data_fields(p), ("file")@) == Some(p.file),
        spec_field_get(image_data_fields(p), ("data")@) == Some(p.data),
{
    reveal_strlit("file");
    reveal_strlit("data");
    assert(("file")@.len() == 4);
    assert(("data")@.len() == 4);
    assert(("file")@[0] == 'f');
    assert(("data")@[0] == 'd');
    assert(is_token(("file")@));
    assert(is_token(("data")@));
    lemma_field_get_at(image_data_fields(p), 0);
    lemma_field_get_at(image_data_fields(p), 1);
}

pub fn encode_image_data(p: &ImageData) -> (r: String)
    ensures
        r@ == enc_image_data(p@),
{
    let mut out = String::new();
    let ghost mut fs: Seq<(Seq<char>, Seq<char>)> = Seq::empty();
    proof {
        assert(out@ =~= enc_record(fs));
    }
    push_field(&mut out, "file", p.file.as_str());
    proof {
        lemma_enc_record_snoc(fs, (("file")@, p.file@));
        fs = fs.push((("file")@, p.file@));
    }
    push_field(&mut out, "data", p.data.as_str());
    proof {
        lemma_enc_record_snoc(fs, (("data")@, p.data@));
        fs = fs.push((("data")@, p.data@));
    }
    proof {
        assert(fs =~= image_data_fields(p@));
    }
    out
}

pub fn decode_image_data(s: &str) -> (r: Result<ImageData, ParseError>)
    ensures
        forall|p: ImageDataView| s@ == enc_image_data(p) ==> (r matches Ok(d) && d@ == p),
{
    let fields = match parse_record(s) {
        Ok(f) => f,
        Err(e) => {
            proof {
                assert forall|p: ImageDataView| s@ == enc_image_data(p) implies false by {
                    image_data_fields_facts(p);
                }
            }
            return Err(e);
        },
    };
    let f_file = field_get(&fields, "file");
    let f_data = field_get(&fields, "data");
    proof {
        assert forall|p: ImageDataView| s@ == enc_image_data(p) implies {
            &&& f_file matches Some(v) && v@ == p.file
            &&& f_data matches Some(v) && v@ == p.data
        } by {
            image_data_fields_facts(p);
        }
    }
    match (f_file, f_data) {
        (Some(v_file), Some(v_data)) => {
            let file = v_file.clone();
            let data = v_data.clone();
            Ok(ImageData { file, data })
        },
        _ => Err(ParseError::Malformed),
    }
}

// ---------------------------------------------------------------------------
// the state-difference record
// ---------------------------------------------------------------------------

/// The named fields of a state difference record.
pub open spec fn state_difference_fields(p: StateDifferenceView) -> Seq<(Seq<char>, Seq<char>)> {
    seq![
        (("category")@, category_token(p.category)),
        (("scene_name")@, p.scene_name),
        (("source_name")@, p.source_name),
        (("description")@, p.description),
        (("severity")@, severity_token(p.severity)),
    ]
}

/// The wire form of a state difference record.
pub open spec fn enc_state_difference(p: StateDifferenceView) -> Seq<char> {
    enc_record(state_difference_fields(p))
}

proof fn state_difference_fields_facts(p: StateDifferenceView)
    ensures
        wf_fields(state_difference_fields(p)),
        spec_field_get(state_difference_fields(p), ("category")@) == Some(category_token(p.category)),
        spec_field_get(state_difference_fields(p), ("scene_name")@) == Some(p.scene_name),
        spec_field_get(state_difference_fields(p), ("source_name")@) == Some(p.source_name),
        spec_field_get(state_difference_fields(p), ("description")@) == Some(p.description),
        spec_field_get(state_difference_fields(p), ("severity")@) == Some(severity_token(p.severity)),
{
    reveal_strlit("category");
    reveal_strlit("scene_name");
    reveal_strlit("source_name");
    reveal_strlit("description");
    reveal_strlit("severity");
    assert(("category")@.len() == 8);
    assert(("scene_name")@.len() == 10);
    assert(("source_name")@.len() == 11);
    assert(("description")@.len() == 11);
    assert(("severity")@.len() == 8);
    assert(("category")@[0] == 'c');
    assert(("severity")@[0] == 's');
    assert(("source_name")@[0] == 's');
    assert(("description")@[0] == 'd');
    assert(is_token(("category")@));
    assert(is_token(("scene_name")@));
    assert(is_token(("source_name")@));
    assert(is_token(("description")@));
    assert(is_token(("severity")@));
    lemma_field_get_at(state_difference_fields(p), 0);
    lemma_field_get_at(state_difference_fields(p), 1);
    lemma_field_get_at(state_difference_fields(p), 2);
    lemma_field_get_at(state_difference_fields(p), 3);
    lemma_field_get_at(state_difference_fields(p), 4);
}

pub fn encode_state_difference(p: &StateDifference) -> (r: String)
    ensures
        r@ == enc_state_difference(p@),
{
    let mut out = String::new();
    let ghost mut fs: Seq<(Seq<char>, Seq<char>)> = Seq::empty();
    proof {
        assert(out@ =~= enc_record(fs));
    }
    let v0 = encode_category(&p.category);
    push_field(&mut out, "category", v0);
    proof {
        lemma_enc_record_snoc(fs, (("category")@, v0@));
        fs = fs.push((("category")@, v0@));
    }
    push_field(&mut out, "scene_name", p.scene_name.as_str());
    proof {
        lemma_enc_record_snoc(fs, (("scene_name")@, p.scene_name@));
        fs = fs.push((("scene_name")@, p.scene_name@));
    }
    push_field(&mut out, "source_name", p.source_name.as_str());
    proof {
        lemma_enc_record_snoc(fs, (("source_name")@, p.source_name@));
        fs = fs.push((("source_name")@, p.source_name@));
    }
    push_field(&mut out, "description", p.description.as_str());
    proof {
        lemma_enc_record_snoc(fs, (("description")@, p.description@));
        fs = fs.push((("description")@, p.description@));
    }
    let v4 = encode_severity(&p.severity);
    push_field(&mut out, "severity", v4);
    proof {
        lemma_enc_record_snoc(fs, (("severity")@, v4@));
        fs = fs.push((("severity")@, v4@));
    }
    proof {
        assert(fs =~= state_difference_fields(p@));
    }
    out
}

pub fn decode_state_difference(s: &str) -> (r: Result<StateDifference, ParseError>)
    ensures
        forall|p: StateDifferenceView| s@ == enc_state_difference(p) ==> (r matches Ok(d) && d@ == p),
{
    let fields = match parse_record(s) {
        Ok(f) => f,
        Err(e) => {
            proof {
                assert forall|p: StateDifferenceView| s@ == enc_state_difference(p) implies false by {
                    state_difference_fields_facts(p);
                }
            }
            return Err(e);
        },
    };
    let f_category = field_get(&fields, "category");
    let f_scene_name = field_get(&fields, "scene_name");
    let f_source_name = field_get(&fields, "source_name");
    let f_description = field_get(&fields, "description");
    let f_severity = field_get(&fields, "severity");
    proof {
        assert forall|p: StateDifferenceView| s@ == enc_state_difference(p) implies {
            &&& f_category matches Some(v) && v@ == category_token(p.category)
            &&& f_scene_name matches Some(v) && v@ == p.scene_name
            &&& f_source_name matches Some(v) && v@ == p.source_name
            &&& f_description matches Some(v) && v@ == p.description
            &&& f_severity matches Some(v) && v@ == severity_token(p.severity)
        } by {
            state_difference_fields_facts(p);
        }
    }
    match (f_category, f_scene_name, f_source_name, f_description, f_severity) {
        (Some(v_category), Some(v_scene_name), Some(v_source_name), Some(v_description), Some(v_severity)) => {
            let category = decode_category(v_category.as_str())?;
            let scene_name = v_scene_name.clone();
            let source_name = v_source_name.clone();
            let description = v_description.clone();
            let severity = decode_severity(v_severity.as_str())?;
            Ok(StateDifference { category, scene_name, source_name, description, severity })
        },
        _ => Err(ParseError::Malformed),
    }
}

// ---------------------------------------------------------------------------
// the local-source record
// ---------------------------------------------------------------------------

/// The named fields of a local source record.
pub open spec fn local_source_fields(p: LocalSourceStateView) -> Seq<(Seq<char>, Seq<char>)> {
    seq![
        (("name")@, p.name),
        (("transform")@, enc_opt_transform(p.transform)),
    ]
}

/// The wire form of a local source record.
pub open spec fn enc_local_source(p: LocalSourceStateView) -> Seq<char> {
    enc_record(local_source_fields(p))
}

proof fn local_source_fields_facts(p: LocalSourceStateView)
    ensures
        wf_fields(local_source_fields(p)),
        spec_field_get(local_source_fields(p), ("name")@) == Some(p.name),
        spec_field_get(local_source_fields(p), ("transform")@) == Some(enc_opt_transform(p.transform)),
{
    reveal_strlit("name");
    reveal_strlit("transform");
    assert(("name")@.len() == 4);
    assert(("transform")@.len() == 9);
    assert(is_token(("name")@));
    assert(is_token(("transform")@));
    lemma_field_get_at(local_source_fields(p), 0);
    lemma_field_get_at(local_source_fields(p), 1);
}

pub fn encode_local_source(p: &LocalSourceState) -> (r: String)
    ensures
        r@ == enc_local_source(p@),
{
    let mut out = String::new();
    let ghost mut fs: Seq<(Seq<char>, Seq<char>)> = Seq::empty();
    proof {
        assert(out@ =~= enc_record(fs));
    }
    push_field(&mut out, "name", p.name.as_str());
    proof {
        lemma_enc_record_snoc(fs, (("name")@, p.name@));
        fs = fs.push((("name")@, p.name@));
    }
    let v1 = encode_opt_transform(&p.transform);
    push_field(&mut out, "transform", v1.as_str());
    proof {
        lemma_enc_record_snoc(fs, (("transform")@, v1@));
        fs = fs.push((("transform")@, v1@));
    }
    proof {
        assert(fs =~= local_source_fields(p@));
    }
    out
}

pub fn decode_local_source(s: &str) -> (r: Result<LocalSourceState, ParseError>)
    ensures
        forall|p: LocalSourceStateView| s@ == enc_local_source(p) ==> (r matches Ok(d) && d@ == p),
{
    let fields = match parse_record(s) {
        Ok(f) => f,
        Err(e) => {
            proof {
                assert forall|p: LocalSourceStateView| s@ == enc_local_source(p) implies false by {
                    local_source_fields_facts(p);
                }
            }
            return Err(e);
        },
    };
    let f_name = field_get(&fields, "name");
    let f_transform = field_get(&fields, "transform");
    proof {
        assert forall|p: LocalSourceStateView| s@ == enc_local_source(p) implies {
            &&& f_name matches Some(v) && v@ == p.name
            &&& f_transform matches Some(v) && v@ == enc_opt_transform(p.transform)
        } by {
            local_source_fields_facts(p);
        }
    }
    match (f_name, f_transform) {
        (Some(v_name), Some(v_transform)) => {
            let name = v_name.clone();
            let transform = decode_opt_transform(v_transform.as_str())?;
            Ok(LocalSourceState { name, transform })
        },
        _ => Err(ParseError::Malformed),
    }
}

// ---------------------------------------------------------------------------
// optional image content
// ---------------------------------------------------------------------------

/// The wire form of optional inlined image content.
pub open spec fn enc_opt_image(o: Option<ImageDataView>) -> Seq<char> {
    match o {
        None => enc_opt(None),
        Some(d) => enc_opt(Some(enc_image_data(d))),
    }
}

pub fn encode_opt_image(o: &Option<ImageData>) -> (r: String)
    ensures
        r@ == enc_opt_image(
            match o {
                Some(d) => Some(d@),
                None => None,
            },
        ),
{
    match o {
        None => {
            proof {
                reveal_strlit("N");
                assert(("N")@ =~= seq!['N']);
            }
            String::from_str("N")
        },
        Some(d) => {
            let mut out = String::from_str("S");
            proof {
                reveal_strlit("S");
                assert(out@ =~= seq!['S']);
            }
            let body = encode_image_data(d);
            out.append(body.as_str());
            proof {
                assert(out@ =~= enc_opt_image(Some(d@)));
            }
            out
        },
    }
}

pub fn decode_opt_image(s: &str) -> (r: Result<Option<ImageData>, ParseError>)
    ensures
        forall|o: Option<ImageDataView>|
            s@ == enc_opt_image(o) ==> (r matches Ok(v) && (v is Some == o is Some) && (
            o matches Some(x) ==> v.unwrap()@ == x)),
{
    match decode_opt_str(s) {
        Ok(None) => {
            proof {
                assert forall|o: Option<ImageDataView>| s@ == enc_opt_image(o) implies o
                    is None by {
                    assert(enc_opt_image(o) == enc_opt(match o {
                        None => None,
                        Some(d) => Some(enc_image_data(d)),
                    }));
                }
            }
            Ok(None)
        },
        Ok(Some(body)) => {
            match decode_image_data(body.as_str()) {
                Ok(d) => {
                    proof {
                        assert forall|o: Option<ImageDataView>| s@ == enc_opt_image(o) implies (o
                            is Some && d@ == o.unwrap()) by {
                            assert(enc_opt_image(o) == enc_opt(match o {
                                None => None,
                                Some(dd) => Some(enc_image_data(dd)),
                            }));
                            assert(body@ == enc_image_data(o.unwrap()));
                        }
                    }
                    Ok(Some(d))
                },
                Err(e) => {
                    proof {
                        assert forall|o: Option<ImageDataView>| s@ == enc_opt_image(o)
                            implies false by {
                            assert(enc_opt_image(o) == enc_opt(match o {
                                None => None,
                                Some(dd) => Some(enc_image_data(dd)),
                            }));
                            assert(body@ == enc_image_data(o.unwrap()));
                        }
                    }
                    Err(e)
                },
            }
        },
        Err(e) => {
            proof {
                assert forall|o: Option<ImageDataView>| s@ == enc_opt_image(o) implies false by {
                    assert(enc_opt_image(o) == enc_opt(match o {
                        None => None,
                        Some(dd) => Some(enc_image_data(dd)),
                    }));
                }
            }
            Err(e)
        },
    }
}

// ---------------------------------------------------------------------------
// lists of filters
// ---------------------------------------------------------------------------

/// The wire form of each element of a filters list.
pub open spec fn filters_enc(xs: Seq<FilterDataView>) -> Seq<Seq<char>> {
    Seq::new(xs.len(), |i: int| enc_filter_data(xs[i]))
}

#[verifier::rlimit(50)]
pub fn encode_filters(v: &Vec<FilterData>) -> (r: String)
    ensures
        r@ == enc_list(filters_enc(views_of(v@))),
{
    let mut elems: Vec<String> = Vec::new();
    let mut i: usize = 0;
    while i < v.len()
        invariant
            0 <= i <= v@.len(),
            strs_view(elems@) =~= filters_enc(views_of(v@)).take(i as int),
        decreases v@.len() - i,
    {
        let e = encode_filter_data(&v[i]);
        elems.push(e);
        proof {
            assert(filters_enc(views_of(v@)).take(i + 1) =~= filters_enc(views_of(v@)).take(
                i as int,
            ).push(filters_enc(views_of(v@))[i as int]));
            assert(strs_view(elems@) =~= filters_enc(views_of(v@)).take(i + 1));
        }
        i += 1;
    }
    proof {
        assert(filters_enc(views_of(v@)).take(v@.len() as int) =~= filters_enc(views_of(v@)));
    }
    encode_list(&elems)
}

#[verifier::rlimit(50)]
fn decode_filters_from(blobs: &Vec<String>, i: usize, out: &mut Vec<FilterData>) -> (r: Result<
    (),
    ParseError,
>)
    requires
        i <= blobs@.len(),
    ensures
        forall|xs: Seq<FilterDataView>|
            #![trigger filters_enc(xs)]
            strs_view(blobs@) == filters_enc(xs) ==> (r is Ok && views_of(final(out)@) == views_of(
                old(out)@,
            ) + xs.skip(i as int)),
    decreases blobs@.len() - i,
{
    if i == blobs.len() {
        proof {
            assert forall|xs: Seq<FilterDataView>| strs_view(blobs@) == filters_enc(xs) implies views_of(out@)
                == views_of(out@) + xs.skip(i as int) by {
                assert(xs.len() == filters_enc(xs).len());
                assert(strs_view(blobs@).len() == blobs@.len());
                assert(xs.skip(i as int) =~= Seq::<FilterDataView>::empty());
                assert(views_of(out@) + xs.skip(i as int) =~= views_of(out@));
            }
        }
        return Ok(());
    }
    match decode_filter_data(blobs[i].as_str()) {
        Ok(d) => {
            out.push(d);
            let ghost mid = out@;
            let r = decode_filters_from(blobs, i + 1, out);
            proof {
                assert forall|xs: Seq<FilterDataView>| strs_view(blobs@) == filters_enc(xs) implies (r is Ok
                    && views_of(final(out)@) == views_of(old(out)@) + xs.skip(i as int)) by {
                    assert(xs.len() == filters_enc(xs).len());
                    assert(strs_view(blobs@).len() == blobs@.len());
                    assert(blobs@[i as int]@ == strs_view(blobs@)[i as int]);
                    assert(filters_enc(xs)[i as int] == enc_filter_data(xs[i as int]));
                    assert(views_of(mid) =~= views_of(old(out)@).push(d@));
                    assert(xs.skip(i as int) =~= seq![xs[i as int]] + xs.skip(i + 1));
                    assert(views_of(final(out)@) =~= views_of(old(out)@) + xs.skip(i as int));
                }
            }
            r
        },
        Err(e) => {
            proof {
                assert forall|xs: Seq<FilterDataView>| strs_view(blobs@) == filters_enc(xs) implies false by {
                    assert(xs.len() == filters_enc(xs).len());
                    assert(strs_view(blobs@).len() == blobs@.len());
                    assert(blobs@[i as int]@ == strs_view(blobs@)[i as int]);
                    assert(filters_enc(xs)[i as int] == enc_filter_data(xs[i as int]));
                }
            }
            Err(e)
        },
    }
}

pub fn decode_filters(s: &str) -> (r: Result<Vec<FilterData>, ParseError>)
    ensures
        forall|xs: Seq<FilterDataView>|
            #![trigger filters_enc(xs)]
            s@ == enc_list(filters_enc(xs)) ==> (r matches Ok(v) && views_of(v@) == xs),
{
    let blobs = match parse_list(s) {
        Ok(b) => b,
        Err(e) => {
            return Err(e);
        },
    };
    let mut out: Vec<FilterData> = Vec::new();
    match decode_filters_from(&blobs, 0, &mut out) {
        Ok(()) => {
            proof {
                assert forall|xs: Seq<FilterDataView>| s@ == enc_list(filters_enc(xs)) implies views_of(out@)
                    == xs by {
                    assert(xs.skip(0) =~= xs);
                    assert(views_of(Seq::<FilterData>::empty()) + xs =~= xs);
                }
            }
            Ok(out)
        },
        Err(e) => {
            Err(e)
        },
    }
}

// ---------------------------------------------------------------------------
// lists of items
// ---------------------------------------------------------------------------

/// The wire form of each element of a items list.
pub open spec fn items_enc(xs: Seq<SceneItemDataView>) -> Seq<Seq<char>> {
    Seq::new(xs.len(), |i: int| enc_scene_item(xs[i]))
}

#[verifier::rlimit(50)]
pub fn encode_items(v: &Vec<SceneItemData>) -> (r: String)
    ensures
        r@ == enc_list(items_enc(views_of(v@))),
{
    let mut elems: Vec<String> = Vec::new();
    let mut i: usize = 0;
    while i < v.len()
        invariant
            0 <= i <= v@.len(),
            strs_view(elems@) =~= items_enc(views_of(v@)).take(i as int),
        decreases v@.len() - i,
    {
        let e = encode_scene_item(&v[i]);
        elems.push(e);
        proof {
            assert(items_enc(views_of(v@)).take(i + 1) =~= items_enc(views_of(v@)).take(
                i as int,
            ).push(items_enc(views_of(v@))[i as int]));
            assert(strs_view(elems@) =~= items_enc(views_of(v@)).take(i + 1));
        }
        i += 1;
    }
    proof {
        assert(items_enc(views_of(v@)).take(v@.len() as int) =~= items_enc(views_of(v@)));
    }
    encode_list(&elems)
}

#[verifier::rlimit(50)]
fn decode_items_from(blobs: &Vec<String>, i: usize, out: &mut Vec<SceneItemData>) -> (r: Result<
    (),
    ParseError,
>)
    requires
        i <= blobs@.len(),
    ensures
        forall|xs: Seq<SceneItemDataView>|
            #![trigger items_enc(xs)]
            strs_view(blobs@) == items_enc(xs) ==> (r is Ok && views_of(final(out)@) == views_of(
                old(out)@,
            ) + xs.skip(i as int)),
    decreases blobs@.len() - i,
{
    if i == blobs.len() {
        proof {
            assert forall|xs: Seq<SceneItemDataView>| strs_view(blobs@) == items_enc(xs) implies views_of(out@)
                == views_of(out@) + xs.skip(i as int) by {
                assert(xs.len() == items_enc(xs).len());
                assert(strs_view(blobs@).len() == blobs@.len());
                assert(xs.skip(i as int) =~= Seq::<SceneItemDataView>::empty());
                assert(views_of(out@) + xs.skip(i as int) =~= views_of(out@));
            }
        }
        return Ok(());
    }
    match decode_scene_item(blobs[i].as_str()) {
        Ok(d) => {
            out.push(d);
            let ghost mid = out@;
            let r = decode_items_from(blobs, i + 1, out);
            proof {
                assert forall|xs: Seq<SceneItemDataView>| strs_view(blobs@) == items_enc(xs) implies (r is Ok
                    && views_of(final(out)@) == views_of(old(out)@) + xs.skip(i as int)) by {
                    assert(xs.len() == items_enc(xs).len());
                    assert(strs_view(blobs@).len() == blobs@.len());
                    assert(blobs@[i as int]@ == strs_view(blobs@)[i as int]);
                    assert(items_enc(xs)[i as int] == enc_scene_item(xs[i as int]));
                    assert(views_of(mid) =~= views_of(old(out)@).push(d@));
                    assert(xs.skip(i as int) =~= seq![xs[i as int]] + xs.skip(i + 1));
                    assert(views_of(final(out)@) =~= views_of(old(out)@) + xs.skip(i as int));
                }
            }
            r
        },
        Err(e) => {
            proof {
                assert forall|xs: Seq<SceneItemDataView>| strs_view(blobs@) == items_enc(xs) implies false by {
                    assert(xs.len() == items_enc(xs).len());
                    assert(strs_view(blobs@).len() == blobs@.len());
                    assert(blobs@[i as int]@ == strs_view(blobs@)[i as int]);
                    assert(items_enc(xs)[i as int] == enc_scene_item(xs[i as int]));
                }
            }
            Err(e)
        },
    }
}

pub fn decode_items(s: &str) -> (r: Result<Vec<SceneItemData>, ParseError>)
    ensures
        forall|xs: Seq<SceneItemDataView>|
            #![trigger items_enc(xs)]
            s@ == enc_list(items_enc(xs)) ==> (r matches Ok(v) && views_of(v@) == xs),
{
    let blobs = match parse_list(s) {
        Ok(b) => b,
        Err(e) => {
            return Err(e);
        },
    };
    let mut out: Vec<SceneItemData> = Vec::new();
    match decode_items_from(&blobs, 0, &mut out) {
        Ok(()) => {
            proof {
                assert forall|xs: Seq<SceneItemDataView>| s@ == enc_list(items_enc(xs)) implies views_of(out@)
                    == xs by {
                    assert(xs.skip(0) =~= xs);
                    assert(views_of(Seq::<SceneItemData>::empty()) + xs =~= xs);
                }
            }
            Ok(out)
        },
        Err(e) => {
            Err(e)
        },
    }
}

// ---------------------------------------------------------------------------
// lists of scenes
// ---------------------------------------------------------------------------

/// The wire form of each element of a scenes list.
pub open spec fn scenes_enc(xs: Seq<SceneDataView>) -> Seq<Seq<char>> {
    Seq::new(xs.len(), |i: int| enc_scene(xs[i]))
}

#[verifier::rlimit(50)]
pub fn encode_scenes(v: &Vec<SceneData>) -> (r: String)
    ensures
        r@ == enc_list(scenes_enc(views_of(v@))),
{
    let mut elems: Vec<String> = Vec::new();
    let mut i: usize = 0;
    while i < v.len()
        invariant
            0 <= i <= v@.len(),
            strs_view(elems@) =~= scenes_enc(views_of(v@)).take(i as int),
        decreases v@.len() - i,
    {
        let e = encode_scene(&v[i]);
        elems.push(e);
        proof {
            assert(scenes_enc(views_of(v@)).take(i + 1) =~= scenes_enc(views_of(v@)).take(
                i as int,
            ).push(scenes_enc(views_of(v@))[i as int]));
            assert(strs_view(elems@) =~= scenes_enc(views_of(v@)).take(i + 1));
        }
        i += 1;
    }
    proof {
        assert(scenes_enc(views_of(v@)).take(v@.len() as int) =~= scenes_enc(views_of(v@)));
    }
    encode_list(&elems)
}

#[verifier::rlimit(50)]
fn decode_scenes_from(blobs: &Vec<String>, i: usize, out: &mut Vec<SceneData>) -> (r: Result<
    (),
    ParseError,
>)
    requires
        i <= blobs@.len(),
    ensures
        forall|xs: Seq<SceneDataView>|
            #![trigger scenes_enc(xs)]
            strs_view(blobs@) == scenes_enc(xs) ==> (r is Ok && views_of(final(out)@) == views_of(
                old(out)@,
            ) + xs.skip(i as int)),
    decreases blobs@.len() - i,
{
    if i == blobs.len() {
        proof {
            assert forall|xs: Seq<SceneDataView>| strs_view(blobs@) == scenes_enc(xs) implies views_of(out@)
                == views_of(out@) + xs.skip(i as int) by {
                assert(xs.len() == scenes_enc(xs).len());
                assert(strs_view(blobs@).len() == blobs@.len());
                assert(xs.skip(i as int) =~= Seq::<SceneDataView>::empty());
                assert(views_of(out@) + xs.skip(i as int) =~= views_of(out@));
            }
        }
        return Ok(());
    }
    match decode_scene(blobs[i].as_str()) {
        Ok(d) => {
            out.push(d);
            let ghost mid = out@;
            let r = decode_scenes_from(blobs, i + 1, out);
            proof {
                assert forall|xs: Seq<SceneDataView>| strs_view(blobs@) == scenes_enc(xs) implies (r is Ok
                    && views_of(final(out)@) == views_of(old(out)@) + xs.skip(i as int)) by {
                    assert(xs.len() == scenes_enc(xs).len());
                    assert(strs_view(blobs@).len() == blobs@.len());
                    assert(blobs@[i as int]@ == strs_view(blobs@)[i as int]);
                    assert(scenes_enc(xs)[i as int] == enc_scene(xs[i as int]));
                    assert(views_of(mid) =~= views_of(old(out)@).push(d@));
                    assert(xs.skip(i as int) =~= seq![xs[i as int]] + xs.skip(i + 1));
                    assert(views_of(final(out)@) =~= views_of(old(out)@) + xs.skip(i as int));
                }
            }
            r
        },
        Err(e) => {
            proof {
                assert forall|xs: Seq<SceneDataView>| strs_view(blobs@) == scenes_enc(xs) implies false by {
                    assert(xs.len() == scenes_enc(xs).len());
                    assert(strs_view(blobs@).len() == blobs@.len());
                    assert(blobs@[i as int]@ == strs_view(blobs@)[i as int]);
                    assert(scenes_enc(xs)[i as int] == enc_scene(xs[i as int]));
                }
            }
            Err(e)
        },
    }
}

pub fn decode_scenes(s: &str) -> (r: Result<Vec<SceneData>, ParseError>)
    ensures
        forall|xs: Seq<SceneDataView>|
            #![trigger scenes_enc(xs)]
            s@ == enc_list(scenes_enc(xs)) ==> (r matches Ok(v) && views_of(v@) == xs),
{
    let blobs = match parse_list(s) {
        Ok(b) => b,
        Err(e) => {
            return Err(e);
        },
    };
    let mut out: Vec<SceneData> = Vec::new();
    match decode_scenes_from(&blobs, 0, &mut out) {
        Ok(()) => {
            proof {
                assert forall|xs: Seq<SceneDataView>| s@ == enc_list(scenes_enc(xs)) implies views_of(out@)
                    == xs by {
                    assert(xs.skip(0) =~= xs);
                    assert(views_of(Seq::<SceneData>::empty()) + xs =~= xs);
                }
            }
            Ok(out)
        },
        Err(e) => {
            Err(e)
        },
    }
}

// ---------------------------------------------------------------------------
// lists of diffs
// ---------------------------------------------------------------------------

/// The wire form of each element of a diffs list.
pub open spec fn diffs_enc(xs: Seq<StateDifferenceView>) -> Seq<Seq<char>> {
    Seq::new(xs.len(), |i: int| enc_state_difference(xs[i]))
}

#[verifier::rlimit(50)]
pub fn encode_diffs(v: &Vec<StateDifference>) -> (r: String)
    ensures
        r@ == enc_list(diffs_enc(views_of(v@))),
{
    let mut elems: Vec<String> = Vec::new();
    let mut i: usize = 0;
    while i < v.len()
        invariant
            0 <= i <= v@.len(),
            strs_view(elems@) =~= diffs_enc(views_of(v@)).take(i as int),
        decreases v@.len() - i,
    {
        let e = encode_state_difference(&v[i]);
        elems.push(e);
        proof {
            assert(diffs_enc(views_of(v@)).take(i + 1) =~= diffs_enc(views_of(v@)).take(
                i as int,
            ).push(diffs_enc(views_of(v@))[i as int]));
            assert(strs_view(elems@) =~= diffs_enc(views_of(v@)).take(i + 1));
        }
        i += 1;
    }
    proof {
        assert(diffs_enc(views_of(v@)).take(v@.len() as int) =~= diffs_enc(views_of(v@)));
    }
    encode_list(&elems)
}

#[verifier::rlimit(50)]
fn decode_diffs_from(blobs: &Vec<String>, i: usize, out: &mut Vec<StateDifference>) -> (r: Result<
    (),
    ParseError,
>)
    requires
        i <= blobs@.len(),
    ensures
        forall|xs: Seq<StateDifferenceView>|
            #![trigger diffs_enc(xs)]
            strs_view(blobs@) == diffs_enc(xs) ==> (r is Ok && views_of(final(out)@) == views_of(
                old(out)@,
            ) + xs.skip(i as int)),
    decreases blobs@.len() - i,
{
    if i == blobs.len() {
        proof {
            assert forall|xs: Seq<StateDifferenceView>| strs_view(blobs@) == diffs_enc(xs) implies views_of(out@)
                == views_of(out@) + xs.skip(i as int) by {
                assert(xs.len() == diffs_enc(xs).len());
                assert(strs_view(blobs@).len() == blobs@.len());
                assert(xs.skip(i as int) =~= Seq::<StateDifferenceView>::empty());
                assert(views_of(out@) + xs.skip(i as int) =~= views_of(out@));
            }
        }
        return Ok(());
    }
    match decode_state_difference(blobs[i].as_str()) {
        Ok(d) => {
            out.push(d);
            let ghost mid = out@;
            let r = decode_diffs_from(blobs, i + 1, out);
            proof {
                assert forall|xs: Seq<StateDifferenceView>| strs_view(blobs@) == diffs_enc(xs) implies (r is Ok
                    && views_of(final(out)@) == views_of(old(out)@) + xs.skip(i as int)) by {
                    assert(xs.len() == diffs_enc(xs).len());
                    assert(strs_view(blobs@).len() == blobs@.len());
                    assert(blobs@[i as int]@ == strs_view(blobs@)[i as int]);
                    assert(diffs_enc(xs)[i as int] == enc_state_difference(xs[i as int]));
                    assert(views_of(mid) =~= views_of(old(out)@).push(d@));
                    assert(xs.skip(i as int) =~= seq![xs[i as int]] + xs.skip(i + 1));
                    assert(views_of(final(out)@) =~= views_of(old(out)@) + xs.skip(i as int));
                }
            }
            r
        },
        Err(e) => {
            proof {
                assert forall|xs: Seq<StateDifferenceView>| strs_view(blobs@) == diffs_enc(xs) implies false by {
                    assert(xs.len() == diffs_enc(xs).len());
                    assert(strs_view(blobs@).len() == blobs@.len());
                    assert(blobs@[i as int]@ == strs_view(blobs@)[i as int]);
                    assert(diffs_enc(xs)[i as int] == enc_state_difference(xs[i as int]));
                }
            }
            Err(e)
        },
    }
}

pub fn decode_diffs(s: &str) -> (r: Result<Vec<StateDifference>, ParseError>)
    ensures
        forall|xs: Seq<StateDifferenceView>|
            #![trigger diffs_enc(xs)]
            s@ == enc_list(diffs_enc(xs)) ==> (r matches Ok(v) && views_of(v@) == xs),
{
    let blobs = match parse_list(s) {
        Ok(b) => b,
        Err(e) => {
            return Err(e);
        },
    };
    let mut out: Vec<StateDifference> = Vec::new();
    match decode_diffs_from(&blobs, 0, &mut out) {
        Ok(()) => {
            proof {
                assert forall|xs: Seq<StateDifferenceView>| s@ == enc_list(diffs_enc(xs)) implies views_of(out@)
                    == xs by {
                    assert(xs.skip(0) =~= xs);
                    assert(views_of(Seq::<StateDifference>::empty()) + xs =~= xs);
                }
            }
            Ok(out)
        },
        Err(e) => {
            Err(e)
        },
    }
}

// ---------------------------------------------------------------------------
// lists of local sources
// ---------------------------------------------------------------------------

/// The wire form of each element of a local sources list.
pub open spec fn sources_enc(xs: Seq<LocalSourceStateView>) -> Seq<Seq<char>> {
    Seq::new(xs.len(), |i: int| enc_local_source(xs[i]))
}

#[verifier::rlimit(50)]
pub fn encode_local_sources(v: &Vec<LocalSourceState>) -> (r: String)
    ensures
        r@ == enc_list(sources_enc(views_of(v@))),
{
    let mut elems: Vec<String> = Vec::new();
    let mut i: usize = 0;
    while i < v.len()
        invariant
            0 <= i <= v@.len(),
            strs_view(elems@) =~= sources_enc(views_of(v@)).take(i as int),
        decreases v@.len() - i,
    {
        let e = encode_local_source(&v[i]);
        elems.push(e);
        proof {
            assert(sources_enc(views_of(v@)).take(i + 1) =~= sources_enc(views_of(v@)).take(
                i as int,
            ).push(sources_enc(views_of(v@))[i as int]));
            assert(strs_view(elems@) =~= sources_enc(views_of(v@)).take(i + 1));
        }
        i += 1;
    }
    proof {
        assert(sources_enc(views_of(v@)).take(v@.len() as int) =~= sources_enc(views_of(v@)));
    }
    encode_list(&elems)
}

#[verifier::rlimit(50)]
fn decode_local_sources_from(blobs: &Vec<String>, i: usize, out: &mut Vec<LocalSourceState>) -> (r: Result<
    (),
    ParseError,
>)
    requires
        i <= blobs@.len(),
    ensures
        forall|xs: Seq<LocalSourceStateView>|
            #![trigger sources_enc(xs)]
            strs_view(blobs@) == sources_enc(xs) ==> (r is Ok && views_of(final(out)@) == views_of(
                old(out)@,
            ) + xs.skip(i as int)),
    decreases blobs@.len() - i,
{
    if i == blobs.len() {
        proof {
            assert forall|xs: Seq<LocalSourceStateView>| strs_view(blobs@) == sources_enc(xs) implies views_of(out@)
                == views_of(out@) + xs.skip(i as int) by {
                assert(xs.len() == sources_enc(xs).len());
                assert(strs_view(blobs@).len() == blobs@.len());
                assert(xs.skip(i as int) =~= Seq::<LocalSourceStateView>::empty());
                assert(views_of(out@) + xs.skip(i as int) =~= views_of(out@));
            }
        }
        return Ok(());
    }
    match decode_local_source(blobs[i].as_str()) {
        Ok(d) => {
            out.push(d);
            let ghost mid = out@;
            let r = decode_local_sources_from(blobs, i + 1, out);
            proof {
                assert forall|xs: Seq<LocalSourceStateView>| strs_view(blobs@) == sources_enc(xs) implies (r is Ok
                    && views_of(final(out)@) == views_of(old(out)@) + xs.skip(i as int)) by {
                    assert(xs.len() == sources_enc(xs).len());
                    assert(strs_view(blobs@).len() == blobs@.len());
                    assert(blobs@[i as int]@ == strs_view(blobs@)[i as int]);
                    assert(sources_enc(xs)[i as int] == enc_local_source(xs[i as int]));
                    assert(views_of(mid) =~= views_of(old(out)@).push(d@));
                    assert(xs.skip(i as int) =~= seq![xs[i as int]] + xs.skip(i + 1));
                    assert(views_of(final(out)@) =~= views_of(old(out)@) + xs.skip(i as int));
                }
            }
            r
        },
        Err(e) => {
            proof {
                assert forall|xs: Seq<LocalSourceStateView>| strs_view(blobs@) == sources_enc(xs) implies false by {
                    assert(xs.len() == sources_enc(xs).len());
                    assert(strs_view(blobs@).len() == blobs@.len());
                    assert(blobs@[i as int]@ == strs_view(blobs@)[i as int]);
                    assert(sources_enc(xs)[i as int] == enc_local_source(xs[i as int]));
                }
            }
            Err(e)
        },
    }
}

pub fn decode_local_sources(s: &str) -> (r: Result<Vec<LocalSourceState>, ParseError>)
    ensures
        forall|xs: Seq<LocalSourceStateView>|
            #![trigger sources_enc(xs)]
            s@ == enc_list(sources_enc(xs)) ==> (r matches Ok(v) && views_of(v@) == xs),
{
    let blobs = match parse_list(s) {
        Ok(b) => b,
        Err(e) => {
            return Err(e);
        },
    };
    let mut out: Vec<LocalSourceState> = Vec::new();
    match decode_local_sources_from(&blobs, 0, &mut out) {
        Ok(()) => {
            proof {
                assert forall|xs: Seq<LocalSourceStateView>| s@ == enc_list(sources_enc(xs)) implies views_of(out@)
                    == xs by {
                    assert(xs.skip(0) =~= xs);
                    assert(views_of(Seq::<LocalSourceState>::empty()) + xs =~= xs);
                }
            }
            Ok(out)
        },
        Err(e) => {
            Err(e)
        },
    }
}

// ---------------------------------------------------------------------------
// the scene-item record
// ---------------------------------------------------------------------------

/// The named fields of a scene item record.
pub open spec fn scene_item_fields(p: SceneItemDataView) -> Seq<(Seq<char>, Seq<char>)> {
    seq![
        (("source_name")@, p.source_name),
        (("scene_item_id")@, enc_i64(p.scene_item_id)),
        (("source_type")@, p.source_type),
        (("transform")@, enc_opt_transform(p.transform)),
        (("image_data")@, enc_opt_image(p.image_data)),
        (("filters")@, enc_list(filters_enc(p.filters))),
    ]
}

/// The wire form of a scene item record.
pub open spec fn enc_scene_item(p: SceneItemDataView) -> Seq<char> {
    enc_record(scene_item_fields(p))
}

proof fn scene_item_fields_facts(p: SceneItemDataView)
    ensures
        wf_fields(scene_item_fields(p)),
        spec_field_get(scene_item_fields(p), ("source_name")@) == Some(p.source_name),
        spec_field_get(scene_item_fields(p), ("scene_item_id")@) == Some(enc_i64(p.scene_item_id)),
        spec_field_get(scene_item_fields(p), ("source_type")@) == Some(p.source_type),
        spec_field_get(scene_item_fields(p), ("transform")@) == Some(enc_opt_transform(p.transform)),
        spec_field_get(scene_item_fields(p), ("image_data")@) == Some(enc_opt_image(p.image_data)),
        spec_field_get(scene_item_fields(p), ("filters")@) == Some(enc_list(filters_enc(p.filters))),
{
    reveal_strlit("source_name");
    reveal_strlit("scene_item_id");
    reveal_strlit("source_type");
    reveal_strlit("transform");
    reveal_strlit("image_data");
    reveal_strlit("filters");
    assert(("source_name")@.len() == 11);
    assert(("scene_item_id")@.len() == 13);
    assert(("source_type")@.len() == 11);
    assert(("transform")@.len() == 9);
    assert(("image_data")@.len() == 10);
    assert(("filters")@.len() == 7);
    assert(("source_name")@[7] == 'n');
    assert(("source_type")@[7] == 't');
    assert(("scene_item_id")@[0] == 's');
    assert(("image_data")@[0] == 'i');
    assert(("source_name")@[0] == 's');
    assert(is_token(("source_name")@));
    assert(is_token(("scene_item_id")@));
    assert(is_token(("source_type")@));
    assert(is_token(("transform")@));
    assert(is_token(("image_data")@));
    assert(is_token(("filters")@));
    lemma_field_get_at(scene_item_fields(p), 0);
    lemma_field_get_at(scene_item_fields(p), 1);
    lemma_field_get_at(scene_item_fields(p), 2);
    lemma_field_get_at(scene_item_fields(p), 3);
    lemma_field_get_at(scene_item_fields(p), 4);
    lemma_field_get_at(scene_item_fields(p), 5);
}

pub fn encode_scene_item(p: &SceneItemData) -> (r: String)
    ensures
        r@ == enc_scene_item(p@),
{
    let mut out = String::new();
    let ghost mut fs: Seq<(Seq<char>, Seq<char>)> = Seq::empty();
    proof {
        assert(out@ =~= enc_record(fs));
    }
    push_field(&mut out, "source_name", p.source_name.as_str());
    proof {
        lemma_enc_record_snoc(fs, (("source_name")@, p.source_name@));
        fs = fs.push((("source_name")@, p.source_name@));
    }
    let v1 = encode_i64_str(p.scene_item_id);
    push_field(&mut out, "scene_item_id", v1.as_str());
    proof {
        lemma_enc_record_snoc(fs, (("scene_item_id")@, v1@));
        fs = fs.push((("scene_item_id")@, v1@));
    }
    push_field(&mut out, "source_type", p.source_type.as_str());
    proof {
        lemma_enc_record_snoc(fs, (("source_type")@, p.source_type@));
        fs = fs.push((("source_type")@, p.source_type@));
    }
    let v3 = encode_opt_transform(&p.transform);
    push_field(&mut out, "transform", v3.as_str());
    proof {
        lemma_enc_record_snoc(fs, (("transform")@, v3@));
        fs = fs.push((("transform")@, v3@));
    }
    let v4 = encode_opt_image(&p.image_data);
    push_field(&mut out, "image_data", v4.as_str());
    proof {
        lemma_enc_record_snoc(fs, (("image_data")@, v4@));
        fs = fs.push((("image_data")@, v4@));
    }
    let v5 = encode_filters(&p.filters);
    push_field(&mut out, "filters", v5.as_str());
    proof {
        lemma_enc_record_snoc(fs, (("filters")@, v5@));
        fs = fs.push((("filters")@, v5@));
    }
    proof {
        assert(fs =~= scene_item_fields(p@));
    }
    out
}

pub fn decode_scene_item(s: &str) -> (r: Result<SceneItemData, ParseError>)
    ensures
        forall|p: SceneItemDataView| s@ == enc_scene_item(p) ==> (r matches Ok(d) && d@ == p),
{
    let fields = match parse_record(s) {
        Ok(f) => f,
        Err(e) => {
            proof {
                assert forall|p: SceneItemDataView| s@ == enc_scene_item(p) implies false by {
                    scene_item_fields_facts(p);
                }
            }
            return Err(e);
        },
    };
    let f_source_name = field_get(&fields, "source_name");
    let f_scene_item_id = field_get(&fields, "scene_item_id");
    let f_source_type = field_get(&fields, "source_type");
    let f_transform = field_get(&fields, "transform");
    let f_image_data = field_get(&fields, "image_data");
    let f_filters = field_get(&fields, "filters");
    proof {
        assert forall|p: SceneItemDataView| s@ == enc_scene_item(p) implies {
            &&& f_source_name matches Some(v) && v@ == p.source_name
            &&& f_scene_item_id matches Some(v) && v@ == enc_i64(p.scene_item_id)
            &&& f_source_type matches Some(v) && v@ == p.source_type
            &&& f_transform matches Some(v) && v@ == enc_opt_transform(p.transform)
            &&& f_image_data matches Some(v) && v@ == enc_opt_image(p.image_data)
            &&& f_filters matches Some(v) && v@ == enc_list(filters_enc(p.filters))
        } by {
            scene_item_fields_facts(p);
        }
    }
    match (f_source_name, f_scene_item_id, f_source_type, f_transform, f_image_data, f_filters) {
        (Some(v_source_name), Some(v_scene_item_id), Some(v_source_type), Some(v_transform), Some(v_image_data), Some(v_filters)) => {
            let source_name = v_source_name.clone();
            let scene_item_id = decode_i64(v_scene_item_id.as_str())?;
            let source_type = v_source_type.clone();
            let transform = decode_opt_transform(v_transform.as_str())?;
            let image_data = decode_opt_image(v_image_data.as_str())?;
            let filters = decode_filters(v_filters.as_str())?;
            Ok(SceneItemData { source_name, scene_item_id, source_type, transform, image_data, filters })
        },
        _ => Err(ParseError::Malformed),
    }
}

// ---------------------------------------------------------------------------
// the scene record
// ---------------------------------------------------------------------------

/// The named fields of a scene record.
pub open spec fn scene_fields(p: SceneDataView) -> Seq<(Seq<char>, Seq<char>)> {
    seq![
        (("name")@, p.name),
        (("items")@, enc_list(items_enc(p.items))),
    ]
}

/// The wire form of a scene record.
pub open spec fn enc_scene(p: SceneDataView) -> Seq<char> {
    enc_record(scene_fields(p))
}

proof fn scene_fields_facts(p: SceneDataView)
    ensures
        wf_fields(scene_fields(p)),
        spec_field_get(scene_fields(p), ("name")@) == Some(p.name),
        spec_field_get(scene_fields(p), ("items")@) == Some(enc_list(items_enc(p.items))),
{
    reveal_strlit("name");
    reveal_strlit("items");
    assert(("name")@.len() == 4);
    assert(("items")@.len() == 5);
    assert(is_token(("name")@));
    assert(is_token(("items")@));
    lemma_field_get_at(scene_fields(p), 0);
    lemma_field_get_at(scene_fields(p), 1);
}

pub fn encode_scene(p: &SceneData) -> (r: String)
    ensures
        r@ == enc_scene(p@),
{
    let mut out = String::new();
    let ghost mut fs: Seq<(Seq<char>, Seq<char>)> = Seq::empty();
    proof {
        assert(out@ =~= enc_record(fs));
    }
    push_field(&mut out, "name", p.name.as_str());
    proof {
        lemma_enc_record_snoc(fs, (("name")@, p.name@));
        fs = fs.push((("name")@, p.name@));
    }
    let v1 = encode_items(&p.items);
    push_field(&mut out, "items", v1.as_str());
    proof {
        lemma_enc_record_snoc(fs, (("items")@, v1@));
        fs = fs.push((("items")@, v1@));
    }
    proof {
        assert(fs =~= scene_fields(p@));
    }
    out
}

pub fn decode_scene(s: &str) -> (r: Result<SceneData, ParseError>)
    ensures
        forall|p: SceneDataView| s@ == enc_scene(p) ==> (r matches Ok(d) && d@ == p),
{
    let fields = match parse_record(s) {
        Ok(f) => f,
        Err(e) => {
            proof {
                assert forall|p: SceneDataView| s@ == enc_scene(p) implies false by {
                    scene_fields_facts(p);
                }
            }
            return Err(e);
        },
    };
    let f_name = field_get(&fields, "name");
    let f_items = field_get(&fields, "items");
    proof {
        assert forall|p: SceneDataView| s@ == enc_scene(p) implies {
            &&& f_name matches Some(v) && v@ == p.name
            &&& f_items matches Some(v) && v@ == enc_list(items_enc(p.items))
        } by {
            scene_fields_facts(p);
        }
    }
    match (f_name, f_items) {
        (Some(v_name), Some(v_items)) => {
            let name = v_name.clone();
            let items = decode_items(v_items.as_str())?;
            Ok(SceneData { name, items })
        },
        _ => Err(ParseError::Malformed),
    }
}

// ---------------------------------------------------------------------------
// the state-sync record
// ---------------------------------------------------------------------------

/// The named fields of a state sync record.
pub open spec fn state_sync_fields(p: StateSyncView) -> Seq<(Seq<char>, Seq<char>)> {
    seq![
        (("current_program_scene")@, p.current_program_scene),
        (("current_preview_scene")@, enc_opt(p.current_preview_scene)),
        (("scenes")@, enc_list(scenes_enc(p.scenes))),
    ]
}

/// The wire form of a state sync record.
pub open spec fn enc_state_sync(p: StateSyncView) -> Seq<char> {
    enc_record(state_sync_fields(p))
}

proof fn state_sync_fields_facts(p: StateSyncView)
    ensures
        wf_fields(state_sync_fields(p)),
        spec_field_get(state_sync_fields(p), ("current_program_scene")@) == Some(p.current_program_scene),
        spec_field_get(state_sync_fields(p), ("current_preview_scene")@) == Some(enc_opt(p.current_preview_scene)),
        spec_field_get(state_sync_fields(p), ("scenes")@) == Some(enc_list(scenes_enc(p.scenes))),
{
    reveal_strlit("current_program_scene");
    reveal_strlit("current_preview_scene");
    reveal_strlit("scenes");
    assert(("current_program_scene")@.len() == 21);
    assert(("current_preview_scene")@.len() == 21);
    assert(("scenes")@.len() == 6);
    assert(("current_program_scene")@[10] == 'o');
    assert(("current_preview_scene")@[10] == 'e');
    assert(is_token(("current_program_scene")@));
    assert(is_token(("current_preview_scene")@));
    assert(is_token(("scenes")@));
    lemma_field_get_at(state_sync_fields(p), 0);
    lemma_field_get_at(state_sync_fields(p), 1);
    lemma_field_get_at(state_sync_fields(p), 2);
}

pub fn encode_state_sync(p: &StateSyncPayload) -> (r: String)
    ensures
        r@ == enc_state_sync(p@),
{
    let mut out = String::new();
    let ghost mut fs: Seq<(Seq<char>, Seq<char>)> = Seq::empty();
    proof {
        assert(out@ =~= enc_record(fs));
    }
    push_field(&mut out, "current_program_scene", p.current_program_scene.as_str());
    proof {
        lemma_enc_record_snoc(fs, (("current_program_scene")@, p.current_program_scene@));
        fs = fs.push((("current_program_scene")@, p.current_program_scene@));
    }
    let v1 = encode_opt_str(&p.current_preview_scene);
    push_field(&mut out, "current_preview_scene", v1.as_str());
    proof {
        lemma_enc_record_snoc(fs, (("current_preview_scene")@, v1@));
        fs = fs.push((("current_preview_scene")@, v1@));
    }
    let v2 = encode_scenes(&p.scenes);
    push_field(&mut out, "scenes", v2.as_str());
    proof {
        lemma_enc_record_snoc(fs, (("scenes")@, v2@));
        fs = fs.push((("scenes")@, v2@));
    }
    proof {
        assert(fs =~= state_sync_fields(p@));
    }
    out
}

pub fn decode_state_sync(s: &str) -> (r: Result<StateSyncPayload, ParseError>)
    ensures
        forall|p: StateSyncView| s@ == enc_state_sync(p) ==> (r matches Ok(d) && d@ == p),
{
    let fields = match parse_record(s) {
        Ok(f) => f,
        Err(e) => {
            proof {
                assert forall|p: StateSyncView| s@ == enc_state_sync(p) implies false by {
                    state_sync_fields_facts(p);
                }
            }
            return Err(e);
        },
    };
    let f_current_program_scene = field_get(&fields, "current_program_scene");
    let f_current_preview_scene = field_get(&fields, "current_preview_scene");
    let f_scenes = field_get(&fields, "scenes");
    proof {
        assert forall|p: StateSyncView| s@ == enc_state_sync(p) implies {
            &&& f_current_program_scene matches Some(v) && v@ == p.current_program_scene
            &&& f_current_preview_scene matches Some(v) && v@ == enc_opt(p.current_preview_scene)
            &&& f_scenes matches Some(v) && v@ == enc_list(scenes_enc(p.scenes))
        } by {
            state_sync_fields_facts(p);
        }
    }
    match (f_current_program_scene, f_current_preview_scene, f_scenes) {
        (Some(v_current_program_scene), Some(v_current_preview_scene), Some(v_scenes)) => {
            let current_program_scene = v_current_program_scene.clone();
            let current_preview_scene = decode_opt_str(v_current_preview_scene.as_str())?;
            let scenes = decode_scenes(v_scenes.as_str())?;
            Ok(StateSyncPayload { current_program_scene, current_preview_scene, scenes })
        },
        _ => Err(ParseError::Malformed),
    }
}

// ---------------------------------------------------------------------------
// the local-state record
// ---------------------------------------------------------------------------

/// The named fields of a local state record.
pub open spec fn local_state_fields(p: LocalStateView) -> Seq<(Seq<char>, Seq<char>)> {
    seq![
        (("current_scene")@, p.current_scene),
        (("sources")@, enc_list(sources_enc(p.sources))),
    ]
}

/// The wire form of a local state record.
pub open spec fn enc_local_state(p: LocalStateView) -> Seq<char> {
    enc_record(local_state_fields(p))
}

proof fn local_state_fields_facts(p: LocalStateView)
    ensures
        wf_fields(local_state_fields(p)),
        spec_field_get(local_state_fields(p), ("current_scene")@) == Some(p.current_scene),
        spec_field_get(local_state_fields(p), ("sources")@) == Some(enc_list(sources_enc(p.sources))),
{
    reveal_strlit("current_scene");
    reveal_strlit("sources");
    assert(("current_scene")@.len() == 13);
    assert(("sources")@.len() == 7);
    assert(is_token(("current_scene")@));
    assert(is_token(("sources")@));
    lemma_field_get_at(local_state_fields(p), 0);
    lemma_field_get_at(local_state_fields(p), 1);
}

pub fn encode_local_state(p: &LocalStatePayload) -> (r: String)
    ensures
        r@ == enc_local_state(p@),
{
    let mut out = String::new();
    let ghost mut fs: Seq<(Seq<char>, Seq<char>)> = Seq::empty();
    proof {
        assert(out@ =~= enc_record(fs));
    }
    push_field(&mut out, "current_scene", p.current_scene.as_str());
    proof {
        lemma_enc_record_snoc(fs, (("current_scene")@, p.current_scene@));
        fs = fs.push((("current_scene")@, p.current_scene@));
    }
    let v1 = encode_local_sources(&p.sources);
    push_field(&mut out, "sources", v1.as_str());
    proof {
        lemma_enc_record_snoc(fs, (("sources")@, v1@));
        fs = fs.push((("sources")@, v1@));
    }
    proof {
        assert(fs =~= local_state_fields(p@));
    }
    out
}

pub fn decode_local_state(s: &str) -> (r: Result<LocalStatePayload, ParseError>)
    ensures
        forall|p: LocalStateView| s@ == enc_local_state(p) ==> (r matches Ok(d) && d@ == p),
{
    let fields = match parse_record(s) {
        Ok(f) => f,
        Err(e) => {
            proof {
                assert forall|p: LocalStateView| s@ == enc_local_state(p) implies false by {
                    local_state_fields_facts(p);
                }
            }
            return Err(e);
        },
    };
    let f_current_scene = field_get(&fields, "current_scene");
    let f_sources = field_get(&fields, "sources");
    proof {
        assert forall|p: LocalStateView| s@ == enc_local_state(p) implies {
            &&& f_current_scene matches Some(v) && v@ == p.current_scene
            &&& f_sources matches Some(v) && v@ == enc_list(sources_enc(p.sources))
        } by {
            local_state_fields_facts(p);
        }
    }
    match (f_current_scene, f_sources) {
        (Some(v_current_scene), Some(v_sources)) => {
            let current_scene = v_current_scene.clone();
            let sources = decode_local_sources(v_sources.as_str())?;
            Ok(LocalStatePayload { current_scene, sources })
        },
        _ => Err(ParseError::Malformed),
    }
}

// ---------------------------------------------------------------------------
// the state-report record
// ---------------------------------------------------------------------------

/// The named fields of a state report record.
pub open spec fn state_report_fields(p: StateReportView) -> Seq<(Seq<char>, Seq<char>)> {
    seq![
        (("is_synced")@, enc_bool(p.is_synced)),
        (("desync_details")@, enc_list(diffs_enc(p.desync_details))),
        (("current_state")@, enc_local_state(p.current_state)),
    ]
}

/// The wire form of a state report record.
pub open spec fn enc_state_report(p: StateReportView) -> Seq<char> {
    enc_record(state_report_fields(p))
}

proof fn state_report_fields_facts(p: StateReportView)
    ensures
        wf_fields(state_report_fields(p)),
        spec_field_get(state_report_fields(p), ("is_synced")@) == Some(enc_bool(p.is_synced)),
        spec_field_get(state_report_fields(p), ("desync_details")@) == Some(enc_list(diffs_enc(p.desync_details))),
        spec_field_get(state_report_fields(p), ("current_state")@) == Some(enc_local_state(p.current_state)),
{
    reveal_strlit("is_synced");
    reveal_strlit("desync_details");
    reveal_strlit("current_state");
    assert(("is_synced")@.len() == 9);
    assert(("desync_details")@.len() == 14);
    assert(("current_state")@.len() == 13);
    assert(is_token(("is_synced")@));
    assert(is_token(("desync_details")@));
    assert(is_token(("current_state")@));
    lemma_field_get_at(state_report_fields(p), 0);
    lemma_field_get_at(state_report_fields(p), 1);
    lemma_field_get_at(state_report_fields(p), 2);
}

pub fn encode_state_report(p: &StateReportPayload) -> (r: String)
    ensures
        r@ == enc_state_report(p@),
{
    let mut out = String::new();
    let ghost mut fs: Seq<(Seq<char>, Seq<char>)> = Seq::empty();
    proof {
        assert(out@ =~= enc_record(fs));
    }
    let v0 = encode_bool(p.is_synced);
    push_field(&mut out, "is_synced", v0);
    proof {
        lemma_enc_record_snoc(fs, (("is_synced")@, v0@));
        fs = fs.push((("is_synced")@, v0@));
    }
    let v1 = encode_diffs(&p.desync_details);
    push_field(&mut out, "desync_details", v1.as_str());
    proof {
        lemma_enc_record_snoc(fs, (("desync_details")@, v1@));
        fs = fs.push((("desync_details")@, v1@));
    }
    let v2 = encode_local_state(&p.current_state);
    push_field(&mut out, "current_state", v2.as_str());
    proof {
        lemma_enc_record_snoc(fs, (("current_state")@, v2@));
        fs = fs.push((("current_state")@, v2@));
    }
    proof {
        assert(fs =~= state_report_fields(p@));
    }
    out
}

pub fn decode_state_report(s: &str) -> (r: Result<StateReportPayload, ParseError>)
    ensures
        forall|p: StateReportView| s@ == enc_state_report(p) ==> (r matches Ok(d) && d@ == p),
{
    let fields = match parse_record(s) {
        Ok(f) => f,
        Err(e) => {
            proof {
                assert forall|p: StateReportView| s@ == enc_state_report(p) implies false by {
                    state_report_fields_facts(p);
                }
            }
            return Err(e);
        },
    };
    let f_is_synced = field_get(&fields, "is_synced");
    let f_desync_details = field_get(&fields, "desync_details");
    let f_current_state = field_get(&fields, "current_state");
    proof {
        assert forall|p: StateReportView| s@ == enc_state_report(p) implies {
            &&& f_is_synced matches Some(v) && v@ == enc_bool(p.is_synced)
            &&& f_desync_details matches Some(v) && v@ == enc_list(diffs_enc(p.desync_details))
            &&& f_current_state matches Some(v) && v@ == enc_local_state(p.current_state)
        } by {
            state_report_fields_facts(p);
        }
    }
    match (f_is_synced, f_desync_details, f_current_state) {
        (Some(v_is_synced), Some(v_desync_details), Some(v_current_state)) => {
            let is_synced = decode_bool(v_is_synced.as_str())?;
            let desync_details = decode_diffs(v_desync_details.as_str())?;
            let current_state = decode_local_state(v_current_state.as_str())?;
            Ok(StateReportPayload { is_synced, desync_details, current_state })
        },
        _ => Err(ParseError::Malformed),
    }
}

// ---------------------------------------------------------------------------
// the envelope
// ---------------------------------------------------------------------------

/// The wire form of an envelope's payload, shaped by its variant. An empty
/// payload encodes as an empty record.
pub open spec fn enc_payload(p: PayloadView) -> Seq<char> {
    match p {
        PayloadView::SceneChange(x) => enc_scene_change(x),
        PayloadView::TransformUpdate(x) => enc_transform_update(x),
        PayloadView::ImageUpdate(x) => enc_image_update(x),
        PayloadView::FilterUpdate(x) => enc_filter_update(x),
        PayloadView::SourceUpdate(x) => enc_source_update(x),
        PayloadView::StateSync(x) => enc_state_sync(x),
        PayloadView::StateReport(x) => enc_state_report(x),
        PayloadView::Empty => Seq::empty(),
    }
}

/// The named fields of an envelope.
pub open spec fn message_fields(m: SyncMessageView) -> Seq<(Seq<char>, Seq<char>)> {
    seq![
        (("message_type")@, type_token(m.message_type)),
        (("timestamp")@, enc_i64(m.timestamp)),
        (("target_type")@, target_token(m.target_type)),
        (("payload")@, enc_payload(m.payload)),
    ]
}

/// The wire form of an envelope.
pub open spec fn enc_message(m: SyncMessageView) -> Seq<char> {
    enc_record(message_fields(m))
}

proof fn message_fields_facts(m: SyncMessageView)
    ensures
        wf_fields(message_fields(m)),
        spec_field_get(message_fields(m), ("message_type")@) == Some(type_token(m.message_type)),
        spec_field_get(message_fields(m), ("timestamp")@) == Some(enc_i64(m.timestamp)),
        spec_field_get(message_fields(m), ("target_type")@) == Some(target_token(m.target_type)),
        spec_field_get(message_fields(m), ("payload")@) == Some(enc_payload(m.payload)),
{
    reveal_strlit("message_type");
    reveal_strlit("timestamp");
    reveal_strlit("target_type");
    reveal_strlit("payload");
    assert(("message_type")@.len() == 12);
    assert(("timestamp")@.len() == 9);
    assert(("target_type")@.len() == 11);
    assert(("payload")@.len() == 7);
    assert(is_token(("message_type")@));
    assert(is_token(("timestamp")@));
    assert(is_token(("target_type")@));
    assert(is_token(("payload")@));
    lemma_field_get_at(message_fields(m), 0);
    lemma_field_get_at(message_fields(m), 1);
    lemma_field_get_at(message_fields(m), 2);
    lemma_field_get_at(message_fields(m), 3);
}

fn encode_payload_value(p: &Payload) -> (r: String)
    ensures
        r@ == enc_payload(p@),
{
    match p {
        Payload::SceneChange(x) => encode_scene_change(x),
        Payload::TransformUpdate(x) => encode_transform_update(x),
        Payload::ImageUpdate(x) => encode_image_update(x),
        Payload::FilterUpdate(x) => encode_filter_update(x),
        Payload::SourceUpdate(x) => encode_source_update(x),
        Payload::StateSync(x) => encode_state_sync(x),
        Payload::StateReport(x) => encode_state_report(x),
        Payload::Empty => String::new(),
    }
}

/// Encodes an envelope for the wire. What this produces, [`decode_message`]
/// reads back unchanged.
pub fn encode_message(m: &SyncMessage) -> (r: String)
    ensures
        r@ == enc_message(m@),
{
    let mut out = String::new();
    let ghost mut fs: Seq<(Seq<char>, Seq<char>)> = Seq::empty();
    proof {
        assert(out@ =~= enc_record(fs));
    }
    let v0 = encode_message_type(&m.message_type);
    push_field(&mut out, "message_type", v0);
    proof {
        lemma_enc_record_snoc(fs, (("message_type")@, v0@));
        fs = fs.push((("message_type")@, v0@));
    }
    let v1 = encode_i64_str(m.timestamp);
    push_field(&mut out, "timestamp", v1.as_str());
    proof {
        lemma_enc_record_snoc(fs, (("timestamp")@, v1@));
        fs = fs.push((("timestamp")@, v1@));
    }
    let v2 = encode_target_type(&m.target_type);
    push_field(&mut out, "target_type", v2);
    proof {
        lemma_enc_record_snoc(fs, (("target_type")@, v2@));
        fs = fs.push((("target_type")@, v2@));
    }
    let v3 = encode_payload_value(&m.payload);
    push_field(&mut out, "payload", v3.as_str());
    proof {
        lemma_enc_record_snoc(fs, (("payload")@, v3@));
        fs = fs.push((("payload")@, v3@));
        assert(fs =~= message_fields(m@));
    }
    out
}

/// Decodes one wire frame into an envelope.
///
/// The round-trip law: for every well-formed envelope `m` (its payload has
/// the shape its message type demands), decoding `encode_message(m)` gives
/// `m` back. An envelope whose type token is unknown fails with
/// `UnknownMessageType`; other malformed frames fail with `Malformed`.
pub fn decode_message(s: &str) -> (r: Result<SyncMessage, ParseError>)
    ensures
        forall|m: SyncMessageView|
            #![trigger enc_message(m)]
            s@ == enc_message(m) && payload_matches(m.message_type, m.payload) ==> (r matches Ok(d)
                && d@ == m),
{
    let fields = match parse_record(s) {
        Ok(f) => f,
        Err(e) => {
            proof {
                assert forall|m: SyncMessageView|
                    s@ == enc_message(m) && payload_matches(m.message_type, m.payload)
                    implies false by {
                    message_fields_facts(m);
                }
            }
            return Err(e);
        },
    };
    let f_type = field_get(&fields, "message_type");
    let f_ts = field_get(&fields, "timestamp");
    let f_target = field_get(&fields, "target_type");
    let f_payload = field_get(&fields, "payload");
    proof {
        assert forall|m: SyncMessageView|
            s@ == enc_message(m) && payload_matches(m.message_type, m.payload) implies {
            &&& f_type matches Some(v) && v@ == type_token(m.message_type)
            &&& f_ts matches Some(v) && v@ == enc_i64(m.timestamp)
            &&& f_target matches Some(v) && v@ == target_token(m.target_type)
            &&& f_payload matches Some(v) && v@ == enc_payload(m.payload)
        } by {
            message_fields_facts(m);
        }
    }
    match (f_type, f_ts, f_target, f_payload) {
        (Some(v_type), Some(v_ts), Some(v_target), Some(v_payload)) => {
            let message_type = decode_message_type(v_type.as_str())?;
            let timestamp = decode_i64(v_ts.as_str())?;
            let target_type = decode_target_type(v_target.as_str())?;
            let payload = match message_type {
                SyncMessageType::SceneChange => Payload::SceneChange(
                    decode_scene_change(v_payload.as_str())?,
                ),
                SyncMessageType::TransformUpdate => Payload::TransformUpdate(
                    decode_transform_update(v_payload.as_str())?,
                ),
                SyncMessageType::ImageUpdate => Payload::ImageUpdate(
                    decode_image_update(v_payload.as_str())?,
                ),
                SyncMessageType::FilterUpdate => Payload::FilterUpdate(
                    decode_filter_update(v_payload.as_str())?,
                ),
                SyncMessageType::SourceUpdate => Payload::SourceUpdate(
                    decode_source_update(v_payload.as_str())?,
                ),
                SyncMessageType::StateSync => Payload::StateSync(
                    decode_state_sync(v_payload.as_str())?,
                ),
                SyncMessageType::StateReport => Payload::StateReport(
                    decode_state_report(v_payload.as_str())?,
                ),
                SyncMessageType::Heartbeat => Payload::Empty,
                SyncMessageType::StateSyncRequest => Payload::Empty,
            };
            Ok(SyncMessage { message_type, timestamp, target_type, payload })
        },
        _ => Err(ParseError::Malformed),
    }
}

} // verus!

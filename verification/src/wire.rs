//! Character-level building blocks of the wire encoding.
//!
//! The wire form of an envelope is text. A record is a run of named fields,
//! each `name=LEN:VALUE;` where `LEN` is the decimal length of `VALUE` in
//! characters; values nest records, lists (`COUNT;` then one length-prefixed
//! blob per element), decimal integers, `T`/`F` booleans, `N`/`S...` options
//! and raw text. Length prefixes make every value self-delimiting, so a
//! reader can skip fields it does not know.
//!
//! This module gives the spec-level encodings, the exec writers that build
//! them, and the exec readers together with the lemmas that parsing a written
//! value gives the value back.

use vstd::prelude::*;

verus! {

/// Why a wire text failed to decode.
#[derive(Clone, Copy, Debug, PartialEq, Eq, Structural)]
pub enum ParseError {
    /// The text is not a well-formed record, or a field's value does not
    /// have the shape its name demands, or a required field is missing.
    Malformed,
    /// The envelope is well-formed but its `type` field names no message
    /// type this library knows. The connection is kept; the frame is skipped.
    UnknownMessageType,
}

pub open spec fn is_digit(c: char) -> bool {
    48 <= c as u32 <= 57
}

pub open spec fn digit_char(d: int) -> char
    recommends
        0 <= d <= 9,
{
    if d == 0 {
        '0'
    } else if d == 1 {
        '1'
    } else if d == 2 {
        '2'
    } else if d == 3 {
        '3'
    } else if d == 4 {
        '4'
    } else if d == 5 {
        '5'
    } else if d == 6 {
        '6'
    } else if d == 7 {
        '7'
    } else if d == 8 {
        '8'
    } else {
        '9'
    }
}

pub open spec fn digit_val(c: char) -> int {
    c as u32 - 48
}

/// The decimal digits of `n`, most significant first, no sign, no padding.
pub open spec fn dec_digits(n: nat) -> Seq<char>
    decreases n,
{
    if n < 10 {
        seq![digit_char(n as int)]
    } else {
        dec_digits(n / 10).push(digit_char((n % 10) as int))
    }
}

/// The value of a digit run, read most significant first.
pub open spec fn dec_value(ds: Seq<char>) -> int
    decreases ds.len(),
{
    if ds.len() == 0 {
        0
    } else {
        dec_value(ds.drop_last()) * 10 + digit_val(ds.last())
    }
}

pub proof fn lemma_dec_digits_are_digits(n: nat)
    ensures
        dec_digits(n).len() >= 1,
        forall|i: int| 0 <= i < dec_digits(n).len() ==> is_digit(#[trigger] dec_digits(n)[i]),
    decreases n,
{
    if n >= 10 {
        lemma_dec_digits_are_digits(n / 10);
    }
}

pub proof fn lemma_digit_roundtrip(d: int)
    requires
        0 <= d <= 9,
    ensures
        digit_val(digit_char(d)) == d,
        is_digit(digit_char(d)),
{
}

pub proof fn lemma_dec_value_of_digits(n: nat)
    ensures
        dec_value(dec_digits(n)) == n,
    decreases n,
{
    if n < 10 {
        lemma_digit_roundtrip(n as int);
        let ds = dec_digits(n);
        assert(ds =~= seq![digit_char(n as int)]);
        assert(ds.drop_last() =~= Seq::<char>::empty());
        assert(dec_value(ds.drop_last()) == 0);
        assert(ds.last() == digit_char(n as int));
        assert(dec_value(ds) == 0 * 10 + digit_val(digit_char(n as int)));
    } else {
        lemma_dec_value_of_digits(n / 10);
        lemma_digit_roundtrip((n % 10) as int);
        let ds = dec_digits(n);
        assert(ds =~= dec_digits(n / 10).push(digit_char((n % 10) as int)));
        assert(ds.drop_last() =~= dec_digits(n / 10));
        assert(ds.last() == digit_char((n % 10) as int));
        assert(dec_value(ds) == dec_value(dec_digits(n / 10)) * 10 + digit_val(
            digit_char((n % 10) as int),
        ));
        assert(dec_value(ds) == (n / 10) * 10 + (n % 10));
    }
}

pub fn is_digit_exec(c: char) -> (r: bool)
    ensures
        r == is_digit(c),
{
    let v = c as u32;
    48 <= v && v <= 57
}

fn digit_to_str(d: u64) -> (r: &'static str)
    requires
        d < 10,
    ensures
        r@ =~= seq![digit_char(d as int)],
{
    proof {
        reveal_strlit("0");
        reveal_strlit("1");
        reveal_strlit("2");
        reveal_strlit("3");
        reveal_strlit("4");
        reveal_strlit("5");
        reveal_strlit("6");
        reveal_strlit("7");
        reveal_strlit("8");
        reveal_strlit("9");
    }
    match d {
        0 => "0",
        1 => "1",
        2 => "2",
        3 => "3",
        4 => "4",
        5 => "5",
        6 => "6",
        7 => "7",
        8 => "8",
        _ => "9",
    }
}

/// Appends the decimal rendering of `n` to `out`.
pub fn push_u64(out: &mut String, n: u64)
    ensures
        final(out)@ == old(out)@ + dec_digits(n as nat),
    decreases n,
{
    if n < 10 {
        out.append(digit_to_str(n));
    } else {
        push_u64(out, n / 10);
        out.append(digit_to_str(n % 10));
        proof {
            assert(old(out)@ + dec_digits(n as nat) =~= (old(out)@ + dec_digits(
                (n / 10) as nat,
            )).push(digit_char((n % 10) as int)));
        }
    }
}

/// The wire form of a signed integer: a minus sign before the magnitude's
/// digits when negative.
pub open spec fn enc_i64(n: i64) -> Seq<char> {
    if n < 0 {
        seq!['-'] + dec_digits((-(n as int)) as nat)
    } else {
        dec_digits(n as nat)
    }
}

/// Appends the wire form of `n` to `out`.
pub fn push_i64(out: &mut String, n: i64)
    ensures
        final(out)@ == old(out)@ + enc_i64(n),
{
    if n >= 0 {
        push_u64(out, n as u64);
    } else {
        out.append("-");
        let mag: u64 = if n == i64::MIN {
            9223372036854775808u64
        } else {
            (-n) as u64
        };
        proof {
            reveal_strlit("-");
        }
        push_u64(out, mag);
        proof {
            assert(old(out)@ + enc_i64(n) =~= (old(out)@ + seq!['-']) + dec_digits(mag as nat));
        }
    }
}

/// The characters of `s` from `pos` to the end.
pub open spec fn tail_of(s: Seq<char>, pos: int) -> Seq<char> {
    s.subrange(pos, s.len() as int)
}

/// Stepping over a known prefix of the remaining text leaves the rest.
pub proof fn lemma_tail_shift(s: Seq<char>, pos: int, a: Seq<char>, c: Seq<char>)
    requires
        0 <= pos <= s.len(),
        tail_of(s, pos) == a + c,
    ensures
        pos + a.len() <= s.len(),
        tail_of(s, pos + a.len()) == c,
{
    assert(tail_of(s, pos).len() == s.len() - pos);
    assert forall|j: int| 0 <= j < c.len() implies tail_of(s, pos + a.len())[j] == c[j] by {
        assert(tail_of(s, pos + a.len())[j] == s[pos + a.len() + j]);
        assert(tail_of(s, pos)[a.len() + j] == s[pos + a.len() + j]);
        assert((a + c)[a.len() + j] == c[j]);
    }
    assert(tail_of(s, pos + a.len()) =~= c);
}

/// A length-prefixed value: the decimal length, a colon, the characters.
pub open spec fn enc_blob(b: Seq<char>) -> Seq<char> {
    dec_digits(b.len()) + seq![':'] + b
}

pub open spec fn is_token_char(c: char) -> bool {
    (97 <= c as u32 <= 122) || c as u32 == 95
}

/// A field or enum name on the wire: lower-case letters and underscores.
pub open spec fn is_token(t: Seq<char>) -> bool {
    &&& t.len() >= 1
    &&& forall|i: int| 0 <= i < t.len() ==> is_token_char(#[trigger] t[i])
}

/// One named field of a record.
pub open spec fn enc_field(name: Seq<char>, v: Seq<char>) -> Seq<char> {
    name + seq!['='] + enc_blob(v) + seq![';']
}

/// A record: its named fields, one after the other.
pub open spec fn enc_record(fields: Seq<(Seq<char>, Seq<char>)>) -> Seq<char>
    decreases fields.len(),
{
    if fields.len() == 0 {
        Seq::empty()
    } else {
        enc_field(fields[0].0, fields[0].1) + enc_record(fields.drop_first())
    }
}

pub open spec fn wf_fields(fields: Seq<(Seq<char>, Seq<char>)>) -> bool {
    forall|i: int| 0 <= i < fields.len() ==> is_token(#[trigger] fields[i].0)
}

pub open spec fn cat_blobs(elems: Seq<Seq<char>>) -> Seq<char>
    decreases elems.len(),
{
    if elems.len() == 0 {
        Seq::empty()
    } else {
        enc_blob(elems[0]) + cat_blobs(elems.drop_first())
    }
}

/// A list: the decimal element count, a semicolon, then each element as a
/// length-prefixed blob.
pub open spec fn enc_list(elems: Seq<Seq<char>>) -> Seq<char> {
    dec_digits(elems.len()) + seq![';'] + cat_blobs(elems)
}

/// The views of a vector of field pairs.
pub open spec fn fields_view(v: Seq<(String, String)>) -> Seq<(Seq<char>, Seq<char>)> {
    Seq::new(v.len(), |i: int| (v[i].0@, v[i].1@))
}

/// The views of a vector of strings.
pub open spec fn strs_view(v: Seq<String>) -> Seq<Seq<char>> {
    Seq::new(v.len(), |i: int| v[i]@)
}

/// The first field of the given name, if any.
pub open spec fn spec_field_get(fields: Seq<(Seq<char>, Seq<char>)>, name: Seq<char>) -> Option<
    Seq<char>,
>
    decreases fields.len(),
{
    if fields.len() == 0 {
        None
    } else if fields[0].0 == name {
        Some(fields[0].1)
    } else {
        spec_field_get(fields.drop_first(), name)
    }
}

/// Looking a name up finds the field at `i` when no earlier field shares its
/// name.
pub proof fn lemma_field_get_at(fields: Seq<(Seq<char>, Seq<char>)>, i: int)
    requires
        0 <= i < fields.len(),
        forall|j: int| 0 <= j < i ==> fields[j].0 != fields[i].0,
    ensures
        spec_field_get(fields, fields[i].0) == Some(fields[i].1),
    decreases i,
{
    if i > 0 {
        assert(fields[0].0 != fields[i].0);
        assert(fields.drop_first()[i - 1] == fields[i]);
        assert forall|j: int| 0 <= j < i - 1 implies #[trigger] fields.drop_first()[j].0
            != fields.drop_first()[i - 1].0 by {
            assert(fields.drop_first()[j] == fields[j + 1]);
        }
        lemma_field_get_at(fields.drop_first(), i - 1);
    }
}

pub proof fn lemma_enc_record_snoc(fields: Seq<(Seq<char>, Seq<char>)>, f: (Seq<char>, Seq<char>))
    ensures
        enc_record(fields.push(f)) == enc_record(fields) + enc_field(f.0, f.1),
    decreases fields.len(),
{
    if fields.len() == 0 {
        assert(fields.push(f)[0] == f);
        assert(fields.push(f).drop_first() =~= Seq::<(Seq<char>, Seq<char>)>::empty());
        assert(enc_record(fields.push(f)) == enc_field(fields.push(f)[0].0, fields.push(f)[0].1)
            + enc_record(fields.push(f).drop_first()));
        assert(enc_record(Seq::<(Seq<char>, Seq<char>)>::empty()) =~= Seq::<char>::empty());
        assert(enc_record(fields.push(f)) =~= enc_field(f.0, f.1));
        assert(enc_record(fields) + enc_field(f.0, f.1) =~= enc_field(f.0, f.1));
    } else {
        assert(fields.push(f)[0] == fields[0]);
        assert(fields.push(f).drop_first() =~= fields.drop_first().push(f));
        lemma_enc_record_snoc(fields.drop_first(), f);
        assert(enc_record(fields.push(f)) =~= enc_record(fields) + enc_field(f.0, f.1));
    }
}

pub proof fn lemma_cat_blobs_snoc(elems: Seq<Seq<char>>, e: Seq<char>)
    ensures
        cat_blobs(elems.push(e)) == cat_blobs(elems) + enc_blob(e),
    decreases elems.len(),
{
    if elems.len() == 0 {
        assert(elems.push(e)[0] == e);
        assert(elems.push(e).drop_first() =~= Seq::<Seq<char>>::empty());
        assert(cat_blobs(elems.push(e)) == enc_blob(elems.push(e)[0]) + cat_blobs(
            elems.push(e).drop_first(),
        ));
        assert(cat_blobs(Seq::<Seq<char>>::empty()) =~= Seq::<char>::empty());
        assert(cat_blobs(elems.push(e)) =~= enc_blob(e));
        assert(cat_blobs(elems) + enc_blob(e) =~= enc_blob(e));
    } else {
        assert(elems.push(e)[0] == elems[0]);
        assert(elems.push(e).drop_first() =~= elems.drop_first().push(e));
        lemma_cat_blobs_snoc(elems.drop_first(), e);
        assert(cat_blobs(elems.push(e)) =~= cat_blobs(elems) + enc_blob(e));
    }
}

/// Appends `v` as a length-prefixed blob.
pub fn push_blob(out: &mut String, v: &str)
    ensures
        final(out)@ == old(out)@ + enc_blob(v@),
{
    let len = v.unicode_len();
    push_u64(out, len as u64);
    out.append(":");
    out.append(v);
    proof {
        reveal_strlit(":");
        assert((":")@ =~= seq![':']);
        assert(old(out)@ + enc_blob(v@) =~= ((old(out)@ + dec_digits(v@.len())) + seq![':'])
            + v@);
    }
}

/// Appends one named record field holding `v`.
pub fn push_field(out: &mut String, name: &str, v: &str)
    ensures
        final(out)@ == old(out)@ + enc_field(name@, v@),
{
    out.append(name);
    out.append("=");
    push_blob(out, v);
    out.append(";");
    proof {
        reveal_strlit("=");
        reveal_strlit(";");
        assert(("=")@ =~= seq!['=']);
        assert((";")@ =~= seq![';']);
        assert(old(out)@ + enc_field(name@, v@) =~= (((old(out)@ + name@) + seq!['='])
            + enc_blob(v@)) + seq![';']);
    }
}

/// Encodes pre-encoded elements as a list.
pub fn encode_list(elems: &Vec<String>) -> (r: String)
    ensures
        r@ == enc_list(strs_view(elems@)),
{
    let mut out = String::new();
    push_u64(&mut out, elems.len() as u64);
    out.append(";");
    proof {
        reveal_strlit(";");
        assert((";")@ =~= seq![';']);
    }
    let ghost header = out@;
    let mut i: usize = 0;
    while i < elems.len()
        invariant
            0 <= i <= elems.len(),
            header == dec_digits(strs_view(elems@).len()) + seq![';'],
            out@ == header + cat_blobs(strs_view(elems@).take(i as int)),
        decreases elems.len() - i,
    {
        push_blob(&mut out, elems[i].as_str());
        proof {
            lemma_cat_blobs_snoc(strs_view(elems@).take(i as int), elems@[i as int]@);
            assert(strs_view(elems@).take(i + 1) =~= strs_view(elems@).take(i as int).push(
                elems@[i as int]@,
            ));
            assert(out@ =~= header + cat_blobs(strs_view(elems@).take(i + 1)));
        }
        i += 1;
    }
    proof {
        assert(strs_view(elems@).take(elems@.len() as int) =~= strs_view(elems@));
        assert(out@ =~= enc_list(strs_view(elems@)));
    }
    out
}

/// Reads a decimal number at `pos`: one or more digits, stopping at the first
/// non-digit. Fails when there is no digit or the value does not fit.
pub fn read_digits(s: &str, pos: usize) -> (r: Result<(u64, usize), ParseError>)
    requires
        pos <= s@.len(),
    ensures
        r matches Ok(v) ==> pos < v.1 <= s@.len(),
        forall|n: u64, rest: Seq<char>|
            #![trigger dec_digits(n as nat) + rest]
            tail_of(s@, pos as int) == dec_digits(n as nat) + rest && (rest.len() == 0
                || !is_digit(rest[0])) ==> r == Ok::<(u64, usize), ParseError>(
                (n, (pos + dec_digits(n as nat).len()) as usize),
            ),
{
    let len = s.unicode_len();
    let mut i = pos;
    let mut acc: u128 = 0;
    let mut overflow = false;
    while i < len
        invariant
            pos <= i <= len,
            len == s@.len(),
            forall|j: int| pos <= j < i ==> is_digit(#[trigger] s@[j]),
            !overflow ==> acc == dec_value(s@.subrange(pos as int, i as int)),
            !overflow ==> acc <= u64::MAX,
            overflow ==> i > pos,
            overflow ==> dec_value(s@.subrange(pos as int, i as int)) > u64::MAX,
        ensures
            pos <= i <= len,
            forall|j: int| pos <= j < i ==> is_digit(#[trigger] s@[j]),
            i == len || !is_digit(s@[i as int]),
            !overflow ==> acc == dec_value(s@.subrange(pos as int, i as int)),
            !overflow ==> acc <= u64::MAX,
            overflow ==> dec_value(s@.subrange(pos as int, i as int)) > u64::MAX,
        decreases len - i,
    {
        let c = s.get_char(i);
        if !is_digit_exec(c) {
            break ;
        }
        let d = (c as u32 - 48) as u128;
        let ghost pre = s@.subrange(pos as int, i as int);
        if !overflow {
            if acc > 0xffff_ffff_ffff_ffffu128 || acc * 10 + d > 0xffff_ffff_ffff_ffffu128 {
                overflow = true;
            } else {
                acc = acc * 10 + d;
            }
        }
        i += 1;
        proof {
            assert(s@.subrange(pos as int, i as int) =~= pre.push(c));
            assert(s@.subrange(pos as int, i as int).drop_last() =~= pre);
        }
    }
    if i == pos {
        // no digit at all
        proof {
            assert forall|n: u64, rest: Seq<char>|
                tail_of(s@, pos as int) == dec_digits(n as nat) + rest && (rest.len() == 0
                    || !is_digit(rest[0])) implies false by {
                lemma_dec_digits_are_digits(n as nat);
                assert(tail_of(s@, pos as int)[0] == dec_digits(n as nat)[0]);
                assert(is_digit(s@[pos as int]));
            }
        }
        return Err(ParseError::Malformed);
    }
    proof {
        assert forall|n: u64, rest: Seq<char>|
            tail_of(s@, pos as int) == dec_digits(n as nat) + rest && (rest.len() == 0
                || !is_digit(rest[0])) implies s@.subrange(pos as int, i as int) == dec_digits(
            n as nat,
        ) && i == pos + dec_digits(n as nat).len() by {
            lemma_dec_digits_are_digits(n as nat);
            let k = dec_digits(n as nat).len() as int;
            let t = tail_of(s@, pos as int);
            // every char of the encoding region is a digit
            assert(forall|j: int|
                pos <= j < pos + k ==> is_digit(#[trigger] s@[j])) by {
                assert forall|j: int| pos <= j < pos + k implies is_digit(s@[j]) by {
                    assert(s@[j] == t[j - pos]);
                    assert(t[j - pos] == dec_digits(n as nat)[j - pos]);
                }
            }
            // our scan cannot stop inside the digit region
            assert(i >= pos + k) by {
                if i < pos + k {
                    assert(is_digit(s@[i as int]));
                }
            }
            // and cannot pass its end
            assert(i <= pos + k) by {
                if i > pos + k {
                    assert(rest.len() > 0);
                    assert(s@[pos + k] == t[k]);
                    assert(t[k] == rest[0]);
                    assert(is_digit(s@[pos + k]));
                }
            }
            assert(s@.subrange(pos as int, i as int) =~= dec_digits(n as nat));
        }
    }
    if overflow {
        proof {
            assert forall|n: u64, rest: Seq<char>|
                tail_of(s@, pos as int) == dec_digits(n as nat) + rest && (rest.len() == 0
                    || !is_digit(rest[0])) implies false by {
                lemma_dec_value_of_digits(n as nat);
                assert(s@.subrange(pos as int, i as int) == dec_digits(n as nat));
                assert(dec_value(dec_digits(n as nat)) == n);
            }
        }
        return Err(ParseError::Malformed);
    }
    proof {
        assert forall|n: u64, rest: Seq<char>|
            tail_of(s@, pos as int) == dec_digits(n as nat) + rest && (rest.len() == 0
                || !is_digit(rest[0])) implies acc == n by {
            lemma_dec_value_of_digits(n as nat);
            assert(s@.subrange(pos as int, i as int) == dec_digits(n as nat));
        }
    }
    Ok(((acc as u64), i))
}

/// Demands the character `c` at `pos` and steps over it.
pub fn expect_char(s: &str, pos: usize, c: char) -> (r: Result<usize, ParseError>)
    requires
        pos <= s@.len(),
    ensures
        r matches Ok(p) ==> p == pos + 1 && pos < s@.len() && s@[pos as int] == c,
        pos < s@.len() && s@[pos as int] == c ==> r == Ok::<usize, ParseError>((pos + 1) as usize),
{
    let len = s.unicode_len();
    if pos < len && s.get_char(pos) == c {
        Ok(pos + 1)
    } else {
        Err(ParseError::Malformed)
    }
}

/// Reads a length-prefixed blob at `pos` and hands its characters back.
pub fn read_blob(s: &str, pos: usize) -> (r: Result<(String, usize), ParseError>)
    requires
        pos <= s@.len(),
    ensures
        r matches Ok(v) ==> pos < v.1 <= s@.len(),
        forall|b: Seq<char>, rest: Seq<char>|
            #![trigger enc_blob(b) + rest]
            tail_of(s@, pos as int) == enc_blob(b) + rest ==> (r matches Ok(v) && v.0@ == b
                && v.1 == pos + enc_blob(b).len()),
{
    let len = s.unicode_len();
    let blen;
    let p1;
    match read_digits(s, pos) {
        Ok((n, p)) => {
            blen = n;
            p1 = p;
        },
        Err(e) => {
            proof {
                assert forall|b: Seq<char>, rest: Seq<char>|
                    tail_of(s@, pos as int) == enc_blob(b) + rest implies false by {
                    blob_digit_decomp(s@, pos as int, b, rest);
                }
            }
            return Err(e);
        },
    }
    let p2;
    match expect_char(s, p1, ':') {
        Ok(p) => {
            p2 = p;
        },
        Err(e) => {
            proof {
                assert forall|b: Seq<char>, rest: Seq<char>|
                    tail_of(s@, pos as int) == enc_blob(b) + rest implies false by {
                    blob_digit_decomp(s@, pos as int, b, rest);
                    assert(p1 == pos + dec_digits(b.len()).len());
                }
            }
            return Err(e);
        },
    }
    if blen > (len - p2) as u64 {
        proof {
            assert forall|b: Seq<char>, rest: Seq<char>|
                tail_of(s@, pos as int) == enc_blob(b) + rest implies false by {
                blob_digit_decomp(s@, pos as int, b, rest);
                assert(p1 == pos + dec_digits(b.len()).len());
                assert(blen == b.len());
            }
        }
        return Err(ParseError::Malformed);
    }
    let blen_us = blen as usize;
    let body = s.substring_char(p2, p2 + blen_us).to_owned();
    proof {
        assert forall|b: Seq<char>, rest: Seq<char>|
            tail_of(s@, pos as int) == enc_blob(b) + rest implies body@ == b && p2 + blen_us == pos
            + enc_blob(b).len() by {
            blob_digit_decomp(s@, pos as int, b, rest);
            assert(p1 == pos + dec_digits(b.len()).len());
            assert(blen == b.len());
            assert(s@.subrange(p2 as int, p2 + blen_us) == b);
        }
    }
    Ok((body, p2 + blen_us))
}

/// How a blob encoding decomposes around the caller's scan: the length
/// digits, the colon, the body.
proof fn blob_digit_decomp(s: Seq<char>, pos: int, b: Seq<char>, rest: Seq<char>)
    requires
        0 <= pos <= s.len(),
        s.len() <= u64::MAX,
        tail_of(s, pos) == enc_blob(b) + rest,
    ensures
        b.len() <= u64::MAX,
        (b.len() as u64) as nat == b.len(),
        tail_of(s, pos) == dec_digits(((b.len() as u64) as nat)) + (seq![':'] + b + rest),
        (seq![':'] + b + rest).len() > 0 && !is_digit((seq![':'] + b + rest)[0]),
        pos + dec_digits(b.len()).len() < s.len(),
        s[pos + dec_digits(b.len()).len()] == ':',
        pos + dec_digits(b.len()).len() + 1 + b.len() <= s.len(),
        s.subrange(
            pos + dec_digits(b.len()).len() + 1,
            pos + dec_digits(b.len()).len() + 1 + b.len(),
        ) == b,
        enc_blob(b).len() == dec_digits(b.len()).len() + 1 + b.len(),
{
    let k = dec_digits(b.len()).len() as int;
    lemma_dec_digits_are_digits(b.len());
    assert(tail_of(s, pos).len() == s.len() - pos);
    assert(b.len() <= s.len());
    assert(tail_of(s, pos) =~= dec_digits(b.len()) + (seq![':'] + b + rest));
    assert(dec_digits(((b.len() as u64) as nat)) == dec_digits(b.len()));
    assert((seq![':'] + b + rest)[0] == ':');
    assert(s[pos + k] == tail_of(s, pos)[k]);
    assert(tail_of(s, pos)[k] == (seq![':'] + b + rest)[0]);
    assert forall|j: int| 0 <= j < b.len() implies s[pos + k + 1 + j] == b[j] by {
        assert(s[pos + k + 1 + j] == tail_of(s, pos)[k + 1 + j]);
        assert(tail_of(s, pos)[k + 1 + j] == (seq![':'] + b + rest)[1 + j]);
        assert((seq![':'] + b + rest)[1 + j] == b[j]);
    }
    assert(s.subrange(pos + k + 1, pos + k + 1 + b.len()) =~= b);
}

/// Reads a field or enum name at `pos`: token characters up to an equals
/// sign, which is consumed too.
pub fn read_token(s: &str, pos: usize) -> (r: Result<(String, usize), ParseError>)
    requires
        pos <= s@.len(),
    ensures
        r matches Ok(v) ==> pos < v.1 <= s@.len(),
        forall|t: Seq<char>, rest: Seq<char>|
            #![trigger t + seq!['='] + rest]
            tail_of(s@, pos as int) == t + seq!['='] + rest && is_token(t) ==> (r matches Ok(v)
                && v.0@ == t && v.1 == pos + t.len() + 1),
{
    let len = s.unicode_len();
    let mut i = pos;
    while i < len
        invariant
            pos <= i <= len,
            len == s@.len(),
            forall|j: int| pos <= j < i ==> is_token_char(#[trigger] s@[j]),
        ensures
            pos <= i <= len,
            forall|j: int| pos <= j < i ==> is_token_char(#[trigger] s@[j]),
            i == len || !is_token_char(s@[i as int]),
        decreases len - i,
    {
        let c = s.get_char(i);
        let v = c as u32;
        if !((97 <= v && v <= 122) || v == 95) {
            break ;
        }
        i += 1;
    }
    proof {
        assert forall|t: Seq<char>, rest: Seq<char>|
            tail_of(s@, pos as int) == t + seq!['='] + rest && is_token(t) implies s@.subrange(
            pos as int,
            i as int,
        ) == t && i == pos + t.len() && i < s@.len() && s@[i as int] == '=' by {
            let k = t.len() as int;
            let tl = tail_of(s@, pos as int);
            assert(tl =~= t + (seq!['='] + rest));
            assert forall|j: int| pos <= j < pos + k implies is_token_char(s@[j]) by {
                assert(s@[j] == tl[j - pos]);
                assert(tl[j - pos] == t[j - pos]);
            }
            assert(s@[pos + k] == tl[k]);
            assert(tl[k] == '=');
            assert(i >= pos + k) by {
                if i < pos + k {
                    assert(is_token_char(s@[i as int]));
                }
            }
            assert(i <= pos + k) by {
                if i > pos + k {
                    assert(is_token_char(s@[pos + k]));
                }
            }
            assert(s@.subrange(pos as int, i as int) =~= t);
        }
    }
    if i == pos {
        return Err(ParseError::Malformed);
    }
    let tok = s.substring_char(pos, i).to_owned();
    match expect_char(s, i, '=') {
        Ok(p) => Ok((tok, p)),
        Err(e) => Err(e),
    }
}

/// Reads one `name=LEN:VALUE;` field at `pos`.
pub fn read_field(s: &str, pos: usize) -> (r: Result<((String, String), usize), ParseError>)
    requires
        pos <= s@.len(),
    ensures
        r matches Ok(v) ==> pos < v.1 <= s@.len(),
        forall|name: Seq<char>, val: Seq<char>, rest: Seq<char>|
            #![trigger enc_field(name, val) + rest]
            tail_of(s@, pos as int) == enc_field(name, val) + rest && is_token(name) ==> (
            r matches Ok(v) && v.0.0@ == name && v.0.1@ == val && v.1 == pos + enc_field(
                name,
                val,
            ).len()),
{
    let name;
    let p1;
    match read_token(s, pos) {
        Ok((t, p)) => {
            name = t;
            p1 = p;
        },
        Err(e) => {
            proof {
                assert forall|nm: Seq<char>, val: Seq<char>, rest: Seq<char>|
                    tail_of(s@, pos as int) == enc_field(nm, val) + rest && is_token(nm)
                    implies false by {
                    assert(tail_of(s@, pos as int) =~= nm + seq!['='] + (enc_blob(val)
                        + seq![';'] + rest));
                }
            }
            return Err(e);
        },
    }
    let val;
    let p2;
    match read_blob(s, p1) {
        Ok((b, p)) => {
            val = b;
            p2 = p;
        },
        Err(e) => {
            proof {
                assert forall|nm: Seq<char>, vl: Seq<char>, rest: Seq<char>|
                    tail_of(s@, pos as int) == enc_field(nm, vl) + rest && is_token(nm)
                    implies false by {
                    assert(tail_of(s@, pos as int) =~= (nm + seq!['=']) + (enc_blob(vl) + (
                    seq![';'] + rest)));
                    lemma_tail_shift(s@, pos as int, nm + seq!['='], enc_blob(vl) + (seq![';']
                        + rest));
                    assert(p1 == pos + nm.len() + 1);
                }
            }
            return Err(e);
        },
    }
    match expect_char(s, p2, ';') {
        Ok(p3) => {
            proof {
                assert forall|nm: Seq<char>, vl: Seq<char>, rest: Seq<char>|
                    tail_of(s@, pos as int) == enc_field(nm, vl) + rest && is_token(nm)
                    implies name@ == nm && val@ == vl && p3 == pos + enc_field(nm, vl).len() by {
                    assert(tail_of(s@, pos as int) =~= (nm + seq!['=']) + (enc_blob(vl) + (
                    seq![';'] + rest)));
                    lemma_tail_shift(s@, pos as int, nm + seq!['='], enc_blob(vl) + (seq![';']
                        + rest));
                    assert(p1 == pos + nm.len() + 1);
                    assert(p2 == p1 + enc_blob(vl).len());
                    lemma_tail_shift(s@, p1 as int, enc_blob(vl), seq![';'] + rest);
                }
            }
            Ok(((name, val), p3))
        },
        Err(e) => {
            proof {
                assert forall|nm: Seq<char>, vl: Seq<char>, rest: Seq<char>|
                    tail_of(s@, pos as int) == enc_field(nm, vl) + rest && is_token(nm)
                    implies false by {
                    assert(tail_of(s@, pos as int) =~= (nm + seq!['=']) + (enc_blob(vl) + (
                    seq![';'] + rest)));
                    lemma_tail_shift(s@, pos as int, nm + seq!['='], enc_blob(vl) + (seq![';']
                        + rest));
                    assert(p1 == pos + nm.len() + 1);
                    assert(p2 == p1 + enc_blob(vl).len());
                    lemma_tail_shift(s@, p1 as int, enc_blob(vl), seq![';'] + rest);
                    assert(tail_of(s@, p2 as int)[0] == s@[p2 as int]);
                    assert((seq![';'] + rest)[0] == ';');
                }
            }
            Err(e)
        },
    }
}

/// Reads fields from `pos` to the end of the text, appending each to `out`.
pub fn parse_record_into(s: &str, pos: usize, out: &mut Vec<(String, String)>) -> (r: Result<
    (),
    ParseError,
>)
    requires
        pos <= s@.len(),
    ensures
        forall|fields: Seq<(Seq<char>, Seq<char>)>|
            #![trigger enc_record(fields)]
            tail_of(s@, pos as int) == enc_record(fields) && wf_fields(fields) ==> r is Ok
                && fields_view(final(out)@) == fields_view(old(out)@) + fields,
    decreases s@.len() - pos,
{
    let len = s.unicode_len();
    if pos == len {
        proof {
            assert forall|fields: Seq<(Seq<char>, Seq<char>)>|
                tail_of(s@, pos as int) == enc_record(fields) && wf_fields(fields)
                implies fields_view(out@) == fields_view(out@) + fields by {
                assert(tail_of(s@, pos as int).len() == 0);
                if fields.len() > 0 {
                    assert(enc_record(fields).len() >= enc_field(fields[0].0, fields[0].1).len());
                }
                assert(fields =~= Seq::<(Seq<char>, Seq<char>)>::empty());
                assert(fields_view(out@) + fields =~= fields_view(out@));
            }
        }
        return Ok(());
    }
    match read_field(s, pos) {
        Ok((f, p)) => {
            out.push(f);
            let ghost mid = out@;
            let r = parse_record_into(s, p, out);
            proof {
                assert forall|fields: Seq<(Seq<char>, Seq<char>)>|
                    tail_of(s@, pos as int) == enc_record(fields) && wf_fields(fields) implies r
                    is Ok && fields_view(final(out)@) == fields_view(old(out)@) + fields by {
                    assert(tail_of(s@, pos as int).len() > 0);
                    assert(fields.len() > 0);
                    let f0 = fields[0];
                    let rest_fields = fields.drop_first();
                    assert(tail_of(s@, pos as int) =~= enc_field(f0.0, f0.1) + enc_record(
                        rest_fields,
                    ));
                    assert(is_token(f0.0));
                    // the field read matches fields[0]
                    assert(p == pos + enc_field(f0.0, f0.1).len());
                    lemma_tail_shift(s@, pos as int, enc_field(f0.0, f0.1), enc_record(
                        rest_fields,
                    ));
                    assert(wf_fields(rest_fields)) by {
                        assert forall|i: int| 0 <= i < rest_fields.len() implies is_token(
                            #[trigger] rest_fields[i].0,
                        ) by {
                            assert(rest_fields[i] == fields[i + 1]);
                        }
                    }
                    assert(fields_view(final(out)@) == fields_view(mid) + rest_fields);
                    assert(fields_view(mid) =~= fields_view(old(out)@).push((f.0@, f.1@)));
                    assert(fields_view(final(out)@) =~= fields_view(old(out)@) + fields);
                }
            }
            r
        },
        Err(e) => {
            proof {
                assert forall|fields: Seq<(Seq<char>, Seq<char>)>|
                    tail_of(s@, pos as int) == enc_record(fields) && wf_fields(fields)
                    implies false by {
                    assert(tail_of(s@, pos as int).len() > 0);
                    assert(fields.len() > 0);
                    let f0 = fields[0];
                    assert(tail_of(s@, pos as int) =~= enc_field(f0.0, f0.1) + enc_record(
                        fields.drop_first(),
                    ));
                    assert(is_token(f0.0));
                }
            }
            Err(e)
        },
    }
}

/// Reads `k` length-prefixed blobs from `pos`, appending each to `out`, and
/// hands back the position after the last one.
pub fn parse_blobs(s: &str, pos: usize, k: u64, out: &mut Vec<String>) -> (r: Result<
    usize,
    ParseError,
>)
    requires
        pos <= s@.len(),
    ensures
        r matches Ok(p) ==> pos <= p <= s@.len(),
        forall|elems: Seq<Seq<char>>, rest: Seq<char>|
            #![trigger cat_blobs(elems) + rest]
            elems.len() == k && tail_of(s@, pos as int) == cat_blobs(elems) + rest ==> (
            r matches Ok(p) && p == pos + cat_blobs(elems).len() && strs_view(final(out)@)
                == strs_view(old(out)@) + elems),
    decreases k,
{
    if k == 0 {
        proof {
            assert forall|elems: Seq<Seq<char>>, rest: Seq<char>|
                elems.len() == k && tail_of(s@, pos as int) == cat_blobs(elems) + rest
                implies pos == pos + cat_blobs(elems).len() && strs_view(out@) == strs_view(out@)
                + elems by {
                assert(elems =~= Seq::<Seq<char>>::empty());
                assert(strs_view(out@) + elems =~= strs_view(out@));
            }
        }
        return Ok(pos);
    }
    match read_blob(s, pos) {
        Ok((b, p)) => {
            out.push(b);
            let ghost mid = out@;
            let r = parse_blobs(s, p, k - 1, out);
            proof {
                assert forall|elems: Seq<Seq<char>>, rest: Seq<char>|
                    elems.len() == k && tail_of(s@, pos as int) == cat_blobs(elems) + rest
                    implies r matches Ok(pp) && pp == pos + cat_blobs(elems).len() && strs_view(
                    final(out)@,
                ) == strs_view(old(out)@) + elems by {
                    let e0 = elems[0];
                    let rest_elems = elems.drop_first();
                    assert(tail_of(s@, pos as int) =~= enc_blob(e0) + (cat_blobs(rest_elems)
                        + rest));
                    assert(p == pos + enc_blob(e0).len());
                    lemma_tail_shift(s@, pos as int, enc_blob(e0), cat_blobs(rest_elems) + rest);
                    assert(strs_view(final(out)@) == strs_view(mid) + rest_elems);
                    assert(strs_view(mid) =~= strs_view(old(out)@).push(b@));
                    assert(strs_view(final(out)@) =~= strs_view(old(out)@) + elems);
                }
            }
            r
        },
        Err(e) => {
            proof {
                assert forall|elems: Seq<Seq<char>>, rest: Seq<char>|
                    elems.len() == k && tail_of(s@, pos as int) == cat_blobs(elems) + rest
                    implies false by {
                    assert(tail_of(s@, pos as int) =~= enc_blob(elems[0]) + (cat_blobs(
                        elems.drop_first(),
                    ) + rest));
                }
            }
            Err(e)
        },
    }
}

/// Parses a whole text as a record and hands its fields back.
pub fn parse_record(s: &str) -> (r: Result<Vec<(String, String)>, ParseError>)
    ensures
        forall|fields: Seq<(Seq<char>, Seq<char>)>|
            #![trigger enc_record(fields)]
            s@ == enc_record(fields) && wf_fields(fields) ==> (r matches Ok(v) && fields_view(
                v@,
            ) == fields),
{
    let mut out: Vec<(String, String)> = Vec::new();
    let r = parse_record_into(s, 0, &mut out);
    proof {
        assert(tail_of(s@, 0) =~= s@);
    }
    match r {
        Ok(()) => {
            proof {
                assert forall|fields: Seq<(Seq<char>, Seq<char>)>|
                    s@ == enc_record(fields) && wf_fields(fields) implies fields_view(out@)
                    == fields by {
                    assert(fields_view(Seq::<(String, String)>::empty()) + fields =~= fields);
                }
            }
            Ok(out)
        },
        Err(e) => {
            proof {
                assert forall|fields: Seq<(Seq<char>, Seq<char>)>|
                    s@ == enc_record(fields) && wf_fields(fields) implies false by {
                    assert(fields_view(Seq::<(String, String)>::empty()) + fields =~= fields);
                }
            }
            Err(e)
        },
    }
}

/// Parses a whole text as a list and hands its elements back, still encoded.
pub fn parse_list(s: &str) -> (r: Result<Vec<String>, ParseError>)
    ensures
        forall|elems: Seq<Seq<char>>|
            #![trigger enc_list(elems)]
            s@ == enc_list(elems) ==> (r matches Ok(v) && strs_view(v@) == elems),
{
    let len = s.unicode_len();
    let count;
    let p1;
    match read_digits(s, 0) {
        Ok((n, p)) => {
            count = n;
            p1 = p;
        },
        Err(e) => {
            proof {
                assert forall|elems: Seq<Seq<char>>| s@ == enc_list(elems) implies false by {
                    list_decomp(s@, elems);
                }
            }
            return Err(e);
        },
    }
    let p2;
    match expect_char(s, p1, ';') {
        Ok(p) => {
            p2 = p;
        },
        Err(e) => {
            proof {
                assert forall|elems: Seq<Seq<char>>| s@ == enc_list(elems) implies false by {
                    list_decomp(s@, elems);
                    assert(p1 == dec_digits(elems.len()).len());
                }
            }
            return Err(e);
        },
    }
    let mut out: Vec<String> = Vec::new();
    match parse_blobs(s, p2, count, &mut out) {
        Ok(pend) => {
            if pend != len {
                proof {
                    assert forall|elems: Seq<Seq<char>>| s@ == enc_list(elems) implies false by {
                        list_decomp(s@, elems);
                        assert(p1 == dec_digits(elems.len()).len());
                        assert(count == elems.len());
                        assert(tail_of(s@, p2 as int) == cat_blobs(elems) + Seq::<char>::empty())
                            by {
                            assert(cat_blobs(elems) + Seq::<char>::empty() =~= cat_blobs(elems));
                        }
                        assert(pend == p2 + cat_blobs(elems).len());
                        assert(tail_of(s@, p2 as int).len() == s@.len() - p2);
                    }
                }
                return Err(ParseError::Malformed);
            }
            proof {
                assert forall|elems: Seq<Seq<char>>| s@ == enc_list(elems) implies strs_view(out@)
                    == elems by {
                    list_decomp(s@, elems);
                    assert(p1 == dec_digits(elems.len()).len());
                    assert(count == elems.len());
                    assert(tail_of(s@, p2 as int) == cat_blobs(elems) + Seq::<char>::empty()) by {
                        assert(cat_blobs(elems) + Seq::<char>::empty() =~= cat_blobs(elems));
                    }
                    assert(strs_view(Seq::<String>::empty()) + elems =~= elems);
                }
            }
            Ok(out)
        },
        Err(e) => {
            proof {
                assert forall|elems: Seq<Seq<char>>| s@ == enc_list(elems) implies false by {
                    list_decomp(s@, elems);
                    assert(p1 == dec_digits(elems.len()).len());
                    assert(count == elems.len());
                    assert(tail_of(s@, p2 as int) == cat_blobs(elems) + Seq::<char>::empty()) by {
                        assert(cat_blobs(elems) + Seq::<char>::empty() =~= cat_blobs(elems));
                    }
                }
            }
            Err(e)
        },
    }
}

/// How a list encoding decomposes: the count digits, the semicolon, the
/// concatenated blobs.
proof fn list_decomp(s: Seq<char>, elems: Seq<Seq<char>>)
    requires
        s == enc_list(elems),
        s.len() <= u64::MAX,
    ensures
        elems.len() <= u64::MAX,
        (elems.len() as u64) as nat == elems.len(),
        tail_of(s, 0) == dec_digits(((elems.len() as u64) as nat)) + (seq![';'] + cat_blobs(
            elems,
        )),
        (seq![';'] + cat_blobs(elems)).len() > 0 && !is_digit((seq![';'] + cat_blobs(elems))[0]),
        dec_digits(elems.len()).len() < s.len(),
        s[dec_digits(elems.len()).len() as int] == ';',
        tail_of(s, dec_digits(elems.len()).len() as int + 1) == cat_blobs(elems),
{
    let k = dec_digits(elems.len()).len() as int;
    lemma_cat_blobs_len(elems);
    lemma_dec_digits_are_digits(elems.len());
    assert(tail_of(s, 0) =~= dec_digits(elems.len()) + (seq![';'] + cat_blobs(elems)));
    assert(dec_digits(((elems.len() as u64) as nat)) == dec_digits(elems.len()));
    assert((seq![';'] + cat_blobs(elems))[0] == ';');
    assert(s[k] == tail_of(s, 0)[k]);
    assert(tail_of(s, 0)[k] == (seq![';'] + cat_blobs(elems))[0]);
    assert(tail_of(s, 0) =~= (dec_digits(elems.len()) + seq![';']) + cat_blobs(elems));
    lemma_tail_shift(s, 0, dec_digits(elems.len()) + seq![';'], cat_blobs(elems));
}

/// Each element contributes at least its own length to the blob run.
proof fn lemma_cat_blobs_len(elems: Seq<Seq<char>>)
    ensures
        cat_blobs(elems).len() >= elems.len(),
    decreases elems.len(),
{
    if elems.len() > 0 {
        lemma_dec_digits_are_digits(elems[0].len());
        lemma_cat_blobs_len(elems.drop_first());
    }
}

/// Looks a field up by name; the first occurrence wins.
pub fn field_get<'a>(fields: &'a Vec<(String, String)>, name: &str) -> (r: Option<&'a String>)
    ensures
        match r {
            Some(v) => spec_field_get(fields_view(fields@), name@) == Some(v@),
            None => spec_field_get(fields_view(fields@), name@) is None,
        },
{
    proof {
        assert(fields_view(fields@).skip(0) =~= fields_view(fields@));
    }
    let mut i: usize = 0;
    while i < fields.len()
        invariant
            0 <= i <= fields@.len(),
            forall|j: int| 0 <= j < i ==> fields_view(fields@)[j].0 != name@,
            spec_field_get(fields_view(fields@), name@) == spec_field_get(
                fields_view(fields@).skip(i as int),
                name@,
            ),
        decreases fields@.len() - i,
    {
        if str_eq(fields[i].0.as_str(), name) {
            proof {
                assert(fields_view(fields@).skip(i as int)[0] == (fields@[i as int].0@, fields@[
                    i as int].1@));
            }
            return Some(&fields[i].1);
        }
        proof {
            assert(fields_view(fields@).skip(i as int)[0] == (fields@[i as int].0@, fields@[
                i as int].1@));
            assert(fields_view(fields@).skip(i as int).drop_first() =~= fields_view(
                fields@,
            ).skip(i + 1));
        }
        i += 1;
    }
    proof {
        assert(fields_view(fields@).skip(i as int).len() == 0);
    }
    None
}

/// Character-for-character equality of two text slices.
pub fn str_eq(a: &str, b: &str) -> (r: bool)
    ensures
        r == (a@ == b@),
{
    let alen = a.unicode_len();
    let blen = b.unicode_len();
    if alen != blen {
        return false;
    }
    let mut i: usize = 0;
    while i < alen
        invariant
            alen == a@.len(),
            alen == b@.len(),
            0 <= i <= alen,
            forall|j: int| 0 <= j < i ==> a@[j] == b@[j],
        decreases alen - i,
    {
        if a.get_char(i) != b.get_char(i) {
            return false;
        }
        i += 1;
    }
    proof {
        assert(a@ =~= b@);
    }
    true
}

} // verus!

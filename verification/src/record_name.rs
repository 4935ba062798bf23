//! The name codec: a textual domain name to and from its wire form of
//! length-prefixed labels, including RFC 1035 section 4.1.4 compression
//! pointers on the decode side.

use crate::cursor::Cursor;
use crate::errors::DnsError;
use crate::text::{ascii_bytes_of, bytes_are_utf8, lemma_ascii_bytes_utf8, lemma_ascii_chars_bytes};
use vstd::prelude::*;
use vstd::string::StrSliceExecFns;
use vstd::utf8::{is_ascii_chars, valid_utf8};

verus! {

/// The longest literal label the wire format can carry: length bytes above
/// this value have flag bits set.
pub const MAX_LABEL_LEN: usize = 63;

/// The longest encoded name the wire format allows, terminator included.
pub const MAX_NAME_LEN: usize = 255;

/// How many compression pointers the decoder follows for one name before it
/// fails closed; guards against pointer cycles in hostile messages.
pub const MAX_POINTER_HOPS: u8 = 64;

/// The byte that separates labels in a textual name.
pub const DOT: u8 = 46;

/// A textual domain name, to be encoded for the wire.
pub struct RecordName<'a> {
    pub name: &'a str,
}

// ---------------------------------------------------------------------------
// Text-side model: labels of a dotted name.
// ---------------------------------------------------------------------------
/// The position of the first dot at or after `from`, or the length of `s`
/// when no dot follows.
pub open spec fn first_dot_from(s: Seq<u8>, from: int) -> int
    decreases s.len() - from,
{
    if from < 0 || from >= s.len() {
        s.len() as int
    } else if s[from] == DOT {
        from
    } else {
        first_dot_from(s, from + 1)
    }
}

pub proof fn lemma_first_dot_from_bounds(s: Seq<u8>, from: int)
    requires
        0 <= from <= s.len(),
    ensures
        from <= first_dot_from(s, from) <= s.len(),
        first_dot_from(s, from) < s.len() ==> s[first_dot_from(s, from)] == DOT,
        forall|j: int| from <= j < first_dot_from(s, from) ==> s[j] != DOT,
    decreases s.len() - from,
{
    if from < s.len() && s[from] != DOT {
        lemma_first_dot_from_bounds(s, from + 1);
    }
}

/// A scan that stopped at `i` without seeing a dot found the first dot.
pub proof fn lemma_first_dot_from_scan(s: Seq<u8>, from: int, i: int)
    requires
        0 <= from <= i <= s.len(),
        forall|j: int| from <= j < i ==> s[j] != DOT,
        i == s.len() || s[i] == DOT,
    ensures
        first_dot_from(s, from) == i,
    decreases i - from,
{
    if from < i {
        lemma_first_dot_from_scan(s, from + 1, i);
    }
}

/// Labels joined back into a dotted name.
pub open spec fn join_dots(parts: Seq<Seq<u8>>) -> Seq<u8>
    decreases parts.len(),
{
    if parts.len() == 0 {
        seq![]
    } else if parts.len() == 1 {
        parts[0]
    } else {
        parts[0] + seq![DOT] + join_dots(parts.drop_first())
    }
}

/// The name from `from` onward consists of non-empty dot-separated labels,
/// each short enough for the wire format.
pub open spec fn wf_labels_from(s: Seq<u8>, from: int) -> bool
    decreases s.len() - from,
    via wf_labels_from_decreases
{
    let i = first_dot_from(s, from);
    &&& i > from
    &&& i - from <= MAX_LABEL_LEN
    &&& (i < s.len() ==> wf_labels_from(s, i + 1))
}

#[via_fn]
proof fn wf_labels_from_decreases(s: Seq<u8>, from: int) {
    if 0 <= from <= s.len() {
        lemma_first_dot_from_bounds(s, from);
    }
}

// ---------------------------------------------------------------------------
// Wire-side model: encoding.
// ---------------------------------------------------------------------------
/// The wire bytes for the labels of `s` from `from` onward (without the
/// terminating zero byte): each non-empty label becomes a length byte and the
/// label's bytes, and an over-long label is the first encoding error.
pub open spec fn spec_encode_from(s: Seq<u8>, from: int) -> Result<Seq<u8>, DnsError>
    decreases s.len() - from,
    via spec_encode_from_decreases
{
    let i = first_dot_from(s, from);
    let part = s.subrange(from, i);
    let head: Seq<u8> = if part.len() == 0 {
        seq![]
    } else {
        seq![part.len() as u8] + part
    };
    if part.len() > MAX_LABEL_LEN {
        Err(DnsError::LabelTooLong)
    } else if i >= s.len() {
        Ok(head)
    } else {
        match spec_encode_from(s, i + 1) {
            Err(e) => Err(e),
            Ok(rest) => Ok(head + rest),
        }
    }
}

#[via_fn]
proof fn spec_encode_from_decreases(s: Seq<u8>, from: int) {
    if 0 <= from <= s.len() {
        lemma_first_dot_from_bounds(s, from);
    }
}

/// The full encoding of a textual name: reject non-ASCII text, encode the
/// labels, bound the total length, and add the terminator.
pub open spec fn spec_encode_name(name: Seq<char>) -> Result<Seq<u8>, DnsError> {
    if !is_ascii_chars(name) {
        Err(DnsError::InvalidByteInName)
    } else {
        match spec_encode_from(ascii_bytes_of(name), 0) {
            Err(e) => Err(e),
            Ok(w) => {
                if w.len() + 1 > MAX_NAME_LEN {
                    Err(DnsError::NameTooLong)
                } else {
                    Ok(w.push(0u8))
                }
            },
        }
    }
}

impl<'a> RecordName<'a> {
    /// Encode the name into its wire form: one length byte and the label's
    /// bytes for each non-empty dot-separated label, then a zero terminator.
    /// Fails on non-ASCII text, on a label over 63 bytes, and on a total
    /// encoding over 255 bytes.
    pub fn encode(&self) -> (r: Result<Vec<u8>, DnsError>)
        ensures
            match spec_encode_name(self.name@) {
                Ok(w) => r is Ok && r.unwrap()@ == w,
                Err(e) => r == Err::<Vec<u8>, DnsError>(e),
            },
    {
        if !self.name.is_ascii() {
            return Err(DnsError::InvalidByteInName);
        }
        let bytes: Vec<u8> = self.name.as_bytes_vec();
        proof {
            vstd::string::is_ascii_spec_bytes(self.name);
            lemma_ascii_chars_bytes(self.name@);
            assert(bytes@ =~= ascii_bytes_of(self.name@));
        }
        match encode_labels(&bytes, 0) {
            Err(e) => Err(e),
            Ok(mut w) => {
                if w.len() >= MAX_NAME_LEN {
                    Err(DnsError::NameTooLong)
                } else {
                    w.push(0u8);
                    Ok(w)
                }
            },
        }
    }
}

// ---------------------------------------------------------------------------
// Wire-side model: decoding.
// ---------------------------------------------------------------------------
/// The labels of the name at `pos` in the message `data`, following at most
/// `hops` compression pointers, and the position just past the name. A zero
/// byte ends the name; a byte with both top bits set starts a two-byte
/// pointer, whose target decodes into one final (already joined) label; a
/// byte in `1..=63` prefixes a literal label; any other length byte is
/// reserved and rejected.
pub open spec fn spec_read_parts(data: Seq<u8>, pos: int, hops: int) -> Result<
    (Seq<Seq<u8>>, int),
    DnsError,
>
    decreases hops, data.len() - pos,
{
    if pos < 0 || pos >= data.len() {
        Err(DnsError::ReadLength)
    } else {
        let b = data[pos];
        if b == 0 {
            Ok((seq![], pos + 1))
        } else if b >= 0xC0 {
            if pos + 2 > data.len() {
                Err(DnsError::DecompressReadByte)
            } else {
                let off = (b - 0xC0) * 0x100 + data[pos + 1];
                if off > data.len() {
                    Err(DnsError::DecompressSkip)
                } else if hops <= 0 {
                    Err(DnsError::DecompressTooDeep)
                } else {
                    match spec_read_parts(data, off as int, hops - 1) {
                        Err(e) => Err(e),
                        Ok((nested, _)) => {
                            let text = join_dots(nested);
                            if valid_utf8(text) {
                                Ok((seq![text], pos + 2))
                            } else {
                                Err(DnsError::InvalidByteInName)
                            }
                        },
                    }
                }
            }
        } else if b <= 63 {
            if pos + 1 + b > data.len() {
                Err(DnsError::ReadByte)
            } else {
                let label = data.subrange(pos + 1, pos + 1 + b);
                if !valid_utf8(label) {
                    Err(DnsError::InvalidByteInName)
                } else {
                    match spec_read_parts(data, pos + 1 + b, hops) {
                        Err(e) => Err(e),
                        Ok((rest, end)) => Ok((seq![label] + rest, end)),
                    }
                }
            }
        } else {
            Err(DnsError::InvalidLabelLength)
        }
    }
}

/// The decoded text of the name at `pos`: its labels joined with dots, and
/// the position just past the name.
pub open spec fn spec_read_name(data: Seq<u8>, pos: int) -> Result<(Seq<u8>, int), DnsError> {
    match spec_read_parts(data, pos, MAX_POINTER_HOPS as int) {
        Ok((parts, end)) => Ok((join_dots(parts), end)),
        Err(e) => Err(e),
    }
}

/// Appending one label to a joined name adds a dot and the label, unless the
/// name was empty.
pub proof fn lemma_join_dots_push(parts: Seq<Seq<u8>>, x: Seq<u8>)
    ensures
        join_dots(parts.push(x)) == if parts.len() == 0 {
            x
        } else {
            join_dots(parts) + seq![DOT] + x
        },
    decreases parts.len(),
{
    if parts.len() == 0 {
        assert(parts.push(x) =~= seq![x]);
        assert(join_dots(seq![x]) == x);
    } else {
        assert(parts.push(x).drop_first() =~= parts.drop_first().push(x));
        lemma_join_dots_push(parts.drop_first(), x);
    }
}

impl<'a> RecordName<'a> {
    /// Decode the name at the cursor. On success the cursor rests just past
    /// the name (just past the terminator or the pointer); the message buffer
    /// it reads from never changes.
    pub fn read_and_advance(cursor: &mut Cursor) -> (r: Result<Vec<u8>, DnsError>)
        ensures
            final(cursor).spec_data() == old(cursor).spec_data(),
            match spec_read_name(old(cursor).spec_data(), old(cursor).spec_pos()) {
                Ok((text, end)) => {
                    &&& r is Ok
                    &&& r.unwrap()@ == text
                    &&& final(cursor).spec_pos() == end
                },
                Err(e) => r == Err::<Vec<u8>, DnsError>(e),
            },
    {
        match read_parts(cursor, MAX_POINTER_HOPS) {
            Err(e) => Err(e),
            Ok(parts) => Ok(join_parts(&parts)),
        }
    }
}

/// The labels of the name at the cursor, as `spec_read_parts` describes them.
fn read_parts(cursor: &mut Cursor, hops: u8) -> (r: Result<Vec<Vec<u8>>, DnsError>)
    ensures
        final(cursor).spec_data() == old(cursor).spec_data(),
        match spec_read_parts(old(cursor).spec_data(), old(cursor).spec_pos(), hops as int) {
            Ok((parts, end)) => {
                &&& r is Ok
                &&& r.unwrap().deep_view() == parts
                &&& final(cursor).spec_pos() == end
            },
            Err(e) => r == Err::<Vec<Vec<u8>>, DnsError>(e),
        },
    decreases hops as int, cursor.spec_data().len() - cursor.spec_pos(),
{
    let ghost data = cursor.spec_data();
    let ghost pos0 = cursor.spec_pos();
    let b = match cursor.read_u8() {
        None => {
            return Err(DnsError::ReadLength);
        },
        Some(b) => b,
    };
    if b == 0 {
        let out: Vec<Vec<u8>> = Vec::new();
        proof {
            assert(out.deep_view() =~~= Seq::<Seq<u8>>::empty());
        }
        Ok(out)
    } else if b >= 0xC0 {
        let b2 = match cursor.read_u8() {
            None => {
                return Err(DnsError::DecompressReadByte);
            },
            Some(x) => x,
        };
        let off: usize = ((b - 0xC0) as usize) * 0x100 + (b2 as usize);
        if off > cursor.data.len() {
            return Err(DnsError::DecompressSkip);
        }
        if hops == 0 {
            return Err(DnsError::DecompressTooDeep);
        }
        let saved = cursor.position();
        cursor.set_position(off);
        let nested = match read_parts(cursor, hops - 1) {
            Err(e) => {
                return Err(e);
            },
            Ok(v) => v,
        };
        cursor.set_position(saved);
        let text = join_parts(&nested);
        if bytes_are_utf8(text.as_slice()) {
            let mut out: Vec<Vec<u8>> = Vec::new();
            out.push(text);
            proof {
                assert(out.deep_view() =~~= seq![join_dots(nested.deep_view())]);
            }
            Ok(out)
        } else {
            Err(DnsError::InvalidByteInName)
        }
    } else if b <= 63 {
        let label = match cursor.read_bytes(b as usize) {
            None => {
                return Err(DnsError::ReadByte);
            },
            Some(v) => v,
        };
        if !bytes_are_utf8(label.as_slice()) {
            return Err(DnsError::InvalidByteInName);
        }
        let ghost label_view = label@;
        let mut rest = match read_parts(cursor, hops) {
            Err(e) => {
                return Err(e);
            },
            Ok(v) => v,
        };
        let ghost rest_view = rest.deep_view();
        let mut out: Vec<Vec<u8>> = Vec::new();
        out.push(label);
        out.append(&mut rest);
        proof {
            assert(out.deep_view() =~~= seq![label_view] + rest_view);
        }
        Ok(out)
    } else {
        Err(DnsError::InvalidLabelLength)
    }
}

/// The labels joined with dots, as `join_dots` describes.
fn join_parts(parts: &Vec<Vec<u8>>) -> (r: Vec<u8>)
    ensures
        r@ == join_dots(parts.deep_view()),
{
    let mut out: Vec<u8> = Vec::new();
    let mut i: usize = 0;
    while i < parts.len()
        invariant
            i <= parts@.len(),
            parts.deep_view().len() == parts@.len(),
            out@ == join_dots(parts.deep_view().take(i as int)),
        decreases parts@.len() - i,
    {
        if i > 0 {
            out.push(DOT);
        }
        out.extend_from_slice(parts[i].as_slice());
        proof {
            let dv = parts.deep_view();
            lemma_join_dots_push(dv.take(i as int), dv[i as int]);
            assert(dv.take(i as int + 1) =~= dv.take(i as int).push(dv[i as int]));
            assert(dv[i as int] == parts@[i as int]@);
        }
        i = i + 1;
    }
    proof {
        assert(parts.deep_view().take(parts@.len() as int) =~= parts.deep_view());
    }
    out
}

// ---------------------------------------------------------------------------
// Round-trip laws.
// ---------------------------------------------------------------------------
/// A successfully decoded name has valid UTF-8 text: every label passed the
/// byte check, and the dots between them are ASCII.
pub proof fn lemma_read_parts_utf8(data: Seq<u8>, pos: int, hops: int)
    ensures
        spec_read_parts(data, pos, hops) matches Ok((parts, end)) ==> valid_utf8(
            join_dots(parts),
        ),
    decreases hops, data.len() - pos,
{
    if 0 <= pos < data.len() {
        let b = data[pos];
        if b == 0 {
            assert(valid_utf8(Seq::<u8>::empty()));
        } else if b >= 0xC0 {
            // The pointer branch returns the nested text only after checking
            // it, so there is nothing more to prove.
        } else if b <= 63 {
            if pos + 1 + b <= data.len() {
                let label = data.subrange(pos + 1, pos + 1 + b);
                if valid_utf8(label) {
                    lemma_read_parts_utf8(data, pos + 1 + b, hops);
                    match spec_read_parts(data, pos + 1 + b, hops) {
                        Err(_) => (),
                        Ok((rest, _)) => {
                            let parts = seq![label] + rest;
                            if rest.len() == 0 {
                                assert(parts.len() == 1);
                                assert(join_dots(parts) == label);
                            } else {
                                assert(parts.drop_first() =~= rest);
                                lemma_ascii_bytes_utf8(seq![DOT]);
                                vstd::utf8::valid_utf8_concat(label, seq![DOT]);
                                vstd::utf8::valid_utf8_concat(label + seq![DOT], join_dots(rest));
                                assert((label + seq![DOT]) + join_dots(rest) =~= label + seq![DOT]
                                    + join_dots(rest));
                            }
                        },
                    }
                }
            }
        }
    }
}

/// Name decoding fails only with a decode-error kind: never with a
/// transport, encoding or resolution-level error.
pub proof fn lemma_read_parts_error_kind(data: Seq<u8>, pos: int, hops: int)
    ensures
        spec_read_parts(data, pos, hops) matches Err(e) ==> crate::errors::is_decode_error(e),
    decreases hops, data.len() - pos,
{
    if 0 <= pos < data.len() {
        let b = data[pos];
        if b >= 0xC0 {
            if pos + 2 <= data.len() {
                let off = (b - 0xC0) * 0x100 + data[pos + 1];
                if off <= data.len() && hops > 0 {
                    lemma_read_parts_error_kind(data, off as int, hops - 1);
                }
            }
        } else if 1 <= b <= 63 {
            if pos + 1 + b <= data.len() {
                lemma_read_parts_error_kind(data, pos + 1 + b, hops);
            }
        }
    }
}

/// Decoding the wire labels of the name `s` from `from` onward, written at
/// `pos` and followed by a terminator, yields exactly those labels, whose
/// joined text is the tail of `s`.
proof fn lemma_decode_encoded_labels(data: Seq<u8>, pos: int, s: Seq<u8>, from: int, hops: int)
    requires
        0 <= from <= s.len(),
        forall|k: int| 0 <= k < s.len() ==> s[k] < 128,
        wf_labels_from(s, from),
        spec_encode_from(s, from) is Ok,
        0 <= pos,
        pos + spec_encode_from(s, from).unwrap().len() + 1 <= data.len(),
        data.subrange(pos, pos + spec_encode_from(s, from).unwrap().len() + 1)
            == spec_encode_from(s, from).unwrap() + seq![0u8],
        hops >= 0,
    ensures
        spec_read_parts(data, pos, hops) matches Ok((parts, end)) && parts.len() >= 1
            && join_dots(parts) == s.subrange(from, s.len() as int) && end == pos
            + spec_encode_from(s, from).unwrap().len() + 1,
    decreases s.len() - from,
{
    lemma_first_dot_from_bounds(s, from);
    let i = first_dot_from(s, from);
    let part = s.subrange(from, i);
    let w = spec_encode_from(s, from).unwrap();
    let ext = w + seq![0u8];
    assert(forall|k: int|
        0 <= k < ext.len() ==> data[pos + k] == #[trigger] ext[k]) by {
        assert(forall|k: int|
            0 <= k < ext.len() ==> data.subrange(pos, pos + w.len() + 1)[k] == #[trigger] ext[k]);
    }
    assert(1 <= part.len() <= 63);
    let head = seq![part.len() as u8] + part;
    assert(forall|k: int| 0 <= k < head.len() ==> #[trigger] w[k] == head[k]) by {
        if i < s.len() {
            assert(w == head + spec_encode_from(s, i + 1).unwrap());
        }
    }
    assert(w.len() >= head.len());
    assert(data[pos] == part.len() as u8) by {
        assert(ext[0] == data[pos + 0]);
        assert(ext[0] == w[0]);
        assert(w[0] == head[0]);
    }
    let b = data[pos];
    assert(1 <= b <= 63);
    assert(pos + 1 + b <= data.len());
    let label = data.subrange(pos + 1, pos + 1 + b);
    assert forall|k: int| 0 <= k < part.len() implies label[k] == part[k] by {
        assert(ext[1 + k] == data[pos + (1 + k)]);
        assert(ext[1 + k] == w[1 + k]);
        assert(w[1 + k] == head[1 + k]);
        assert(head[1 + k] == part[k]);
    }
    assert(label =~= part);
    assert(forall|k: int| 0 <= k < part.len() ==> part[k] < 128);
    lemma_ascii_bytes_utf8(part);
    let pos2 = pos + 1 + b;
    if i >= s.len() {
        // Last label: the terminator follows it.
        assert(w == head);
        assert(data[pos2] == ext[w.len() as int]);
        assert(data[pos2] == 0);
        assert(spec_read_parts(data, pos2, hops) == Ok::<(Seq<Seq<u8>>, int), DnsError>(
            (seq![], pos2 + 1),
        ));
        let parts = seq![label] + seq![];
        assert(parts =~= seq![part]);
        assert(join_dots(parts) == part);
        assert(part =~= s.subrange(from, s.len() as int));
        assert(spec_read_parts(data, pos, hops) matches Ok((p2, e2)) && p2 == parts && e2 == pos2
            + 1);
    } else {
        // More labels follow the dot at `i`.
        let rest_w = spec_encode_from(s, i + 1).unwrap();
        assert(w == head + rest_w);
        assert forall|k: int|
            0 <= k < rest_w.len() + 1 implies data.subrange(pos2, pos2 + rest_w.len() + 1)[k] == (
            rest_w + seq![0u8])[k] by {
            let m = head.len() as int + k;
            assert(data[pos + m] == ext[m]);
            assert(ext == (head + rest_w) + seq![0u8]);
            assert(((head + rest_w) + seq![0u8])[m] == (rest_w + seq![0u8])[k]);
            assert(data.subrange(pos2, pos2 + rest_w.len() + 1)[k] == data[pos2 + k]);
            assert(data[pos2 + k] == data[pos + m]);
        }
        assert(data.subrange(pos2, pos2 + rest_w.len() + 1) =~= rest_w + seq![0u8]);
        lemma_decode_encoded_labels(data, pos2, s, i + 1, hops);
        match spec_read_parts(data, pos2, hops) {
            Err(_) => {
                assert(false);
            },
            Ok((parts2, end2)) => {
                let parts = seq![label] + parts2;
                assert(parts.len() >= 2);
                assert(parts.drop_first() =~= parts2);
                assert(join_dots(parts) == part + seq![DOT] + join_dots(parts2));
                assert(join_dots(parts2) == s.subrange(i + 1, s.len() as int));
                assert(s[i] == DOT);
                assert(part + seq![DOT] + s.subrange(i + 1, s.len() as int) =~= s.subrange(
                    from,
                    s.len() as int,
                ));
                assert(end2 == pos2 + rest_w.len() + 1);
                assert(end2 == pos + w.len() + 1);
            },
        }
    }
}

/// Encoding an ASCII domain name of non-empty dot-separated labels and
/// decoding the result from the start of the encoded buffer recovers the
/// original text exactly, and consumes exactly the encoded bytes.
pub proof fn lemma_name_round_trip(name: Seq<char>)
    requires
        spec_encode_name(name) is Ok,
        wf_labels_from(ascii_bytes_of(name), 0),
    ensures
        ({
            let w = spec_encode_name(name).unwrap();
            spec_read_name(w, 0) == Ok::<(Seq<u8>, int), DnsError>(
                (ascii_bytes_of(name), w.len() as int),
            )
        }),
{
    let s = ascii_bytes_of(name);
    assert(is_ascii_chars(name));
    lemma_ascii_chars_bytes(name);
    let labels_w = spec_encode_from(s, 0).unwrap();
    let w = spec_encode_name(name).unwrap();
    assert(w == labels_w.push(0u8));
    assert(w =~= labels_w + seq![0u8]);
    assert(w.subrange(0, labels_w.len() as int + 1) =~= labels_w + seq![0u8]);
    lemma_decode_encoded_labels(w, 0, s, 0, MAX_POINTER_HOPS as int);
    match spec_read_parts(w, 0, MAX_POINTER_HOPS as int) {
        Err(_) => {
            assert(false);
        },
        Ok((parts, end)) => {
            assert(join_dots(parts) == s.subrange(0, s.len() as int));
            assert(s.subrange(0, s.len() as int) =~= s);
        },
    }
}

/// The two bytes of a compression pointer to `off`: both top bits set on the
/// first, the 14-bit offset split big-endian across the rest.
pub open spec fn pointer_bytes(off: int) -> Seq<u8> {
    seq![(0xC0 + off / 0x100) as u8, (off % 0x100) as u8]
}

/// A name that is just a compression pointer decodes to the text of the name
/// at the pointer's target, using one extra pointer hop.
pub proof fn lemma_decode_pointer(data: Seq<u8>, pos: int, off: int, hops: int)
    requires
        0 <= pos,
        pos + 2 <= data.len(),
        0 <= off < 0x4000,
        off <= data.len(),
        data[pos] == pointer_bytes(off)[0],
        data[pos + 1] == pointer_bytes(off)[1],
        spec_read_parts(data, off, hops) is Ok,
        hops >= 0,
    ensures
        spec_read_parts(data, pos, hops + 1) == Ok::<(Seq<Seq<u8>>, int), DnsError>(
            (seq![join_dots(spec_read_parts(data, off, hops).unwrap().0)], pos + 2),
        ),
{
    lemma_read_parts_utf8(data, off, hops);
    let b = data[pos];
    assert(0 <= off / 0x100 < 0x40);
    assert(b == 0xC0 + off / 0x100);
    assert(b >= 0xC0);
    assert((b - 0xC0) * 0x100 + data[pos + 1] == off) by {
        assert(off == (off / 0x100) * 0x100 + off % 0x100);
    }
}

/// A name written as the labels of `s` followed by a compression pointer to
/// `off` decodes — with one extra pointer hop — to the same text as if the
/// name at `off` had been written out in full after those labels: the labels
/// of `s`, a dot, and the target's text.
pub proof fn lemma_compressed_name_suffix(
    data: Seq<u8>,
    pos: int,
    s: Seq<u8>,
    from: int,
    off: int,
    hops: int,
)
    requires
        0 <= from <= s.len(),
        forall|k: int| 0 <= k < s.len() ==> s[k] < 128,
        wf_labels_from(s, from),
        spec_encode_from(s, from) is Ok,
        0 <= pos,
        pos + spec_encode_from(s, from).unwrap().len() + 2 <= data.len(),
        data.subrange(pos, pos + spec_encode_from(s, from).unwrap().len() + 2)
            == spec_encode_from(s, from).unwrap() + pointer_bytes(off),
        0 <= off < 0x4000,
        off <= data.len(),
        spec_read_parts(data, off, hops) is Ok,
        hops >= 0,
    ensures
        spec_read_parts(data, pos, hops + 1) matches Ok((parts, end)) && end == pos
            + spec_encode_from(s, from).unwrap().len() + 2 && join_dots(parts) == s.subrange(
            from,
            s.len() as int,
        ) + seq![DOT] + join_dots(spec_read_parts(data, off, hops).unwrap().0),
    decreases s.len() - from,
{
    lemma_first_dot_from_bounds(s, from);
    let i = first_dot_from(s, from);
    let part = s.subrange(from, i);
    let w = spec_encode_from(s, from).unwrap();
    let ext = w + pointer_bytes(off);
    assert(forall|k: int|
        0 <= k < ext.len() ==> data[pos + k] == #[trigger] ext[k]) by {
        assert(forall|k: int|
            0 <= k < ext.len() ==> data.subrange(pos, pos + w.len() + 2)[k] == #[trigger] ext[k]);
    }
    assert(1 <= part.len() <= 63);
    let head = seq![part.len() as u8] + part;
    assert(forall|k: int| 0 <= k < head.len() ==> #[trigger] w[k] == head[k]) by {
        if i < s.len() {
            assert(w == head + spec_encode_from(s, i + 1).unwrap());
        }
    }
    assert(w.len() >= head.len());
    assert(data[pos] == part.len() as u8) by {
        assert(ext[0] == data[pos + 0]);
        assert(ext[0] == w[0]);
        assert(w[0] == head[0]);
    }
    let b = data[pos];
    assert(1 <= b <= 63);
    assert(pos + 1 + b <= data.len());
    let label = data.subrange(pos + 1, pos + 1 + b);
    assert forall|k: int| 0 <= k < part.len() implies label[k] == part[k] by {
        assert(ext[1 + k] == data[pos + (1 + k)]);
        assert(ext[1 + k] == w[1 + k]);
        assert(w[1 + k] == head[1 + k]);
        assert(head[1 + k] == part[k]);
    }
    assert(label =~= part);
    assert(forall|k: int| 0 <= k < part.len() ==> part[k] < 128);
    lemma_ascii_bytes_utf8(part);
    let pos2 = pos + 1 + b;
    let tparts = spec_read_parts(data, off, hops).unwrap().0;
    if i >= s.len() {
        // The pointer follows the last label directly.
        assert(w == head);
        assert(data[pos2] == ext[w.len() as int]);
        assert(data[pos2 + 1] == ext[w.len() as int + 1]);
        lemma_decode_pointer(data, pos2, off, hops);
        let parts = seq![label] + seq![join_dots(tparts)];
        assert(spec_read_parts(data, pos, hops + 1) matches Ok((p2, e2)) && p2 == parts && e2
            == pos2 + 2);
        assert(parts.len() == 2);
        assert(parts.drop_first() =~= seq![join_dots(tparts)]);
        assert(parts[0] == label);
        assert(join_dots(seq![join_dots(tparts)]) == join_dots(tparts));
        assert(join_dots(parts) == part + seq![DOT] + join_dots(tparts));
        assert(part =~= s.subrange(from, s.len() as int));
    } else {
        let rest_w = spec_encode_from(s, i + 1).unwrap();
        assert(w == head + rest_w);
        assert forall|k: int|
            0 <= k < rest_w.len() + 2 implies data.subrange(pos2, pos2 + rest_w.len() + 2)[k] == (
            rest_w + pointer_bytes(off))[k] by {
            let m = head.len() as int + k;
            assert(data[pos + m] == ext[m]);
            assert(ext == (head + rest_w) + pointer_bytes(off));
            assert(((head + rest_w) + pointer_bytes(off))[m] == (rest_w + pointer_bytes(off))[k]);
            assert(data.subrange(pos2, pos2 + rest_w.len() + 2)[k] == data[pos2 + k]);
            assert(data[pos2 + k] == data[pos + m]);
        }
        assert(data.subrange(pos2, pos2 + rest_w.len() + 2) =~= rest_w + pointer_bytes(off));
        lemma_compressed_name_suffix(data, pos2, s, i + 1, off, hops);
        match spec_read_parts(data, pos2, hops + 1) {
            Err(_) => {
                assert(false);
            },
            Ok((parts2, end2)) => {
                let parts = seq![label] + parts2;
                assert(parts2.len() >= 1) by {
                    if parts2.len() == 0 {
                        assert(join_dots(parts2) == Seq::<u8>::empty());
                        assert((s.subrange(i + 1, s.len() as int) + seq![DOT] + join_dots(
                            tparts,
                        )).len() > 0);
                    }
                }
                assert(parts.len() >= 2);
                assert(parts.drop_first() =~= parts2);
                assert(join_dots(parts) == part + seq![DOT] + join_dots(parts2));
                assert(s[i] == DOT);
                assert(part + seq![DOT] + (s.subrange(i + 1, s.len() as int) + seq![DOT]
                    + join_dots(tparts)) =~= s.subrange(from, s.len() as int) + seq![DOT]
                    + join_dots(tparts));
                assert(end2 == pos2 + rest_w.len() + 2);
                assert(end2 == pos + w.len() + 2);
            },
        }
    }
}

/// The wire bytes for the labels of `bytes` from `from` onward, as
/// `spec_encode_from` describes them.
fn encode_labels(bytes: &Vec<u8>, from: usize) -> (r: Result<Vec<u8>, DnsError>)
    requires
        from <= bytes@.len(),
    ensures
        match spec_encode_from(bytes@, from as int) {
            Ok(w) => r is Ok && r.unwrap()@ == w,
            Err(e) => r == Err::<Vec<u8>, DnsError>(e),
        },
    decreases bytes@.len() - from,
{
    proof {
        lemma_first_dot_from_bounds(bytes@, from as int);
    }
    let mut i = from;
    while i < bytes.len() && bytes[i] != DOT
        invariant
            from <= i <= bytes@.len(),
            forall|j: int| from <= j < i ==> bytes@[j] != DOT,
        decreases bytes@.len() - i,
    {
        i = i + 1;
    }
    proof {
        lemma_first_dot_from_scan(bytes@, from as int, i as int);
    }
    let part_len = i - from;
    if part_len > MAX_LABEL_LEN {
        return Err(DnsError::LabelTooLong);
    }
    let mut head: Vec<u8> = Vec::new();
    if part_len > 0 {
        head.push(part_len as u8);
        let mut j = from;
        while j < i
            invariant
                from <= j <= i <= bytes@.len(),
                part_len == i - from,
                head@ == seq![part_len as u8] + bytes@.subrange(from as int, j as int),
            decreases i - j,
        {
            head.push(bytes[j]);
            proof {
                assert(head@ =~= seq![part_len as u8] + bytes@.subrange(from as int, j + 1 as int));
            }
            j = j + 1;
        }
    }
    proof {
        let part = bytes@.subrange(from as int, i as int);
        if part.len() == 0 {
            assert(head@ =~= part);
        }
    }
    if i >= bytes.len() {
        Ok(head)
    } else {
        match encode_labels(bytes, i + 1) {
            Err(e) => Err(e),
            Ok(mut rest) => {
                head.append(&mut rest);
                Ok(head)
            },
        }
    }
}

} // verus!

//! Framing of the records of the result log.
//!
//! A record is written as the length of its payload, as eight bytes in
//! little-endian order, then the payload, then the delimiter `===`. The
//! length makes a record readable whatever bytes the payload holds; the
//! delimiter lets a reader detect a record that was cut or overwritten.

use vstd::prelude::*;
use vstd::bytes::*;
use vstd::slice::*;

verus! {

/// Number of bytes of the length in front of a payload.
pub const LENGTH_BYTES: usize = 8;

/// Number of bytes of the delimiter behind a payload.
pub const DELIMITER_BYTES: usize = 3;

/// The byte `=`, of which the delimiter is made.
pub const DELIMITER_BYTE: u8 = 0x3d;

/// Why a record cannot be read.
#[derive(Clone, Copy, Debug, PartialEq, Eq, Structural)]
pub enum FrameError {
    /// The bytes end before the record does.
    Truncated,
    /// The payload is not followed by the delimiter.
    BadDelimiter,
}

/// The delimiter `===`.
pub open spec fn delimiter() -> Seq<u8> {
    seq![DELIMITER_BYTE, DELIMITER_BYTE, DELIMITER_BYTE]
}

/// The bytes of one record.
pub open spec fn frame(payload: Seq<u8>) -> Seq<u8> {
    spec_u64_to_le_bytes(payload.len() as u64) + payload + delimiter()
}

/// The bytes of a sequence of records, one after the other.
pub open spec fn frames(payloads: Seq<Seq<u8>>) -> Seq<u8>
    decreases payloads.len(),
{
    if payloads.len() == 0 {
        Seq::empty()
    } else {
        frames(payloads.drop_last()) + frame(payloads.last())
    }
}

/// Reads the record at the start of `bytes`: its payload and the number of
/// bytes that the record takes.
pub open spec fn parse_frame(bytes: Seq<u8>) -> Result<(Seq<u8>, nat), FrameError> {
    if bytes.len() < LENGTH_BYTES {
        Err(FrameError::Truncated)
    } else {
        let n = spec_u64_from_le_bytes(bytes.subrange(0, LENGTH_BYTES as int)) as int;
        let end = LENGTH_BYTES + n;
        if bytes.len() < end + DELIMITER_BYTES {
            Err(FrameError::Truncated)
        } else if bytes.subrange(end, end + DELIMITER_BYTES) != delimiter() {
            Err(FrameError::BadDelimiter)
        } else {
            Ok((bytes.subrange(LENGTH_BYTES as int, end), (end + DELIMITER_BYTES) as nat))
        }
    }
}

/// Reads records from `bytes` until the bytes end. The first record that
/// cannot be read gives its error.
pub open spec fn parse_frames(bytes: Seq<u8>) -> Result<Seq<Seq<u8>>, FrameError>
    decreases bytes.len(),
{
    if bytes.len() == 0 {
        Ok(Seq::empty())
    } else {
        match parse_frame(bytes) {
            Err(e) => Err(e),
            Ok((payload, used)) => {
                if 0 < used <= bytes.len() {
                    match parse_frames(bytes.skip(used as int)) {
                        Err(e) => Err(e),
                        Ok(rest) => Ok(seq![payload] + rest),
                    }
                } else {
                    Err(FrameError::Truncated)
                }
            },
        }
    }
}

/// A payload whose length can be written in the eight bytes of the prefix.
pub open spec fn fits(payload: Seq<u8>) -> bool {
    payload.len() <= u64::MAX
}

/// Every payload of the sequence fits.
pub open spec fn all_fit(payloads: Seq<Seq<u8>>) -> bool {
    forall|i: int| 0 <= i < payloads.len() ==> fits(#[trigger] payloads[i])
}

/// A record that is written and read again gives its payload back, whatever
/// bytes follow it and whatever bytes the payload holds.
pub proof fn lemma_frame_round_trip(payload: Seq<u8>, rest: Seq<u8>)
    requires
        fits(payload),
    ensures
        frame(payload).len() == LENGTH_BYTES + payload.len() + DELIMITER_BYTES,
        parse_frame(frame(payload) + rest) == Ok::<(Seq<u8>, nat), FrameError>(
            (payload, frame(payload).len()),
        ),
{
    lemma_auto_spec_u64_to_from_le_bytes();
    let prefix = spec_u64_to_le_bytes(payload.len() as u64);
    let bytes = frame(payload) + rest;
    let end = LENGTH_BYTES + payload.len();
    assert(bytes.subrange(0, LENGTH_BYTES as int) =~= prefix);
    assert(bytes.subrange(end as int, end + DELIMITER_BYTES) =~= delimiter());
    assert(bytes.subrange(LENGTH_BYTES as int, end as int) =~= payload);
}

/// Writes one record.
pub fn encode_record(payload: &[u8]) -> (out: Vec<u8>)
    ensures
        out@ == frame(payload@),
{
    let mut out = u64_to_le_bytes(payload.len() as u64);
    let mut body = slice_to_vec(payload);
    out.append(&mut body);
    out.push(DELIMITER_BYTE);
    out.push(DELIMITER_BYTE);
    out.push(DELIMITER_BYTE);
    assert(out@ =~= frame(payload@));
    out
}

/// Reads the record that starts at `start`. On success it returns the
/// payload and the position of the byte behind the record.
pub fn decode_record(bytes: &[u8], start: usize) -> (r: Result<(Vec<u8>, usize), FrameError>)
    ensures
        start > bytes@.len() ==> r == Err::<(Vec<u8>, usize), FrameError>(FrameError::Truncated),
        start <= bytes@.len() ==> match parse_frame(bytes@.skip(start as int)) {
            Ok((payload, used)) => r matches Ok((p, next)) && p@ == payload && next == start
                + used && next <= bytes@.len(),
            Err(e) => r == Err::<(Vec<u8>, usize), FrameError>(e),
        },
{
    let len = bytes.len();
    if start > len {
        return Err(FrameError::Truncated);
    }
    let ghost tail = bytes@.skip(start as int);
    let left: usize = len - start;
    if left < LENGTH_BYTES {
        return Err(FrameError::Truncated);
    }
    let body_start: usize = start + LENGTH_BYTES;
    let prefix = slice_subrange(bytes, start, body_start);
    assert(prefix@ =~= tail.subrange(0, LENGTH_BYTES as int));
    let n: u64 = u64_from_le_bytes(prefix);
    let left: usize = len - body_start;
    if left < DELIMITER_BYTES || n > (left - DELIMITER_BYTES) as u64 {
        return Err(FrameError::Truncated);
    }
    let body_end: usize = body_start + n as usize;
    let next: usize = body_end + DELIMITER_BYTES;
    let mark = slice_subrange(bytes, body_end, next);
    assert(mark@ =~= tail.subrange(LENGTH_BYTES + n, LENGTH_BYTES + n + DELIMITER_BYTES));
    if mark[0] != DELIMITER_BYTE || mark[1] != DELIMITER_BYTE || mark[2] != DELIMITER_BYTE {
        return Err(FrameError::BadDelimiter);
    }
    assert(mark@ =~= delimiter());
    let payload = slice_to_vec(slice_subrange(bytes, body_start, body_end));
    assert(payload@ =~= tail.subrange(LENGTH_BYTES as int, LENGTH_BYTES + n));
    Ok((payload, next))
}

/// The payloads that a vector of records holds.
pub open spec fn payloads_of(records: Seq<Vec<u8>>) -> Seq<Seq<u8>> {
    Seq::new(records.len(), |i: int| records[i]@)
}

/// A record is read from its own bytes alone: bytes that follow it change
/// neither the payload nor the number of bytes taken.
pub proof fn lemma_parse_frame_ignores_rest(bytes: Seq<u8>, rest: Seq<u8>)
    requires
        parse_frame(bytes) is Ok,
    ensures
        parse_frame(bytes + rest) == parse_frame(bytes),
        parse_frame(bytes)->Ok_0.1 >= LENGTH_BYTES + DELIMITER_BYTES,
        parse_frame(bytes)->Ok_0.1 <= bytes.len(),
{
    let n = spec_u64_from_le_bytes(bytes.subrange(0, LENGTH_BYTES as int)) as int;
    let end = LENGTH_BYTES + n;
    let both = bytes + rest;
    assert(both.subrange(0, LENGTH_BYTES as int) =~= bytes.subrange(0, LENGTH_BYTES as int));
    assert(both.subrange(end, end + DELIMITER_BYTES) =~= bytes.subrange(
        end,
        end + DELIMITER_BYTES,
    ));
    assert(both.subrange(LENGTH_BYTES as int, end) =~= bytes.subrange(LENGTH_BYTES as int, end));
}

/// Reading two runs of records that were written one after the other gives
/// the records of the first, then whatever reading the second gives.
pub proof fn lemma_parse_frames_concat(first: Seq<u8>, second: Seq<u8>)
    requires
        parse_frames(first) is Ok,
    ensures
        parse_frames(first + second) == match parse_frames(second) {
            Ok(later) => Ok::<Seq<Seq<u8>>, FrameError>(parse_frames(first)->Ok_0 + later),
            Err(e) => Err::<Seq<Seq<u8>>, FrameError>(e),
        },
    decreases first.len(),
{
    if first.len() == 0 {
        assert(first + second =~= second);
        if let Ok(later) = parse_frames(second) {
            assert(parse_frames(first)->Ok_0 + later =~= later);
        }
    } else {
        lemma_parse_frame_ignores_rest(first, second);
        let (payload, used) = parse_frame(first)->Ok_0;
        let tail = first.skip(used as int);
        assert((first + second).skip(used as int) =~= tail + second);
        lemma_parse_frames_concat(tail, second);
        if let Ok(later) = parse_frames(second) {
            let mid = parse_frames(tail)->Ok_0;
            assert(seq![payload] + (mid + later) =~= (seq![payload] + mid) + later);
        }
    }
}

/// Appending one record to a readable log adds that record, and nothing
/// else, behind the records that the log already held.
pub proof fn lemma_append_extends_log(log: Seq<u8>, payload: Seq<u8>)
    requires
        parse_frames(log) is Ok,
        fits(payload),
    ensures
        parse_frames(log + frame(payload)) == Ok::<Seq<Seq<u8>>, FrameError>(
            parse_frames(log)->Ok_0.push(payload),
        ),
{
    let record = frame(payload);
    let nothing = Seq::<u8>::empty();
    assert(parse_frames(record) == Ok::<Seq<Seq<u8>>, FrameError>(seq![payload])) by {
        lemma_frame_round_trip(payload, nothing);
        assert(record + nothing =~= record);
        assert(record.skip(record.len() as int) =~= nothing);
        assert(parse_frames(nothing) == Ok::<Seq<Seq<u8>>, FrameError>(Seq::empty()));
        assert(seq![payload] + Seq::<Seq<u8>>::empty() =~= seq![payload]);
    }
    lemma_parse_frames_concat(log, record);
    assert(parse_frames(log)->Ok_0 + seq![payload] =~= parse_frames(log)->Ok_0.push(payload));
}

/// Records that are written one after the other and read again come back
/// as they were, in number, order and content.
pub proof fn lemma_frames_round_trip(payloads: Seq<Seq<u8>>)
    requires
        all_fit(payloads),
    ensures
        parse_frames(frames(payloads)) == Ok::<Seq<Seq<u8>>, FrameError>(payloads),
    decreases payloads.len(),
{
    if payloads.len() == 0 {
        assert(payloads =~= Seq::<Seq<u8>>::empty());
    } else {
        let before = payloads.drop_last();
        let last = payloads.last();
        lemma_all_fit_prefix(payloads);
        lemma_frames_round_trip(before);
        lemma_append_extends_log(frames(before), last);
        assert(before.push(last) =~= payloads);
    }
}

proof fn lemma_all_fit_prefix(payloads: Seq<Seq<u8>>)
    requires
        all_fit(payloads),
        payloads.len() > 0,
    ensures
        all_fit(payloads.drop_last()),
        fits(payloads.last()),
{
    let before = payloads.drop_last();
    assert forall|i: int| 0 <= i < before.len() implies fits(#[trigger] before[i]) by {
        assert(before[i] == payloads[i]);
    }
}

/// Reads every record of `bytes`.
pub fn decode_records(bytes: &[u8]) -> (r: Result<Vec<Vec<u8>>, FrameError>)
    ensures
        match parse_frames(bytes@) {
            Ok(payloads) => r matches Ok(records) && payloads_of(records@) == payloads,
            Err(e) => r == Err::<Vec<Vec<u8>>, FrameError>(e),
        },
{
    let len = bytes.len();
    let mut records: Vec<Vec<u8>> = Vec::new();
    let mut pos: usize = 0;
    assert(bytes@.skip(0) =~= bytes@);
    assert(payloads_of(records@) =~= Seq::<Seq<u8>>::empty());
    while pos < len
        invariant
            len == bytes@.len(),
            pos <= len,
            parse_frames(bytes@) == match parse_frames(bytes@.skip(pos as int)) {
                Ok(later) => Ok::<Seq<Seq<u8>>, FrameError>(payloads_of(records@) + later),
                Err(e) => Err::<Seq<Seq<u8>>, FrameError>(e),
            },
        decreases len - pos,
    {
        let ghost tail = bytes@.skip(pos as int);
        let ghost seen = payloads_of(records@);
        match decode_record(bytes, pos) {
            Err(e) => {
                return Err(e);
            },
            Ok((payload, next)) => {
                proof {
                    lemma_parse_frame_ignores_rest(tail, Seq::empty());
                    let used = parse_frame(tail)->Ok_0.1;
                    assert(tail.skip(used as int) =~= bytes@.skip(next as int));
                    assert(payloads_of(records@.push(payload)) =~= seen.push(payload@));
                    if let Ok(later) = parse_frames(bytes@.skip(next as int)) {
                        assert(seen + (seq![payload@] + later) =~= seen.push(payload@) + later);
                    }
                }
                records.push(payload);
                pos = next;
            },
        }
    }
    assert(bytes@.skip(pos as int) =~= Seq::<u8>::empty());
    assert(payloads_of(records@) + Seq::<Seq<u8>>::empty() =~= payloads_of(records@));
    Ok(records)
}

} // verus!

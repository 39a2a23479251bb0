//! The layout of the result log of a run.
//!
//! The log starts with a header of five records, written once: the run
//! identifier, the acceptance target (eight bytes, little-endian), the
//! serialized challenge, and the two puzzle sizes (four bytes each,
//! little-endian). Behind the header stands one record for each accepted
//! solution, in the order in which they were appended. Nothing is ever
//! rewritten. Opening, writing and flushing the file is the caller's part:
//! these functions give the bytes to write and read back what was written.

use vstd::prelude::*;
use vstd::bytes::*;
use vstd::slice::*;
use vstd::string::*;
use crate::consts::RESULTS_FILE_TEMPLATE;
use crate::framing::{
    all_fit,
    decode_records,
    encode_record,
    fits,
    frame,
    frames,
    lemma_append_extends_log,
    lemma_frames_round_trip,
    parse_frames,
    payloads_of,
    FrameError,
};
use crate::solution::{Challenge, Solution};

verus! {

/// Number of records in the header.
pub const HEADER_RECORDS: usize = 5;

/// What the header of a log records about the run.
#[derive(Clone, Debug, PartialEq, Eq)]
pub struct RunMetadata {
    /// Identifier of the run.
    pub run_id: Vec<u8>,
    /// Minimum score of a recorded solution.
    pub acceptance_target: u64,
    /// The challenge in its serialized form.
    pub challenge: Vec<u8>,
    /// Largest puzzle size that the setup supports.
    pub max_degree: u32,
    /// Puzzle size of this run.
    pub degree: u32,
}

/// The mathematical value of a [`RunMetadata`].
pub struct RunMetadataView {
    pub run_id: Seq<u8>,
    pub acceptance_target: u64,
    pub challenge: Seq<u8>,
    pub max_degree: u32,
    pub degree: u32,
}

impl View for RunMetadata {
    type V = RunMetadataView;

    open spec fn view(&self) -> RunMetadataView {
        RunMetadataView {
            run_id: self.run_id@,
            acceptance_target: self.acceptance_target,
            challenge: self.challenge@,
            max_degree: self.max_degree,
            degree: self.degree,
        }
    }
}

/// A log that was read back: its header and the recorded solutions.
#[derive(Clone, Debug, PartialEq, Eq)]
pub struct RunRecord {
    /// What the header says about the run.
    pub metadata: RunMetadata,
    /// The recorded solutions, oldest first.
    pub solutions: Vec<Vec<u8>>,
}

/// The mathematical value of a [`RunRecord`].
pub struct RunRecordView {
    pub metadata: RunMetadataView,
    pub solutions: Seq<Seq<u8>>,
}

impl View for RunRecord {
    type V = RunRecordView;

    open spec fn view(&self) -> RunRecordView {
        RunRecordView { metadata: self.metadata@, solutions: payloads_of(self.solutions@) }
    }
}

/// Why a log cannot be read.
#[derive(Clone, Copy, Debug, PartialEq, Eq, Structural)]
pub enum LogError {
    /// The bytes end inside a record.
    Truncated,
    /// A payload is not followed by the delimiter.
    BadDelimiter,
    /// The log holds fewer records than a header has.
    IncompleteHeader,
    /// The target or a puzzle size in the header has the wrong width.
    MalformedHeader,
}

/// The log error that stands for a framing error.
pub open spec fn log_error(e: FrameError) -> LogError {
    match e {
        FrameError::Truncated => LogError::Truncated,
        FrameError::BadDelimiter => LogError::BadDelimiter,
    }
}

/// The payloads of the five header records.
pub open spec fn header_fields(meta: RunMetadataView) -> Seq<Seq<u8>> {
    seq![
        meta.run_id,
        spec_u64_to_le_bytes(meta.acceptance_target),
        meta.challenge,
        spec_u32_to_le_bytes(meta.max_degree),
        spec_u32_to_le_bytes(meta.degree),
    ]
}

/// The bytes of the header.
pub open spec fn header_bytes(meta: RunMetadataView) -> Seq<u8> {
    frames(header_fields(meta))
}

/// The bytes of a whole log: the header, then one record for each solution.
pub open spec fn log_bytes(meta: RunMetadataView, solutions: Seq<Seq<u8>>) -> Seq<u8> {
    frames(header_fields(meta) + solutions)
}

/// What a sequence of records says when it is read as a log.
pub open spec fn record_of(records: Seq<Seq<u8>>) -> Result<RunRecordView, LogError> {
    if records.len() < HEADER_RECORDS {
        Err(LogError::IncompleteHeader)
    } else if records[1].len() != 8 || records[3].len() != 4 || records[4].len() != 4 {
        Err(LogError::MalformedHeader)
    } else {
        Ok(
            RunRecordView {
                metadata: RunMetadataView {
                    run_id: records[0],
                    acceptance_target: spec_u64_from_le_bytes(records[1]),
                    challenge: records[2],
                    max_degree: spec_u32_from_le_bytes(records[3]),
                    degree: spec_u32_from_le_bytes(records[4]),
                },
                solutions: records.skip(HEADER_RECORDS as int),
            },
        )
    }
}

/// Reads a log: its records first, then the header out of the first five.
pub open spec fn parse_log(bytes: Seq<u8>) -> Result<RunRecordView, LogError> {
    match parse_frames(bytes) {
        Err(e) => Err(log_error(e)),
        Ok(records) => record_of(records),
    }
}

/// The metadata can be written: the lengths of the run identifier and of the
/// challenge can be written in the length prefix.
pub open spec fn metadata_fits(meta: RunMetadataView) -> bool {
    fits(meta.run_id) && fits(meta.challenge)
}

impl RunMetadata {
    /// The metadata of a run on `challenge`: the run identifier is the task
    /// identifier in UTF-8.
    pub fn for_challenge(
        challenge: &Challenge,
        acceptance_target: u64,
        max_degree: u32,
        degree: u32,
    ) -> (meta: RunMetadata)
        ensures
            meta@ == (RunMetadataView {
                run_id: vstd::utf8::encode_utf8(challenge@.task_id),
                acceptance_target,
                challenge: challenge@.puzzle_params,
                max_degree,
                degree,
            }),
            metadata_fits(meta@),
    {
        let run_id = challenge.task_id.as_str().as_bytes_vec();
        let params = slice_to_vec(challenge.puzzle_params.as_slice());
        assert(run_id.len() <= u64::MAX && params.len() <= u64::MAX);
        RunMetadata { run_id, acceptance_target, challenge: params, max_degree, degree }
    }
}

/// Writes the header of a log.
pub fn encode_header(meta: &RunMetadata) -> (out: Vec<u8>)
    ensures
        out@ == header_bytes(meta@),
{
    let mut out = encode_record(meta.run_id.as_slice());
    let mut target = encode_record(u64_to_le_bytes(meta.acceptance_target).as_slice());
    let mut challenge = encode_record(meta.challenge.as_slice());
    let mut max_degree = encode_record(u32_to_le_bytes(meta.max_degree).as_slice());
    let mut degree = encode_record(u32_to_le_bytes(meta.degree).as_slice());
    out.append(&mut target);
    out.append(&mut challenge);
    out.append(&mut max_degree);
    out.append(&mut degree);
    proof {
        let fields = header_fields(meta@);
        reveal_with_fuel(frames, 6);
        assert(fields.drop_last().drop_last().drop_last().drop_last().drop_last().len() == 0);
        assert(fields.drop_last()[3] == fields[3]);
        assert(fields.drop_last().drop_last()[2] == fields[2]);
        assert(fields.drop_last().drop_last().drop_last()[1] == fields[1]);
        assert(fields.drop_last().drop_last().drop_last().drop_last()[0] == fields[0]);
        assert(out@ =~= frames(fields));
    }
    out
}

/// Writes the record of one solution: its serialized form, framed.
pub fn encode_solution(solution: &Solution) -> (out: Vec<u8>)
    ensures
        out@ == frame(solution@.raw_bytes),
{
    encode_record(solution.raw_bytes.as_slice())
}

/// Reads a log back into its header and its solutions.
pub fn decode_log(bytes: &[u8]) -> (r: Result<RunRecord, LogError>)
    ensures
        match parse_log(bytes@) {
            Ok(record) => r matches Ok(read) && read@ == record,
            Err(e) => r matches Err(got) && got == e,
        },
{
    let mut records = match decode_records(bytes) {
        Ok(records) => records,
        Err(FrameError::Truncated) => {
            return Err(LogError::Truncated);
        },
        Err(FrameError::BadDelimiter) => {
            return Err(LogError::BadDelimiter);
        },
    };
    let ghost all = payloads_of(records@);
    if records.len() < HEADER_RECORDS {
        return Err(LogError::IncompleteHeader);
    }
    if records[1].len() != 8 || records[3].len() != 4 || records[4].len() != 4 {
        return Err(LogError::MalformedHeader);
    }
    let solutions = records.split_off(HEADER_RECORDS);
    let degree_bytes = records.pop().unwrap();
    let max_degree_bytes = records.pop().unwrap();
    let challenge = records.pop().unwrap();
    let target_bytes = records.pop().unwrap();
    let run_id = records.pop().unwrap();
    let metadata = RunMetadata {
        run_id,
        acceptance_target: u64_from_le_bytes(target_bytes.as_slice()),
        challenge,
        max_degree: u32_from_le_bytes(max_degree_bytes.as_slice()),
        degree: u32_from_le_bytes(degree_bytes.as_slice()),
    };
    assert(payloads_of(solutions@) =~= all.skip(HEADER_RECORDS as int));
    Ok(RunRecord { metadata, solutions })
}

/// Writing the records of two sequences one after the other is writing the
/// records of their concatenation.
pub proof fn lemma_frames_concat(first: Seq<Seq<u8>>, second: Seq<Seq<u8>>)
    ensures
        frames(first + second) == frames(first) + frames(second),
    decreases second.len(),
{
    if second.len() == 0 {
        assert(first + second =~= first);
        assert(frames(first) + frames(second) =~= frames(first));
    } else {
        lemma_frames_concat(first, second.drop_last());
        assert((first + second).drop_last() =~= first + second.drop_last());
        assert((first + second).last() == second.last());
        assert(frames(first + second) =~= frames(first) + frames(second));
    }
}

/// A log that is written and read again gives back the header it was made
/// with and exactly the solutions that were appended, in number, order and
/// content.
pub proof fn lemma_log_round_trip(meta: RunMetadataView, solutions: Seq<Seq<u8>>)
    requires
        metadata_fits(meta),
        all_fit(solutions),
    ensures
        log_bytes(meta, solutions) == header_bytes(meta) + frames(solutions),
        parse_log(log_bytes(meta, solutions)) == Ok::<RunRecordView, LogError>(
            RunRecordView { metadata: meta, solutions },
        ),
{
    lemma_auto_spec_u64_to_from_le_bytes();
    lemma_auto_spec_u32_to_from_le_bytes();
    let fields = header_fields(meta);
    let records = fields + solutions;
    lemma_frames_concat(fields, solutions);
    assert(all_fit(records)) by {
        assert forall|i: int| 0 <= i < records.len() implies fits(#[trigger] records[i]) by {
            if i >= fields.len() {
                assert(records[i] == solutions[i - fields.len()]);
            }
        }
    }
    lemma_frames_round_trip(records);
    assert(records.skip(HEADER_RECORDS as int) =~= solutions);
}

/// Appending the record of one more solution to a readable log leaves the
/// header and the earlier solutions as they are and puts the new solution
/// behind them.
pub proof fn lemma_append_keeps_log(log: Seq<u8>, solution: Seq<u8>)
    requires
        parse_log(log) is Ok,
        fits(solution),
    ensures
        parse_log(log + frame(solution)) == Ok::<RunRecordView, LogError>(
            RunRecordView {
                metadata: parse_log(log)->Ok_0.metadata,
                solutions: parse_log(log)->Ok_0.solutions.push(solution),
            },
        ),
{
    let records = parse_frames(log)->Ok_0;
    lemma_append_extends_log(log, solution);
    assert(records.push(solution).skip(HEADER_RECORDS as int) =~= records.skip(
        HEADER_RECORDS as int,
    ).push(solution));
}

/// The decimal digit of a number below ten.
pub open spec fn digit_char(d: nat) -> char {
    if d == 0 {
        '0'
    } else if d == 1 {
        '1'
    } else if d == 2 {
        '2'
    } else if d == 3 {
        '3'
    } else if d == 4 {
        '4'
    } else if d == 5 {
        '5'
    } else if d == 6 {
        '6'
    } else if d == 7 {
        '7'
    } else if d == 8 {
        '8'
    } else {
        '9'
    }
}

/// A number in decimal, without sign and without leading zeros.
pub open spec fn decimal_digits(n: nat) -> Seq<char>
    decreases n,
{
    if n < 10 {
        seq![digit_char(n)]
    } else {
        decimal_digits(n / 10).push(digit_char(n % 10))
    }
}

fn digit_str(d: u32) -> (s: &'static str)
    requires
        d < 10,
    ensures
        s@ == seq![digit_char(d as nat)],
{
    proof {
        reveal_strlit("0");
        reveal_strlit("1");
        reveal_strlit("2");
        reveal_strlit("3");
        reveal_strlit("4");
        reveal_strlit("5");
        reveal_strlit("6");
        reveal_strlit("7");
        reveal_strlit("8");
        reveal_strlit("9");
    }
    let s = match d {
        0 => "0",
        1 => "1",
        2 => "2",
        3 => "3",
        4 => "4",
        5 => "5",
        6 => "6",
        7 => "7",
        8 => "8",
        _ => "9",
    };
    assert(s@ =~= seq![digit_char(d as nat)]);
    s
}

/// Writes a number in decimal.
pub fn decimal_string(n: u32) -> (s: String)
    ensures
        s@ == decimal_digits(n as nat),
{
    let mut s = String::from_str(digit_str(n % 10));
    let mut rest: u32 = n / 10;
    while rest > 0
        invariant
            rest > 0 ==> decimal_digits(n as nat) == decimal_digits(rest as nat) + s@,
            rest == 0 ==> decimal_digits(n as nat) == s@,
        decreases rest,
    {
        let digit = digit_str(rest % 10);
        let ghost tail = s@;
        s = String::from_str(digit).concat(s.as_str());
        proof {
            if rest >= 10 {
                assert(decimal_digits((rest / 10) as nat).push(digit_char((rest % 10) as nat))
                    + tail =~= decimal_digits((rest / 10) as nat) + s@);
            }
        }
        rest = rest / 10;
    }
    s
}

/// The name of the result log of an epoch: the epoch number in decimal, an
/// underscore, and the fixed suffix.
pub fn results_file_name(epoch_number: u32) -> (name: String)
    ensures
        name@ == decimal_digits(epoch_number as nat) + seq!['_'] + RESULTS_FILE_TEMPLATE@,
{
    proof {
        reveal_strlit("_");
    }
    let mut name = decimal_string(epoch_number);
    name.append("_");
    name.append(RESULTS_FILE_TEMPLATE);
    assert("_"@ =~= seq!['_']);
    name
}

} // verus!

//! The wire format of a [`ResultFrame`]: how a frame is written, how a byte
//! stream is read back, and what each failure to read means.
//!
//! A frame is the warning count, two lines per warning, the error count, two
//! lines per error, and then whatever bytes are left. With no errors the rest
//! is the artifact; with errors nothing may follow.

use crate::count::{count_bytes, count_value, read_usize, write_usize, COUNT_WIDTH};
use crate::frame::{
    records_view, BodyModel, DiagnosticRecord, FrameBody, FrameModel, RecordModel, ResultFrame,
};
use crate::text::{trim_end, trimmed, LINE_FEED};
use vstd::prelude::*;
use vstd::slice::{slice_index_get, slice_subrange, slice_to_vec};
use vstd::utf8::{decode_utf8, encode_utf8, encode_utf8_decode_utf8, valid_utf8};

verus! {

/// Why a byte stream is not a frame.
#[derive(Debug, Clone, Copy, PartialEq, Eq)]
pub enum DecodeError {
    /// The stream ended inside a count or before a line was closed.
    IncompleteFrame,
    /// The stream is complete but breaks a rule of the format: bytes follow the
    /// errors, or a line is not UTF-8.
    MalformedFrame,
}

/// The bytes of one line: the text in UTF-8, then a line feed.
pub open spec fn encode_line(text: Seq<char>) -> Seq<u8> {
    encode_utf8(text).push(LINE_FEED)
}

/// The bytes of one record: the title line, then the hint line.
pub open spec fn encode_record(record: RecordModel) -> Seq<u8> {
    encode_line(record.title) + encode_line(record.hint)
}

/// The bytes of a run of records, in order.
pub open spec fn encode_records(records: Seq<RecordModel>) -> Seq<u8>
    decreases records.len(),
{
    if records.len() == 0 {
        Seq::empty()
    } else {
        encode_records(records.drop_last()) + encode_record(records.last())
    }
}

/// The bytes of what follows the warnings.
pub open spec fn encode_body(body: BodyModel) -> Seq<u8> {
    match body {
        BodyModel::Success { artifact } => count_bytes(0) + artifact,
        BodyModel::Failure { errors } => count_bytes(errors.len() as u64) + encode_records(errors),
    }
}

/// The bytes of a whole frame.
pub open spec fn encode_frame(frame: FrameModel) -> Seq<u8> {
    count_bytes(frame.warnings.len() as u64) + encode_records(frame.warnings) + encode_body(
        frame.body,
    )
}

fn write_line(out: &mut Vec<u8>, text: &str)
    ensures
        final(out)@ == old(out)@ + encode_line(text@),
{
    out.extend_from_slice(text.as_bytes());
    out.push(LINE_FEED);
    assert(out@ =~= old(out)@ + encode_line(text@));
}

fn write_records(out: &mut Vec<u8>, records: &Vec<DiagnosticRecord>)
    ensures
        final(out)@ == old(out)@ + encode_records(records_view(records@)),
{
    let ghost all = records_view(records@);
    let mut i: usize = 0;
    while i < records.len()
        invariant
            i <= records.len(),
            all == records_view(records@),
            out@ == old(out)@ + encode_records(all.take(i as int)),
        decreases records.len() - i,
    {
        write_line(out, records[i].title.as_str());
        write_line(out, records[i].hint.as_str());
        proof {
            let seen = all.take(i as int);
            let next = all.take(i + 1);
            assert(next.drop_last() =~= seen);
            assert(next.last() == records@[i as int]@);
            assert(out@ =~= old(out)@ + encode_records(next));
        }
        i += 1;
    }
    assert(all.take(records.len() as int) =~= all);
}

/// Writes `frame` in the wire format.
pub fn encode(frame: &ResultFrame) -> (bytes: Vec<u8>)
    ensures
        bytes@ == encode_frame(frame@),
{
    let mut out: Vec<u8> = Vec::new();
    write_usize(&mut out, frame.warnings.len() as u64);
    write_records(&mut out, &frame.warnings);
    match &frame.body {
        FrameBody::Success { artifact } => {
            write_usize(&mut out, 0);
            out.extend_from_slice(artifact.as_slice());
        },
        FrameBody::Failure { errors } => {
            write_usize(&mut out, errors.len() as u64);
            write_records(&mut out, errors);
        },
    }
    assert(out@ =~= encode_frame(frame@));
    out
}

/// The two lines of one record as they stand in the stream, without their line
/// feeds.
pub ghost struct RawRecord {
    pub title: Seq<u8>,
    pub hint: Seq<u8>,
}

/// How a complete stream divides: the lines of the warnings, the lines of the
/// errors, and the bytes after them.
pub ghost struct Layout {
    pub warnings: Seq<RawRecord>,
    pub errors: Seq<RawRecord>,
    pub trailing: Seq<u8>,
}

/// Position of the first line feed at or after `at`, or the length of `bytes`
/// when there is none.
pub open spec fn line_end(bytes: Seq<u8>, at: int) -> int
    decreases bytes.len() - at,
{
    if at < 0 || at >= bytes.len() {
        bytes.len() as int
    } else if bytes[at] == LINE_FEED {
        at
    } else {
        line_end(bytes, at + 1)
    }
}

/// The record whose two lines start at `at`, and the position after it; `None`
/// when the stream ends before both lines are closed.
pub open spec fn scan_record(bytes: Seq<u8>, at: int) -> Option<(RawRecord, int)> {
    let title_end = line_end(bytes, at);
    let hint_end = line_end(bytes, title_end + 1);
    if 0 <= at && title_end < bytes.len() && hint_end < bytes.len() {
        Some(
            (
                RawRecord {
                    title: bytes.subrange(at, title_end),
                    hint: bytes.subrange(title_end + 1, hint_end),
                },
                hint_end + 1,
            ),
        )
    } else {
        None
    }
}

/// The `count` records that start at `at`, and the position after them; `None`
/// when the stream ends first.
pub open spec fn scan_records(bytes: Seq<u8>, at: int, count: nat) -> Option<(Seq<RawRecord>, int)>
    decreases count,
{
    if count == 0 {
        Some((Seq::empty(), at))
    } else {
        match scan_records(bytes, at, (count - 1) as nat) {
            None => None,
            Some((records, next)) => match scan_record(bytes, next) {
                None => None,
                Some((record, end)) => Some((records.push(record), end)),
            },
        }
    }
}

/// The count that starts at `at`; `None` when fewer than eight bytes are left.
pub open spec fn scan_count(bytes: Seq<u8>, at: int) -> Option<nat> {
    if 0 <= at && at + COUNT_WIDTH <= bytes.len() {
        Some(count_value(bytes.subrange(at, at + COUNT_WIDTH)) as nat)
    } else {
        None
    }
}

/// The records announced by the count at `at`, and the position after them.
pub open spec fn scan_section(bytes: Seq<u8>, at: int) -> Option<(Seq<RawRecord>, int)> {
    match scan_count(bytes, at) {
        None => None,
        Some(count) => scan_records(bytes, at + COUNT_WIDTH, count),
    }
}

/// How `bytes` divides into warnings, errors and trailing bytes; `None` when
/// the stream ends inside a count or a line.
pub open spec fn layout(bytes: Seq<u8>) -> Option<Layout> {
    match scan_section(bytes, 0) {
        None => None,
        Some((warnings, next)) => match scan_section(bytes, next) {
            None => None,
            Some((errors, end)) => Some(
                Layout { warnings, errors, trailing: bytes.subrange(end, bytes.len() as int) },
            ),
        },
    }
}

/// Both lines of the record are UTF-8.
pub open spec fn is_text(record: RawRecord) -> bool {
    valid_utf8(record.title) && valid_utf8(record.hint)
}

/// Every record of `records` is UTF-8.
pub open spec fn all_text(records: Seq<RawRecord>) -> bool {
    forall|i: int| 0 <= i < records.len() ==> is_text(#[trigger] records[i])
}

/// The text of one line: its characters, without trailing white space.
pub open spec fn line_text(line: Seq<u8>) -> Seq<char> {
    trimmed(decode_utf8(line))
}

/// The record that two lines stand for.
pub open spec fn read_record(record: RawRecord) -> RecordModel {
    RecordModel { title: line_text(record.title), hint: line_text(record.hint) }
}

/// The records that a run of line pairs stands for, in order.
pub open spec fn read_records(records: Seq<RawRecord>) -> Seq<RecordModel> {
    records.map_values(|r: RawRecord| read_record(r))
}

/// The frame that a divided stream stands for. It is malformed when bytes
/// follow a nonzero error count, or when a line is not UTF-8.
pub open spec fn interpret(parts: Layout) -> Result<FrameModel, DecodeError> {
    if parts.errors.len() > 0 && parts.trailing.len() > 0 {
        Err(DecodeError::MalformedFrame)
    } else if !all_text(parts.warnings) || !all_text(parts.errors) {
        Err(DecodeError::MalformedFrame)
    } else if parts.errors.len() == 0 {
        Ok(
            FrameModel {
                warnings: read_records(parts.warnings),
                body: BodyModel::Success { artifact: parts.trailing },
            },
        )
    } else {
        Ok(
            FrameModel {
                warnings: read_records(parts.warnings),
                body: BodyModel::Failure { errors: read_records(parts.errors) },
            },
        )
    }
}

/// What reading `bytes` gives: the frame, or the reason there is none.
pub open spec fn decode_frame(bytes: Seq<u8>) -> Result<FrameModel, DecodeError> {
    match layout(bytes) {
        None => Err(DecodeError::IncompleteFrame),
        Some(parts) => interpret(parts),
    }
}

/// The mathematical value of what [`decode`] returns.
pub open spec fn decoded_view(decoded: Result<ResultFrame, DecodeError>) -> Result<
    FrameModel,
    DecodeError,
> {
    match decoded {
        Ok(frame) => Ok(frame@),
        Err(error) => Err(error),
    }
}

/// Once the stream has ended inside a record, asking for more records does not
/// help.
proof fn lemma_scan_stays_short(bytes: Seq<u8>, at: int, few: nat, many: nat)
    requires
        few <= many,
        scan_records(bytes, at, few) is None,
    ensures
        scan_records(bytes, at, many) is None,
    decreases many,
{
    if few < many {
        lemma_scan_stays_short(bytes, at, few, (many - 1) as nat);
    }
}

fn find_line_end(bytes: &[u8], at: usize) -> (end: usize)
    requires
        at <= bytes@.len(),
    ensures
        end == line_end(bytes@, at as int),
        at <= end <= bytes@.len(),
{
    let mut i: usize = at;
    while i < bytes.len() && *slice_index_get(bytes, i) != LINE_FEED
        invariant
            at <= i <= bytes@.len(),
            line_end(bytes@, at as int) == line_end(bytes@, i as int),
        decreases bytes@.len() - i,
    {
        i += 1;
    }
    i
}

/// A line found in a stream.
#[derive(Debug, Clone, PartialEq, Eq)]
pub struct Line {
    /// The text of the line, without its trailing white space; `None` when the
    /// line is not UTF-8.
    pub text: Option<String>,
    /// Position of the byte after the line feed.
    pub next: usize,
}

/// Reads the line that starts at `at`; `None` when no line feed follows.
pub fn read_line(bytes: &[u8], at: usize) -> (line: Option<Line>)
    ensures
        line is Some <==> line_end(bytes@, at as int) < bytes@.len(),
        line matches Some(found) ==> {
            let end = line_end(bytes@, at as int);
            &&& at <= end
            &&& found.next == end + 1
            &&& found.text is Some <==> valid_utf8(bytes@.subrange(at as int, end))
            &&& found.text matches Some(text) ==> text@ == line_text(
                bytes@.subrange(at as int, end),
            )
        },
{
    if at >= bytes.len() {
        return None;
    }
    let end: usize = find_line_end(bytes, at);
    if end >= bytes.len() {
        return None;
    }
    let text = match core::str::from_utf8(slice_subrange(bytes, at, end)) {
        Ok(text) => {
            proof {
                encode_utf8_decode_utf8(text@);
            }
            Some(trim_end(text))
        },
        Err(_) => None,
    };
    Some(Line { text, next: end + 1 })
}

/// What stands between two positions of a stream: a record, or lines that are
/// not text.
struct Scanned {
    record: Option<DiagnosticRecord>,
    next: usize,
}

fn read_record_at(bytes: &[u8], at: usize) -> (scanned: Option<Scanned>)
    requires
        at <= bytes@.len(),
    ensures
        scanned is Some <==> scan_record(bytes@, at as int) is Some,
        scanned matches Some(s) ==> {
            let (raw, next) = scan_record(bytes@, at as int).unwrap();
            &&& s.next == next
            &&& at < s.next <= bytes@.len()
            &&& s.record is Some <==> is_text(raw)
            &&& s.record matches Some(r) ==> r@ == read_record(raw)
        },
{
    let title = match read_line(bytes, at) {
        None => {
            return None;
        },
        Some(line) => line,
    };
    let hint = match read_line(bytes, title.next) {
        None => {
            return None;
        },
        Some(line) => line,
    };
    let record = match (title.text, hint.text) {
        (Some(title), Some(hint)) => Some(DiagnosticRecord { title, hint }),
        _ => None,
    };
    Some(Scanned { record, next: hint.next })
}

/// The records of one section, or word that some line of it is not text.
struct Section {
    count: u64,
    records: Option<Vec<DiagnosticRecord>>,
    next: usize,
}

fn read_section(bytes: &[u8], at: usize) -> (section: Option<Section>)
    requires
        at <= bytes@.len(),
    ensures
        section is Some <==> scan_section(bytes@, at as int) is Some,
        section matches Some(s) ==> {
            let (raw, next) = scan_section(bytes@, at as int).unwrap();
            &&& s.next == next
            &&& at <= s.next <= bytes@.len()
            &&& s.count == raw.len()
            &&& s.records is Some <==> all_text(raw)
            &&& s.records matches Some(records) ==> records_view(records@) == read_records(raw)
        },
{
    let count: u64 = match read_usize(bytes, at) {
        None => {
            return None;
        },
        Some(count) => count,
    };
    // The count was read, so `bytes` reaches `at + COUNT_WIDTH`; its length bounds the sum.
    let length: usize = bytes.len();
    let start: usize = at + COUNT_WIDTH;
    let mut records: Vec<DiagnosticRecord> = Vec::new();
    let mut text: bool = true;
    let mut next: usize = start;
    let mut done: u64 = 0;
    let ghost mut raw: Seq<RawRecord> = Seq::empty();
    while done < count
        invariant
            done <= count,
            start == at + COUNT_WIDTH,
            scan_count(bytes@, at as int) == Some(count as nat),
            start <= next <= bytes@.len(),
            raw.len() == done,
            scan_records(bytes@, start as int, done as nat) == Some((raw, next as int)),
            text == all_text(raw),
            text ==> records_view(records@) == read_records(raw),
        decreases count - done,
    {
        match read_record_at(bytes, next) {
            None => {
                proof {
                    assert(scan_records(bytes@, start as int, (done + 1) as nat) is None);
                    lemma_scan_stays_short(bytes@, start as int, (done + 1) as nat, count as nat);
                }
                return None;
            },
            Some(scanned) => {
                proof {
                    let (one, end) = scan_record(bytes@, next as int).unwrap();
                    let grown = raw.push(one);
                    assert(scan_records(bytes@, start as int, (done + 1) as nat) == Some(
                        (grown, end),
                    ));
                    if all_text(raw) && is_text(one) {
                        assert(all_text(grown));
                    }
                    if !is_text(one) {
                        assert(!is_text(grown[raw.len() as int]));
                    }
                    if !all_text(raw) {
                        let i = choose|i: int| 0 <= i < raw.len() && !is_text(raw[i]);
                        assert(!is_text(grown[i]));
                    }
                    raw = grown;
                }
                match scanned.record {
                    Some(record) => {
                        if text {
                            let ghost before = records@;
                            records.push(record);
                            assert(records_view(records@) =~= records_view(before).push(record@));
                            assert(read_records(raw) =~= read_records(raw.drop_last()).push(
                                read_record(raw.last()),
                            ));
                        }
                    },
                    None => {
                        text = false;
                    },
                }
                next = scanned.next;
                done += 1;
            },
        }
    }
    Some(Section { count, records: if text { Some(records) } else { None }, next })
}

/// Reads a frame from the complete output of a worker.
///
/// Fails with [`DecodeError::IncompleteFrame`] when the stream ends inside a
/// count or a line, and with [`DecodeError::MalformedFrame`] when bytes follow
/// a nonzero error count or a line is not UTF-8. Nothing of a stream that
/// fails is handed out.
pub fn decode(bytes: &[u8]) -> (decoded: Result<ResultFrame, DecodeError>)
    ensures
        decoded_view(decoded) == decode_frame(bytes@),
{
    let warnings = match read_section(bytes, 0) {
        None => {
            return Err(DecodeError::IncompleteFrame);
        },
        Some(section) => section,
    };
    let errors = match read_section(bytes, warnings.next) {
        None => {
            return Err(DecodeError::IncompleteFrame);
        },
        Some(section) => section,
    };
    let trailing = slice_subrange(bytes, errors.next, bytes.len());
    if errors.count > 0 && trailing.len() > 0 {
        return Err(DecodeError::MalformedFrame);
    }
    match (warnings.records, errors.records) {
        (Some(warnings), Some(errors)) => {
            let ghost parts = layout(bytes@).unwrap();
            assert(records_view(errors@).len() == parts.errors.len());
            assert(errors@.len() == records_view(errors@).len());
            let body = if errors.len() == 0 {
                FrameBody::Success { artifact: slice_to_vec(trailing) }
            } else {
                FrameBody::Failure { errors }
            };
            let frame = ResultFrame { warnings, body };
            assert(interpret(parts) == Ok::<FrameModel, DecodeError>(frame@));
            Ok(frame)
        },
        _ => Err(DecodeError::MalformedFrame),
    }
}

} // verus!

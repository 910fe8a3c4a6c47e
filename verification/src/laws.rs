//! What holds of the wire format for every frame and every byte stream.

use crate::codec::{
    all_text, decode_frame, encode_frame, encode_line, encode_record, encode_records, is_text,
    layout, line_end, read_record, read_records, scan_count, scan_record, scan_records,
    scan_section, DecodeError, Layout, RawRecord,
};
use crate::count::{count_bytes, count_bytes_of_value, count_round_trip, COUNT_WIDTH};
use crate::frame::{all_wf, BodyModel, FrameModel, RecordModel};
use crate::text::{
    lemma_decoded_line_feed, lemma_encoded_line_feed, lemma_trimmed_fixed,
    lemma_trimmed_is_line_text, LINE_FEED,
};
use vstd::prelude::*;
use vstd::utf8::{decode_utf8, encode_utf8, encode_utf8_decode_utf8, encode_utf8_valid_utf8};

verus! {

/// Neither text of the record holds a line feed.
pub open spec fn fits_lines(record: RecordModel) -> bool {
    !record.title.contains('\n') && !record.hint.contains('\n')
}

/// The frame can be written so that a reader divides it as the writer meant:
/// no text holds a line feed, the counts fit, and a failure names an error.
pub open spec fn writable(frame: FrameModel) -> bool {
    &&& frame.warnings.len() <= u64::MAX
    &&& forall|i: int| 0 <= i < frame.warnings.len() ==> fits_lines(#[trigger] frame.warnings[i])
    &&& frame.body matches BodyModel::Failure { errors } ==> {
        &&& 0 < errors.len() <= u64::MAX
        &&& forall|i: int| 0 <= i < errors.len() ==> fits_lines(#[trigger] errors[i])
    }
}

/// The lines of a record as they stand in the stream.
pub open spec fn raw_record(record: RecordModel) -> RawRecord {
    RawRecord { title: encode_utf8(record.title), hint: encode_utf8(record.hint) }
}

/// The lines of a run of records as they stand in the stream.
pub open spec fn raw_records(records: Seq<RecordModel>) -> Seq<RawRecord> {
    records.map_values(|r: RecordModel| raw_record(r))
}

/// The errors that a body names; none for a success.
pub open spec fn errors_of(body: BodyModel) -> Seq<RecordModel> {
    match body {
        BodyModel::Success { artifact } => Seq::empty(),
        BodyModel::Failure { errors } => errors,
    }
}

/// The artifact that a body carries; empty for a failure.
pub open spec fn artifact_of(body: BodyModel) -> Seq<u8> {
    match body {
        BodyModel::Success { artifact } => artifact,
        BodyModel::Failure { errors } => Seq::empty(),
    }
}

proof fn lemma_line_end_found(bytes: Seq<u8>, at: int, end: int)
    requires
        0 <= at <= end < bytes.len(),
        bytes[end] == LINE_FEED,
        forall|j: int| at <= j < end ==> bytes[j] != LINE_FEED,
    ensures
        line_end(bytes, at) == end,
    decreases end - at,
{
    if at < end {
        lemma_line_end_found(bytes, at + 1, end);
    }
}

proof fn lemma_line_end_range(bytes: Seq<u8>, at: int)
    requires
        0 <= at <= bytes.len(),
    ensures
        at <= line_end(bytes, at) <= bytes.len(),
        line_end(bytes, at) < bytes.len() ==> bytes[line_end(bytes, at)] == LINE_FEED,
        forall|j: int| at <= j < line_end(bytes, at) ==> bytes[j] != LINE_FEED,
    decreases bytes.len() - at,
{
    if at < bytes.len() && bytes[at] != LINE_FEED {
        lemma_line_end_range(bytes, at + 1);
    }
}

proof fn lemma_scan_written_line(bytes: Seq<u8>, at: int, text: Seq<char>)
    requires
        0 <= at,
        at + encode_line(text).len() <= bytes.len(),
        bytes.subrange(at, at + encode_line(text).len()) == encode_line(text),
        !text.contains('\n'),
    ensures
        line_end(bytes, at) == at + encode_utf8(text).len(),
        bytes.subrange(at, line_end(bytes, at)) == encode_utf8(text),
{
    let line = encode_line(text);
    let body = encode_utf8(text);
    let end = at + body.len();
    lemma_encoded_line_feed(text);
    assert forall|j: int| at <= j < end implies bytes[j] != LINE_FEED by {
        assert(bytes[j] == line[j - at]);
        assert(line[j - at] == body[j - at]);
    }
    assert(bytes[end] == line[body.len() as int]);
    lemma_line_end_found(bytes, at, end);
    assert(bytes.subrange(at, end) =~= body) by {
        assert forall|k: int| 0 <= k < body.len() implies bytes.subrange(at, end)[k] == body[k] by {
            assert(bytes[at + k] == line[k]);
        }
    }
}

proof fn lemma_scan_written_record(bytes: Seq<u8>, at: int, record: RecordModel)
    requires
        0 <= at,
        at + encode_record(record).len() <= bytes.len(),
        bytes.subrange(at, at + encode_record(record).len()) == encode_record(record),
        fits_lines(record),
    ensures
        scan_record(bytes, at) == Some((raw_record(record), at + encode_record(record).len())),
{
    let first = encode_line(record.title);
    let second = encode_line(record.hint);
    let whole = encode_record(record);
    let mid = at + first.len();
    assert(bytes.subrange(at, mid) =~= first) by {
        assert forall|k: int| 0 <= k < first.len() implies bytes.subrange(at, mid)[k] == first[k] by {
            assert(bytes.subrange(at, at + whole.len())[k] == whole[k]);
        }
    }
    assert(bytes.subrange(mid, mid + second.len()) =~= second) by {
        assert forall|k: int| 0 <= k < second.len() implies bytes.subrange(
            mid,
            mid + second.len(),
        )[k] == second[k] by {
            assert(bytes.subrange(at, at + whole.len())[first.len() + k] == whole[first.len() + k]);
        }
    }
    lemma_scan_written_line(bytes, at, record.title);
    lemma_scan_written_line(bytes, mid, record.hint);
}

proof fn lemma_scan_written_records(bytes: Seq<u8>, at: int, records: Seq<RecordModel>)
    requires
        0 <= at,
        at + encode_records(records).len() <= bytes.len(),
        bytes.subrange(at, at + encode_records(records).len()) == encode_records(records),
        forall|i: int| 0 <= i < records.len() ==> fits_lines(#[trigger] records[i]),
    ensures
        scan_records(bytes, at, records.len()) == Some(
            (raw_records(records), at + encode_records(records).len()),
        ),
    decreases records.len(),
{
    if records.len() == 0 {
        assert(raw_records(records) =~= Seq::empty());
    } else {
        let front = records.drop_last();
        let last = records.last();
        let whole = encode_records(records);
        let head = encode_records(front);
        let tail = encode_record(last);
        let mid = at + head.len();
        assert(bytes.subrange(at, mid) =~= head) by {
            assert forall|k: int| 0 <= k < head.len() implies bytes.subrange(at, mid)[k]
                == head[k] by {
                assert(bytes.subrange(at, at + whole.len())[k] == whole[k]);
            }
        }
        assert(bytes.subrange(mid, mid + tail.len()) =~= tail) by {
            assert forall|k: int| 0 <= k < tail.len() implies bytes.subrange(
                mid,
                mid + tail.len(),
            )[k] == tail[k] by {
                assert(bytes.subrange(at, at + whole.len())[head.len() + k] == whole[head.len()
                    + k]);
            }
        }
        assert forall|i: int| 0 <= i < front.len() implies fits_lines(#[trigger] front[i]) by {
            assert(front[i] == records[i]);
        }
        lemma_scan_written_records(bytes, at, front);
        lemma_scan_written_record(bytes, mid, last);
        assert(raw_records(records) =~= raw_records(front).push(raw_record(last)));
    }
}

proof fn lemma_scan_written_section(bytes: Seq<u8>, at: int, records: Seq<RecordModel>)
    requires
        0 <= at,
        records.len() <= u64::MAX,
        at + COUNT_WIDTH + encode_records(records).len() <= bytes.len(),
        bytes.subrange(at, at + COUNT_WIDTH + encode_records(records).len()) == count_bytes(
            records.len() as u64,
        ) + encode_records(records),
        forall|i: int| 0 <= i < records.len() ==> fits_lines(#[trigger] records[i]),
    ensures
        scan_section(bytes, at) == Some(
            (raw_records(records), at + COUNT_WIDTH + encode_records(records).len()),
        ),
{
    let count = count_bytes(records.len() as u64);
    let lines = encode_records(records);
    let whole = count + lines;
    count_round_trip(records.len() as u64);
    let start = at + COUNT_WIDTH;
    assert(bytes.subrange(at, start) =~= count) by {
        assert forall|k: int| 0 <= k < count.len() implies bytes.subrange(at, start)[k]
            == count[k] by {
            assert(bytes.subrange(at, at + whole.len())[k] == whole[k]);
        }
    }
    assert(bytes.subrange(start, start + lines.len()) =~= lines) by {
        assert forall|k: int| 0 <= k < lines.len() implies bytes.subrange(
            start,
            start + lines.len(),
        )[k] == lines[k] by {
            assert(bytes.subrange(at, at + whole.len())[count.len() + k] == whole[count.len() + k]);
        }
    }
    lemma_scan_written_records(bytes, start, records);
}

/// How the bytes written for a frame, with anything after them, divide.
pub proof fn lemma_layout_of_written(frame: FrameModel, extra: Seq<u8>)
    requires
        writable(frame),
    ensures
        layout(encode_frame(frame) + extra) == Some(
            Layout {
                warnings: raw_records(frame.warnings),
                errors: raw_records(errors_of(frame.body)),
                trailing: artifact_of(frame.body) + extra,
            },
        ),
{
    let bytes = encode_frame(frame) + extra;
    let first = count_bytes(frame.warnings.len() as u64) + encode_records(frame.warnings);
    let errors = errors_of(frame.body);
    let second = count_bytes(errors.len() as u64) + encode_records(errors);
    let rest = artifact_of(frame.body) + extra;
    count_round_trip(frame.warnings.len() as u64);
    count_round_trip(errors.len() as u64);
    assert(encode_records(Seq::<RecordModel>::empty()) =~= Seq::<u8>::empty());
    assert(bytes =~= first + second + rest);
    assert(bytes.subrange(0, first.len() as int) =~= first);
    assert(bytes.subrange(first.len() as int, (first.len() + second.len()) as int) =~= second);
    lemma_scan_written_section(bytes, 0, frame.warnings);
    lemma_scan_written_section(bytes, first.len() as int, errors);
    assert(bytes.subrange((first.len() + second.len()) as int, bytes.len() as int) =~= rest);
}

proof fn lemma_read_written_records(records: Seq<RecordModel>)
    requires
        all_wf(records),
    ensures
        all_text(raw_records(records)),
        read_records(raw_records(records)) == records,
{
    let raw = raw_records(records);
    assert forall|i: int| 0 <= i < raw.len() implies is_text(#[trigger] raw[i]) && read_record(
        raw[i],
    ) == records[i] by {
        let record = records[i];
        assert(record.wf());
        encode_utf8_valid_utf8(record.title);
        encode_utf8_valid_utf8(record.hint);
        encode_utf8_decode_utf8(record.title);
        encode_utf8_decode_utf8(record.hint);
        lemma_trimmed_fixed(record.title);
        lemma_trimmed_fixed(record.hint);
    }
    assert(read_records(raw) =~= records);
}

/// A well-formed frame is writable.
pub proof fn lemma_wf_is_writable(frame: FrameModel)
    requires
        frame.wf(),
    ensures
        writable(frame),
{
    assert forall|i: int| 0 <= i < frame.warnings.len() implies fits_lines(
        #[trigger] frame.warnings[i],
    ) by {
        assert(frame.warnings[i].wf());
    }
    if let BodyModel::Failure { errors } = frame.body {
        assert forall|i: int| 0 <= i < errors.len() implies fits_lines(#[trigger] errors[i]) by {
            assert(errors[i].wf());
        }
    }
}

/// Reading back what was written for a well-formed frame gives that very
/// frame.
pub proof fn round_trip(frame: FrameModel)
    requires
        frame.wf(),
    ensures
        decode_frame(encode_frame(frame)) == Ok::<FrameModel, DecodeError>(frame),
{
    lemma_wf_is_writable(frame);
    lemma_layout_of_written(frame, Seq::empty());
    assert(encode_frame(frame) + Seq::<u8>::empty() =~= encode_frame(frame));
    let parts = layout(encode_frame(frame)).unwrap();
    lemma_read_written_records(frame.warnings);
    assert(all_wf(errors_of(frame.body)));
    lemma_read_written_records(errors_of(frame.body));
    assert(parts.trailing =~= artifact_of(frame.body));
    match frame.body {
        BodyModel::Success { artifact } => {
            assert(parts.errors.len() == 0);
        },
        BodyModel::Failure { errors } => {
            assert(parts.errors.len() == errors.len());
        },
    }
}

/// Two well-formed frames that are written alike are the same frame.
pub proof fn written_alike_means_equal(left: FrameModel, right: FrameModel)
    requires
        left.wf(),
        right.wf(),
        encode_frame(left) == encode_frame(right),
    ensures
        left == right,
{
    round_trip(left);
    round_trip(right);
}

/// A stream whose error count is not zero and in which bytes follow the errors
/// reads as malformed.
pub proof fn trailing_after_errors_is_malformed(bytes: Seq<u8>)
    requires
        layout(bytes) matches Some(parts) && parts.errors.len() > 0 && parts.trailing.len() > 0,
    ensures
        decode_frame(bytes) == Err::<FrameModel, DecodeError>(DecodeError::MalformedFrame),
{
}

/// Bytes added after a written failure make the stream malformed.
pub proof fn bytes_after_failure_are_malformed(frame: FrameModel, extra: Seq<u8>)
    requires
        frame.wf(),
        frame.body is Failure,
        extra.len() > 0,
    ensures
        decode_frame(encode_frame(frame) + extra) == Err::<FrameModel, DecodeError>(
            DecodeError::MalformedFrame,
        ),
{
    lemma_wf_is_writable(frame);
    lemma_layout_of_written(frame, extra);
    let parts = layout(encode_frame(frame) + extra).unwrap();
    assert(parts.errors.len() == errors_of(frame.body).len());
    assert(parts.trailing =~= extra);
}

/// Number of leading bytes of a complete stream that its counts and lines
/// take up: all of it but the trailing bytes.
pub open spec fn structure_len(bytes: Seq<u8>) -> int
    recommends
        layout(bytes) is Some,
{
    bytes.len() - layout(bytes).unwrap().trailing.len()
}

proof fn lemma_line_end_of_prefix(bytes: Seq<u8>, cut: int, at: int)
    requires
        0 <= cut <= bytes.len(),
        0 <= at,
        line_end(bytes.take(cut), at) < cut,
    ensures
        line_end(bytes, at) == line_end(bytes.take(cut), at),
    decreases cut - at,
{
    let front = bytes.take(cut);
    if at < cut {
        assert(front[at] == bytes[at]);
        if bytes[at] != LINE_FEED {
            lemma_line_end_of_prefix(bytes, cut, at + 1);
        }
    }
}

proof fn lemma_scan_record_of_prefix(bytes: Seq<u8>, cut: int, at: int)
    requires
        0 <= cut <= bytes.len(),
        scan_record(bytes.take(cut), at) is Some,
    ensures
        scan_record(bytes, at) == scan_record(bytes.take(cut), at),
        scan_record(bytes, at).unwrap().1 <= cut,
{
    let front = bytes.take(cut);
    let title_end = line_end(front, at);
    lemma_line_end_of_prefix(bytes, cut, at);
    lemma_line_end_range(front, at);
    lemma_line_end_of_prefix(bytes, cut, title_end + 1);
    let hint_end = line_end(front, title_end + 1);
    lemma_line_end_range(front, title_end + 1);
    assert(front.subrange(at, title_end) =~= bytes.subrange(at, title_end));
    assert(front.subrange(title_end + 1, hint_end) =~= bytes.subrange(title_end + 1, hint_end));
}

proof fn lemma_scan_records_of_prefix(bytes: Seq<u8>, cut: int, at: int, count: nat)
    requires
        0 <= at <= cut <= bytes.len(),
        scan_records(bytes.take(cut), at, count) is Some,
    ensures
        scan_records(bytes, at, count) == scan_records(bytes.take(cut), at, count),
        at <= scan_records(bytes, at, count).unwrap().1 <= cut,
    decreases count,
{
    if count > 0 {
        lemma_scan_records_of_prefix(bytes, cut, at, (count - 1) as nat);
        let (_, next) = scan_records(bytes, at, (count - 1) as nat).unwrap();
        lemma_scan_record_of_prefix(bytes, cut, next);
        lemma_line_end_range(bytes, next);
        lemma_line_end_range(bytes, line_end(bytes, next) + 1);
    }
}

proof fn lemma_scan_section_of_prefix(bytes: Seq<u8>, cut: int, at: int)
    requires
        0 <= at <= cut <= bytes.len(),
        scan_section(bytes.take(cut), at) is Some,
    ensures
        scan_section(bytes, at) == scan_section(bytes.take(cut), at),
        at <= scan_section(bytes, at).unwrap().1 <= cut,
{
    let front = bytes.take(cut);
    assert(front.subrange(at, at + COUNT_WIDTH) =~= bytes.subrange(at, at + COUNT_WIDTH));
    let count = scan_count(front, at).unwrap();
    lemma_scan_records_of_prefix(bytes, cut, at + COUNT_WIDTH, count);
}

/// A stream cut anywhere inside its counts and lines reads as incomplete.
pub proof fn cut_stream_is_incomplete(bytes: Seq<u8>, cut: int)
    requires
        layout(bytes) is Some,
        0 <= cut < structure_len(bytes),
    ensures
        decode_frame(bytes.take(cut)) == Err::<FrameModel, DecodeError>(
            DecodeError::IncompleteFrame,
        ),
{
    let front = bytes.take(cut);
    if layout(front) is Some {
        let (_, next) = scan_section(front, 0).unwrap();
        lemma_scan_section_of_prefix(bytes, cut, 0);
        lemma_scan_section_of_prefix(bytes, cut, next);
        let (_, end) = scan_section(bytes, next).unwrap();
        assert(end <= cut);
        assert(layout(bytes).unwrap().trailing.len() == bytes.len() - end);
    }
}

/// What was written for a well-formed frame, cut anywhere before its artifact
/// begins, reads as incomplete. A failure has no artifact, so every cut of it
/// does.
pub proof fn cut_frame_is_incomplete(frame: FrameModel, cut: int)
    requires
        frame.wf(),
        0 <= cut < encode_frame(frame).len() - artifact_of(frame.body).len(),
    ensures
        decode_frame(encode_frame(frame).take(cut)) == Err::<FrameModel, DecodeError>(
            DecodeError::IncompleteFrame,
        ),
{
    lemma_wf_is_writable(frame);
    lemma_layout_of_written(frame, Seq::empty());
    assert(encode_frame(frame) + Seq::<u8>::empty() =~= encode_frame(frame));
    assert(artifact_of(frame.body) + Seq::<u8>::empty() =~= artifact_of(frame.body));
    cut_stream_is_incomplete(encode_frame(frame), cut);
}

/// Reading fails as incomplete exactly when the stream does not divide, and
/// never hands out part of a frame then.
pub proof fn incomplete_means_undivided(bytes: Seq<u8>)
    ensures
        decode_frame(bytes) == Err::<FrameModel, DecodeError>(DecodeError::IncompleteFrame)
            <==> layout(bytes) is None,
{
}

proof fn lemma_scanned_lines(bytes: Seq<u8>, at: int, count: nat)
    requires
        0 <= at <= bytes.len(),
        scan_records(bytes, at, count) is Some,
    ensures
        ({
            let (records, end) = scan_records(bytes, at, count).unwrap();
            &&& records.len() == count
            &&& at <= end <= bytes.len()
            &&& forall|i: int|
                0 <= i < records.len() ==> !(#[trigger] records[i]).title.contains(LINE_FEED)
                    && !records[i].hint.contains(LINE_FEED)
        }),
    decreases count,
{
    if count > 0 {
        lemma_scanned_lines(bytes, at, (count - 1) as nat);
        let (front, next) = scan_records(bytes, at, (count - 1) as nat).unwrap();
        let (one, end) = scan_record(bytes, next).unwrap();
        let title_end = line_end(bytes, next);
        let hint_end = line_end(bytes, title_end + 1);
        lemma_line_end_range(bytes, next);
        lemma_line_end_range(bytes, title_end + 1);
        let records = front.push(one);
        assert forall|i: int| 0 <= i < records.len() implies !(#[trigger] records[i]).title.contains(
            LINE_FEED,
        ) && !records[i].hint.contains(LINE_FEED) by {
            if i < front.len() {
                assert(records[i] == front[i]);
            } else {
                if one.title.contains(LINE_FEED) {
                    let k = choose|k: int| 0 <= k < one.title.len() && one.title[k] == LINE_FEED;
                    assert(bytes[next + k] == LINE_FEED);
                }
                if one.hint.contains(LINE_FEED) {
                    let k = choose|k: int| 0 <= k < one.hint.len() && one.hint[k] == LINE_FEED;
                    assert(bytes[title_end + 1 + k] == LINE_FEED);
                }
            }
        }
    }
}

proof fn lemma_read_records_wf(records: Seq<RawRecord>)
    requires
        all_text(records),
        forall|i: int|
            0 <= i < records.len() ==> !(#[trigger] records[i]).title.contains(LINE_FEED)
                && !records[i].hint.contains(LINE_FEED),
    ensures
        all_wf(read_records(records)),
{
    let read = read_records(records);
    assert forall|i: int| 0 <= i < read.len() implies (#[trigger] read[i]).wf() by {
        let raw = records[i];
        assert(is_text(raw));
        lemma_decoded_line_feed(raw.title);
        lemma_decoded_line_feed(raw.hint);
        lemma_trimmed_is_line_text(decode_utf8(raw.title));
        lemma_trimmed_is_line_text(decode_utf8(raw.hint));
    }
}

/// Whatever frame reading hands out is well formed.
pub proof fn decoded_frame_is_wf(bytes: Seq<u8>)
    ensures
        decode_frame(bytes) matches Ok(frame) ==> frame.wf(),
{
    if let Ok(frame) = decode_frame(bytes) {
        let parts = layout(bytes).unwrap();
        let first = scan_count(bytes, 0).unwrap();
        count_bytes_of_value(bytes.subrange(0, COUNT_WIDTH as int));
        lemma_scanned_lines(bytes, COUNT_WIDTH as int, first);
        let (_, next) = scan_section(bytes, 0).unwrap();
        let second = scan_count(bytes, next).unwrap();
        count_bytes_of_value(bytes.subrange(next, next + COUNT_WIDTH));
        lemma_scanned_lines(bytes, next + COUNT_WIDTH, second);
        lemma_read_records_wf(parts.warnings);
        lemma_read_records_wf(parts.errors);
    }
}

} // verus!

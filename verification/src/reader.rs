//! Framing: from the bytes of a file to its header and the sequence of its records.

use crate::error::{ReadError, ShpError};
use crate::header::ShpHeader;
use crate::record::{
    RecordView, ShpRecord, ShpRecordContent, ShpRecordHeader, RECORD_HEADER_LEN,
};
use crate::wire::be_i32;
use vstd::prelude::*;
use vstd::slice::slice_subrange;

verus! {

/// A decoded file: its header and its records in file order.
#[derive(Clone, Debug, PartialEq, Eq)]
pub struct ShpFile {
    pub header: ShpHeader,
    pub records: Vec<ShpRecord>,
}

/// The bytes of a file, held in two parts: the 100 bytes of the file header, and all that
/// follows them, which is the records.
pub struct ShpReader {
    pub shp_header_buffer: [u8; 100],
    pub record_buffer: Vec<u8>,
}

/// What a [`ShpFile`] holds.
pub struct FileView {
    pub header: ShpHeader,
    pub records: Seq<RecordView>,
}

impl FileView {
    /// The header is well-formed, and the counts that each geometry declares are the numbers
    /// of items it holds.
    pub open spec fn wf(self) -> bool {
        &&& self.header.wf()
        &&& records_wf(self.records)
    }
}

/// The counts that each geometry declares are the numbers of items it holds.
pub open spec fn records_wf(records: Seq<RecordView>) -> bool {
    forall|i: int| 0 <= i < records.len() ==> (#[trigger] records[i]).content.wf()
}

/// What a sequence of records holds, record by record.
pub open spec fn record_views(records: Seq<ShpRecord>) -> Seq<RecordView> {
    Seq::new(records.len(), |i: int| records[i]@)
}

impl View for ShpFile {
    type V = FileView;

    open spec fn view(&self) -> FileView {
        FileView { header: self.header, records: record_views(self.records@) }
    }
}

impl ShpFile {
    /// The header is well-formed, and the counts that each geometry declares are the numbers
    /// of items it holds.
    pub open spec fn wf(&self) -> bool {
        self@.wf()
    }
}

/// The error for a record that starts at `offset`.
pub open spec fn record_error(kind: ShpError, offset: int, number: Option<i32>) -> ReadError {
    ReadError::Record { kind, offset: offset as usize, number }
}

/// What the record that starts at offset `pos` of `buf` decodes to, and the offset at which
/// the next record starts.
///
/// The record takes its eight header bytes and then twice as many bytes as its header
/// declares words. It is cut short where fewer than eight bytes are left, where the declared
/// length is below zero, and where the declared bytes reach beyond the end of `buf`. The
/// content is decoded from exactly the declared bytes.
pub open spec fn spec_read_record(buf: Seq<u8>, pos: int) -> Result<(RecordView, int), ReadError> {
    if pos + 8 > buf.len() {
        Err(record_error(ShpError::TruncatedRecord, pos, None))
    } else {
        let header = ShpRecordHeader::spec_parse(buf.subrange(pos, pos + 8))->Ok_0;
        let end = pos + 8 + 2 * header.length;
        if header.length < 0 || end > buf.len() {
            Err(record_error(ShpError::TruncatedRecord, pos, Some(header.number)))
        } else {
            match ShpRecordContent::spec_parse(buf.subrange(pos + 8, end)) {
                Ok(content) => Ok((RecordView { header, content }, end)),
                Err(kind) => Err(record_error(kind, pos, Some(header.number))),
            }
        }
    }
}

/// What the bytes of `buf` from offset `pos` on decode to: record after record until
/// nothing is left, or the error of the first record that is rejected.
pub open spec fn spec_read_records_from(buf: Seq<u8>, pos: int) -> Result<
    Seq<RecordView>,
    ReadError,
>
    decreases buf.len() - pos,
{
    if pos < 0 || pos >= buf.len() {
        Ok(Seq::empty())
    } else {
        match spec_read_record(buf, pos) {
            Err(e) => Err(e),
            Ok((record, next)) => match spec_read_records_from(buf, next) {
                Ok(rest) => Ok(seq![record] + rest),
                Err(e) => Err(e),
            },
        }
    }
}

/// What a record buffer decodes to.
pub open spec fn spec_read_records(buf: Seq<u8>) -> Result<Seq<RecordView>, ReadError> {
    spec_read_records_from(buf, 0)
}

/// What the two parts of a file decode to: the file header first, then the records.
pub open spec fn spec_read(header: Seq<u8>, records: Seq<u8>) -> Result<FileView, ReadError> {
    match ShpHeader::spec_parse(header) {
        Err(kind) => Err(ReadError::Header { kind }),
        Ok(header) => match spec_read_records(records) {
            Ok(records) => Ok(FileView { header, records }),
            Err(e) => Err(e),
        },
    }
}

/// The records already decoded, followed by what the rest of the buffer decodes to.
pub open spec fn prepend(done: Seq<RecordView>, rest: Result<Seq<RecordView>, ReadError>) -> Result<
    Seq<RecordView>,
    ReadError,
> {
    match rest {
        Ok(rest) => Ok(done + rest),
        Err(e) => Err(e),
    }
}

/// Decodes the record that starts at offset `pos` of `buf`, and gives the offset at which
/// the next record starts.
pub fn read_record(buf: &[u8], pos: usize) -> (r: Result<(ShpRecord, usize), ReadError>)
    ensures
        match r {
            Ok((record, next)) => spec_read_record(buf@, pos as int) == Ok::<
                (RecordView, int),
                ReadError,
            >((record@, next as int)) && record.content.wf() && pos < next <= buf@.len(),
            Err(e) => spec_read_record(buf@, pos as int) == Err::<(RecordView, int), ReadError>(e),
        },
{
    let len = buf.len();
    if len < RECORD_HEADER_LEN || pos > len - RECORD_HEADER_LEN {
        return Err(ReadError::Record { kind: ShpError::TruncatedRecord, offset: pos, number: None });
    }
    let header = match ShpRecordHeader::parse(slice_subrange(buf, pos, pos + RECORD_HEADER_LEN)) {
        Ok(header) => header,
        Err(kind) => {
            return Err(ReadError::Record { kind, offset: pos, number: None });
        },
    };
    let number = Some(header.number);
    if header.length < 0 {
        return Err(ReadError::Record { kind: ShpError::TruncatedRecord, offset: pos, number });
    }
    let start = pos + RECORD_HEADER_LEN;
    if 2 * (header.length as u64) > (len - start) as u64 {
        return Err(ReadError::Record { kind: ShpError::TruncatedRecord, offset: pos, number });
    }
    let end = start + 2 * (header.length as usize);
    match ShpRecordContent::parse(slice_subrange(buf, start, end)) {
        Ok(content) => Ok((ShpRecord { header, content }, end)),
        Err(kind) => Err(ReadError::Record { kind, offset: pos, number }),
    }
}

/// Whatever a buffer decodes to is well-formed.
pub proof fn lemma_read_records_wf(buf: Seq<u8>, pos: int)
    ensures
        spec_read_records_from(buf, pos) matches Ok(records) ==> records_wf(records),
    decreases buf.len() - pos,
{
    if 0 <= pos < buf.len() {
        if let Ok((record, next)) = spec_read_record(buf, pos) {
            lemma_read_records_wf(buf, next);
        }
    }
}

/// Decodes a record buffer: every record in file order, or the error of the first record
/// that is rejected.
pub fn read_records(buf: &[u8]) -> (r: Result<Vec<ShpRecord>, ReadError>)
    ensures
        match r {
            Ok(records) => spec_read_records(buf@) == Ok::<Seq<RecordView>, ReadError>(
                record_views(records@),
            ) && records_wf(record_views(records@)),
            Err(e) => spec_read_records(buf@) == Err::<Seq<RecordView>, ReadError>(e),
        },
{
    let mut records: Vec<ShpRecord> = Vec::new();
    let mut pos: usize = 0;
    while pos < buf.len()
        invariant
            pos <= buf@.len(),
            spec_read_records(buf@) == prepend(
                record_views(records@),
                spec_read_records_from(buf@, pos as int),
            ),
        decreases buf@.len() - pos,
    {
        let ghost done = record_views(records@);
        match read_record(buf, pos) {
            Ok((record, next)) => {
                proof {
                    let rest = spec_read_records_from(buf@, next as int);
                    assert(spec_read_records_from(buf@, pos as int) == prepend(seq![record@], rest));
                    assert(record_views(records@.push(record)) =~= done + seq![record@]);
                    if let Ok(rest) = rest {
                        assert(done + (seq![record@] + rest) =~= (done + seq![record@]) + rest);
                    }
                }
                records.push(record);
                pos = next;
            },
            Err(e) => {
                return Err(e);
            },
        }
    }
    proof {
        assert(record_views(records@) + Seq::<RecordView>::empty() =~= record_views(records@));
        lemma_read_records_wf(buf@, 0);
    }
    Ok(records)
}

impl ShpReader {
    /// A reader that holds no file yet: a header of zeros and no record bytes.
    pub fn new() -> (reader: ShpReader)
        ensures
            reader.shp_header_buffer@ == Seq::new(100, |i: int| 0u8),
            reader.record_buffer@ == Seq::<u8>::empty(),
    {
        ShpReader { shp_header_buffer: [0; 100], record_buffer: Vec::new() }
    }

    /// What the reader holds decodes to.
    pub open spec fn spec_read(&self) -> Result<FileView, ReadError> {
        spec_read(self.shp_header_buffer@, self.record_buffer@)
    }

    /// Decodes the file that the reader holds: the header, then every record in file order.
    /// Decoding stops at the first error, and nothing of the file is then returned.
    pub fn read(&self) -> (r: Result<ShpFile, ReadError>)
        ensures
            match r {
                Ok(file) => self.spec_read() == Ok::<FileView, ReadError>(file@) && file.wf(),
                Err(e) => self.spec_read() == Err::<FileView, ReadError>(e),
            },
    {
        let header = match ShpHeader::parse(self.shp_header_buffer) {
            Ok(header) => header,
            Err(kind) => {
                return Err(ReadError::Header { kind });
            },
        };
        match read_records(self.record_buffer.as_slice()) {
            Ok(records) => Ok(ShpFile { header, records }),
            Err(e) => Err(e),
        }
    }
}

/// Whether `bytes` are one whole record: they decode as a record that takes all of them.
pub open spec fn is_record(bytes: Seq<u8>) -> bool {
    match spec_read_record(bytes, 0) {
        Ok((_, end)) => end == bytes.len(),
        Err(_) => false,
    }
}

/// The record that `bytes` decode to, where they are one whole record.
pub open spec fn record_of(bytes: Seq<u8>) -> RecordView {
    match spec_read_record(bytes, 0) {
        Ok((record, _)) => record,
        Err(_) => arbitrary(),
    }
}

/// The error `e` of a buffer, as it reads when `by` more bytes stand in front of the
/// buffer.
pub open spec fn shift_error(e: ReadError, by: nat) -> ReadError {
    match e {
        ReadError::Header { kind } => e,
        ReadError::Record { kind, offset, number } => record_error(kind, offset + by, number),
    }
}

/// What a record decodes to does not depend on what stands in front of it: only the offsets
/// move.
pub proof fn lemma_read_record_after_prefix(prefix: Seq<u8>, buf: Seq<u8>, pos: int)
    requires
        0 <= pos <= buf.len(),
        prefix.len() + buf.len() <= usize::MAX,
    ensures
        spec_read_record(prefix + buf, prefix.len() + pos) == match spec_read_record(buf, pos) {
            Ok((record, next)) => Ok::<(RecordView, int), ReadError>((record, prefix.len() + next)),
            Err(e) => Err(shift_error(e, prefix.len())),
        },
{
    let n = prefix.len() as int;
    let all = prefix + buf;
    if pos + 8 <= buf.len() {
        assert(all.subrange(n + pos, n + pos + 8) =~= buf.subrange(pos, pos + 8));
        let header = ShpRecordHeader::spec_parse(buf.subrange(pos, pos + 8))->Ok_0;
        let end = pos + 8 + 2 * header.length;
        if header.length >= 0 && end <= buf.len() {
            assert(all.subrange(n + pos + 8, n + end) =~= buf.subrange(pos + 8, end));
        }
    }
}

/// A record that decodes from a buffer decodes to the same from a longer one.
pub proof fn lemma_read_record_before_suffix(buf: Seq<u8>, suffix: Seq<u8>, pos: int)
    requires
        0 <= pos,
        spec_read_record(buf, pos) is Ok,
    ensures
        spec_read_record(buf + suffix, pos) == spec_read_record(buf, pos),
{
    let all = buf + suffix;
    assert(all.subrange(pos, pos + 8) =~= buf.subrange(pos, pos + 8));
    let header = ShpRecordHeader::spec_parse(buf.subrange(pos, pos + 8))->Ok_0;
    let end = pos + 8 + 2 * header.length;
    assert(all.subrange(pos + 8, end) =~= buf.subrange(pos + 8, end));
}

/// What the records of a buffer decode to does not depend on what stands in front of them:
/// only the offsets move.
pub proof fn lemma_read_records_after_prefix(prefix: Seq<u8>, buf: Seq<u8>, pos: int)
    requires
        0 <= pos <= buf.len(),
        prefix.len() + buf.len() <= usize::MAX,
    ensures
        spec_read_records_from(prefix + buf, prefix.len() + pos) == match spec_read_records_from(
            buf,
            pos,
        ) {
            Ok(records) => Ok::<Seq<RecordView>, ReadError>(records),
            Err(e) => Err(shift_error(e, prefix.len())),
        },
    decreases buf.len() - pos,
{
    if pos < buf.len() {
        lemma_read_record_after_prefix(prefix, buf, pos);
        if let Ok((_, next)) = spec_read_record(buf, pos) {
            lemma_read_records_after_prefix(prefix, buf, next);
        }
    }
}

/// A whole record followed by more bytes decodes to that record, followed by what the other
/// bytes decode to; an error among them is reported at its place in the whole.
pub proof fn lemma_read_records_step(first: Seq<u8>, rest: Seq<u8>)
    requires
        is_record(first),
        first.len() + rest.len() <= usize::MAX,
    ensures
        spec_read_records(first + rest) == match spec_read_records(rest) {
            Ok(records) => Ok::<Seq<RecordView>, ReadError>(seq![record_of(first)] + records),
            Err(e) => Err(shift_error(e, first.len())),
        },
{
    lemma_read_record_before_suffix(first, rest, 0);
    lemma_read_records_after_prefix(first, rest, 0);
}

/// Two whole records, one after the other, decode to exactly those two records in that
/// order.
pub proof fn lemma_two_records(first: Seq<u8>, second: Seq<u8>)
    requires
        is_record(first),
        is_record(second),
        first.len() + second.len() <= usize::MAX,
    ensures
        spec_read_records(first + second) == Ok::<Seq<RecordView>, ReadError>(
            seq![record_of(first), record_of(second)],
        ),
{
    lemma_read_records_step(first, second);
    assert(spec_read_records_from(second, second.len() as int) == Ok::<
        Seq<RecordView>,
        ReadError,
    >(Seq::empty()));
    assert(seq![record_of(second)] + Seq::<RecordView>::empty() =~= seq![record_of(second)]);
    assert(seq![record_of(first)] + seq![record_of(second)] =~= seq![
        record_of(first),
        record_of(second),
    ]);
}

/// A whole record followed by one whose header declares more bytes than are left is
/// rejected as truncated, at the second record.
pub proof fn lemma_second_record_truncated(first: Seq<u8>, second: Seq<u8>)
    requires
        is_record(first),
        second.len() >= 8,
        8 + 2 * be_i32(second, 4) > second.len(),
        first.len() + second.len() <= usize::MAX,
    ensures
        spec_read_records(first + second) == Err::<Seq<RecordView>, ReadError>(
            ReadError::Record {
                kind: ShpError::TruncatedRecord,
                offset: first.len() as usize,
                number: Some(be_i32(second, 0)),
            },
        ),
{
    lemma_read_records_step(first, second);
}

} // verus!

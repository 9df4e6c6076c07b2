//! Aggregation over a directory scan, and the ingestion facade: fetching
//! a snapshot, and the persistence stub.
//!
//! Traversal and file reading are the caller's: the scan here is a pure
//! function of the listed files' names and bytes.

use vstd::prelude::*;
use crate::encoding::win1252_decode;
use crate::record::{decode_file, spec_file_records, TradeRecord, TradeRecordModel};

verus! {

/// One file found under the scan root: its base name and its raw bytes.
pub struct SourceFile {
    pub name: String,
    pub bytes: Vec<u8>,
}

/// The mathematical content of a source file.
#[verifier::ext_equal]
pub ghost struct SourceFileModel {
    pub name: Seq<char>,
    pub bytes: Seq<u8>,
}

impl View for SourceFile {
    type V = SourceFileModel;

    open spec fn view(&self) -> SourceFileModel {
        SourceFileModel { name: self.name@, bytes: self.bytes@ }
    }
}

impl DeepView for SourceFile {
    type V = SourceFileModel;

    open spec fn deep_view(&self) -> SourceFileModel {
        self.view()
    }
}

/// The scan root itself could not be accessed; the one failure that
/// crosses the service boundary.
#[derive(Debug)]
pub struct ScanRootError {
    pub message: String,
}

/// What scanning a listing of source files yields: every file's records,
/// in listing order, with record order inside a file kept.
pub open spec fn spec_scan(files: Seq<SourceFileModel>) -> Seq<TradeRecordModel>
    decreases files.len(),
{
    if files.len() == 0 {
        Seq::empty()
    } else {
        spec_scan(files.drop_last()) + spec_file_records(
            win1252_decode(files.last().bytes),
            files.last().name,
        )
    }
}

/// Scanning no files yields the empty snapshot, never an error.
pub proof fn lemma_empty_scan(files: Seq<SourceFileModel>)
    requires
        files.len() == 0,
    ensures
        spec_scan(files).len() == 0,
{
}

/// Snapshot derivation is a pure function of the listed files: scans of
/// equal listings yield snapshots with identical record sequences, so two
/// fetches against an unchanged directory agree record for record.
pub proof fn lemma_scan_idempotent(first: Seq<SourceFileModel>, second: Seq<SourceFileModel>)
    requires
        first == second,
    ensures
        spec_scan(first) == spec_scan(second),
{
}

/// Decode every listed file and aggregate the records in listing order.
pub fn scan_snapshot(files: &Vec<SourceFile>) -> (r: Vec<TradeRecord>)
    ensures
        r.deep_view() == spec_scan(files.deep_view()),
        files.len() == 0 ==> r.len() == 0,
{
    let n: usize = files.len();
    let mut out: Vec<TradeRecord> = Vec::new();
    for i in 0..n
        invariant
            n == files.len(),
            out.deep_view() =~= spec_scan(files.deep_view().subrange(0, i as int)),
    {
        proof {
            assert(files.deep_view().subrange(0, i + 1).drop_last() =~= files.deep_view().subrange(
                0,
                i as int,
            ));
            assert(files.deep_view().subrange(0, i + 1).last() == files.deep_view()[i as int]);
        }
        let f = &files[i];
        let (mut recs, _lossy) = decode_file(&f.bytes, f.name.as_str());
        out.append(&mut recs);
        proof {
            assert(out.deep_view() =~= spec_scan(files.deep_view().subrange(0, i + 1)));
        }
    }
    proof {
        assert(files.deep_view().subrange(0, n as int) =~= files.deep_view());
    }
    out
}

/// Fetch one snapshot from a directory listing, or surface the root
/// failure: the records of every listed file when the root was readable,
/// and `ScanRootError` carrying the reported failure otherwise.
pub fn fetch_snapshot(listing: Result<Vec<SourceFile>, String>) -> (r: Result<
    Vec<TradeRecord>,
    ScanRootError,
>)
    ensures
        listing matches Ok(fs) ==> (r matches Ok(v) && v.deep_view() == spec_scan(fs.deep_view())),
        listing matches Err(m) ==> (r matches Err(e) && e.message@ == m@),
{
    match listing {
        Ok(files) => Ok(scan_snapshot(&files)),
        Err(message) => Err(ScanRootError { message }),
    }
}

/// Persistence stub: accepts a snapshot and acknowledges success without
/// durably storing anything.
pub fn save_snapshot(trades: &Vec<TradeRecord>) -> (r: Result<(), String>)
    ensures
        r is Ok,
{
    let _count: usize = trades.len();
    Ok(())
}

} // verus!

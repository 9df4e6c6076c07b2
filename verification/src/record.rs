//! The record decoder: one source file's text becomes a sequence of
//! normalized trade records.
//!
//! A source file carries four lines of report metadata, then a header row
//! and data rows, all `;`-delimited.  Rows whose field count does not match
//! the header, and files whose header lacks a required column, yield no
//! records; they never abort the decode.

use vstd::prelude::*;
use vstd::string::StrSliceExecFns;
use vstd::string::StringExecFns;
use crate::decimal::{spec_parse_decimal, parse_decimal, Decimal};
use crate::text::{spec_split, split_char, spec_lines, split_lines, str_eq, spec_digits, u64_to_string};
use crate::timestamp::{spec_reformat_datetime, parse_brazilian_datetime};
use crate::encoding::{win1252_decode, win1252_lossy, decode_windows_1252};

verus! {

/// One normalized trade-execution record.
#[derive(Clone, Debug, PartialEq)]
pub struct TradeRecord {
    pub id: String,
    pub asset: String,
    pub open_time: String,
    pub close_time: String,
    pub duration: String,
    pub quantity: Decimal,
    pub side: String,
    pub open_price: Decimal,
    pub close_price: Decimal,
    pub result: Decimal,
    pub contracts: Decimal,
    pub brokerage: Decimal,
    pub b3_fees: Decimal,
}

/// The mathematical content of a record.
#[verifier::ext_equal]
pub ghost struct TradeRecordModel {
    pub id: Seq<char>,
    pub asset: Seq<char>,
    pub open_time: Seq<char>,
    pub close_time: Seq<char>,
    pub duration: Seq<char>,
    pub quantity: Decimal,
    pub side: Seq<char>,
    pub open_price: Decimal,
    pub close_price: Decimal,
    pub result: Decimal,
    pub contracts: Decimal,
    pub brokerage: Decimal,
    pub b3_fees: Decimal,
}

impl View for TradeRecord {
    type V = TradeRecordModel;

    open spec fn view(&self) -> TradeRecordModel {
        TradeRecordModel {
            id: self.id@,
            asset: self.asset@,
            open_time: self.open_time@,
            close_time: self.close_time@,
            duration: self.duration@,
            quantity: self.quantity,
            side: self.side@,
            open_price: self.open_price,
            close_price: self.close_price,
            result: self.result,
            contracts: self.contracts,
            brokerage: self.brokerage,
            b3_fees: self.b3_fees,
        }
    }
}

impl DeepView for TradeRecord {
    type V = TradeRecordModel;

    open spec fn deep_view(&self) -> TradeRecordModel {
        self.view()
    }
}

/// The first position in `hdr` holding exactly `name`, if any.
pub open spec fn spec_find(hdr: Seq<Seq<char>>, name: Seq<char>) -> Option<nat>
    decreases hdr.len(),
{
    if hdr.len() == 0 {
        None
    } else if hdr[0] == name {
        Some(0)
    } else {
        match spec_find(hdr.drop_first(), name) {
            Some(j) => Some(j + 1),
            None => None,
        }
    }
}

pub proof fn lemma_find_in_range(hdr: Seq<Seq<char>>, name: Seq<char>)
    ensures
        spec_find(hdr, name) matches Some(k) ==> k < hdr.len() && hdr[k as int] == name,
    decreases hdr.len(),
{
    if hdr.len() > 0 && hdr[0] != name {
        lemma_find_in_range(hdr.drop_first(), name);
    }
}

proof fn lemma_find_from(hdr: Seq<Seq<char>>, name: Seq<char>, i: int)
    requires
        0 <= i <= hdr.len(),
        forall|j: int| 0 <= j < i ==> hdr[j] != name,
    ensures
        (spec_find(hdr, name) is Some) == (spec_find(hdr.skip(i), name) is Some),
        spec_find(hdr.skip(i), name) matches Some(k) ==> spec_find(hdr, name) == Some((k + i) as nat),
    decreases i,
{
    if i == 0 {
        assert(hdr.skip(0) =~= hdr);
    } else {
        lemma_find_from(hdr.drop_first(), name, i - 1);
        assert(hdr.drop_first().skip(i - 1) =~= hdr.skip(i));
    }
}

/// The first position in `hdr` holding exactly `name`, if any.
pub fn find_col(hdr: &Vec<String>, name: &str) -> (r: Option<usize>)
    ensures
        (r is Some) == (spec_find(hdr.deep_view(), name@) is Some),
        r matches Some(k) ==> spec_find(hdr.deep_view(), name@) == Some(k as nat),
{
    let n: usize = hdr.len();
    for i in 0..n
        invariant
            n == hdr.len(),
            forall|j: int| 0 <= j < i ==> hdr.deep_view()[j] != name@,
    {
        if str_eq(hdr[i].as_str(), name) {
            proof {
                lemma_find_from(hdr.deep_view(), name@, i as int);
                assert(hdr.deep_view().skip(i as int)[0] == hdr.deep_view()[i as int]);
            }
            return Some(i);
        }
    }
    proof {
        lemma_find_from(hdr.deep_view(), name@, n as int);
        assert(hdr.deep_view().skip(n as int) =~= Seq::<Seq<char>>::empty());
    }
    None
}

pub open spec fn col_asset(hdr: Seq<Seq<char>>) -> Option<nat> {
    spec_find(hdr, "Ativo"@)
}

pub open spec fn col_open_time(hdr: Seq<Seq<char>>) -> Option<nat> {
    spec_find(hdr, "Abertura"@)
}

pub open spec fn col_close_time(hdr: Seq<Seq<char>>) -> Option<nat> {
    spec_find(hdr, "Fechamento"@)
}

pub open spec fn col_duration(hdr: Seq<Seq<char>>) -> Option<nat> {
    spec_find(hdr, "Tempo Opera\u{e7}\u{e3}o"@)
}

pub open spec fn col_quantity(hdr: Seq<Seq<char>>) -> Option<nat> {
    spec_find(hdr, "Qtd Compra"@)
}

pub open spec fn col_side(hdr: Seq<Seq<char>>) -> Option<nat> {
    spec_find(hdr, "Lado"@)
}

pub open spec fn col_buy_price(hdr: Seq<Seq<char>>) -> Option<nat> {
    spec_find(hdr, "Pre\u{e7}o Compra"@)
}

pub open spec fn col_sell_price(hdr: Seq<Seq<char>>) -> Option<nat> {
    spec_find(hdr, "Pre\u{e7}o Venda"@)
}

pub open spec fn col_result(hdr: Seq<Seq<char>>) -> Option<nat> {
    spec_find(hdr, "Res. Opera\u{e7}\u{e3}o"@)
}

/// Whether the header row names every required column.
pub open spec fn header_complete(hdr: Seq<Seq<char>>) -> bool {
    &&& col_asset(hdr) is Some
    &&& col_open_time(hdr) is Some
    &&& col_close_time(hdr) is Some
    &&& col_duration(hdr) is Some
    &&& col_quantity(hdr) is Some
    &&& col_side(hdr) is Some
    &&& col_buy_price(hdr) is Some
    &&& col_sell_price(hdr) is Some
    &&& col_result(hdr) is Some
}

/// The record identifier: source file base name and zero-based row index.
pub open spec fn spec_record_id(fname: Seq<char>, idx: nat) -> Seq<char> {
    "trade-"@ + fname + "-"@ + spec_digits(idx)
}

/// What one data row yields: a record when the row's field count matches
/// the header and the header is complete, and nothing otherwise.
pub open spec fn spec_row_record(
    hdr: Seq<Seq<char>>,
    row: Seq<char>,
    fname: Seq<char>,
    idx: nat,
) -> Option<TradeRecordModel> {
    let fs = spec_split(row, ';');
    if fs.len() == hdr.len() && header_complete(hdr) {
        Some(
            TradeRecordModel {
                id: spec_record_id(fname, idx),
                asset: fs[col_asset(hdr)->Some_0 as int],
                open_time: spec_reformat_datetime(fs[col_open_time(hdr)->Some_0 as int]),
                close_time: spec_reformat_datetime(fs[col_close_time(hdr)->Some_0 as int]),
                duration: fs[col_duration(hdr)->Some_0 as int],
                quantity: spec_parse_decimal(fs[col_quantity(hdr)->Some_0 as int]),
                side: fs[col_side(hdr)->Some_0 as int],
                open_price: spec_parse_decimal(fs[col_buy_price(hdr)->Some_0 as int]),
                close_price: spec_parse_decimal(fs[col_sell_price(hdr)->Some_0 as int]),
                result: spec_parse_decimal(fs[col_result(hdr)->Some_0 as int]),
                contracts: spec_parse_decimal(fs[col_quantity(hdr)->Some_0 as int]),
                brokerage: Decimal::spec_zero(),
                b3_fees: Decimal::spec_zero(),
            },
        )
    } else {
        None
    }
}

/// The records of a run of data rows, malformed rows dropped, each row's
/// identifier carrying its position among all data rows.
pub open spec fn spec_rows(
    hdr: Seq<Seq<char>>,
    rows: Seq<Seq<char>>,
    fname: Seq<char>,
) -> Seq<TradeRecordModel>
    decreases rows.len(),
{
    if rows.len() == 0 {
        Seq::empty()
    } else {
        let prev = spec_rows(hdr, rows.drop_last(), fname);
        match spec_row_record(hdr, rows.last(), fname, (rows.len() - 1) as nat) {
            Some(m) => prev.push(m),
            None => prev,
        }
    }
}

/// How many data rows of a run are well-formed.
pub open spec fn count_wellformed(
    hdr: Seq<Seq<char>>,
    rows: Seq<Seq<char>>,
    fname: Seq<char>,
) -> nat
    decreases rows.len(),
{
    if rows.len() == 0 {
        0
    } else {
        count_wellformed(hdr, rows.drop_last(), fname) + if spec_row_record(
            hdr,
            rows.last(),
            fname,
            (rows.len() - 1) as nat,
        ) is Some {
            1nat
        } else {
            0nat
        }
    }
}

/// A run of data rows with N well-formed and M malformed rows yields
/// exactly N records: malformed rows are dropped, never fatal.
pub proof fn lemma_record_count(hdr: Seq<Seq<char>>, rows: Seq<Seq<char>>, fname: Seq<char>)
    ensures
        spec_rows(hdr, rows, fname).len() == count_wellformed(hdr, rows, fname),
    decreases rows.len(),
{
    if rows.len() > 0 {
        lemma_record_count(hdr, rows.drop_last(), fname);
    }
}

/// The nonempty lines, in order.
pub open spec fn keep_nonempty(ls: Seq<Seq<char>>) -> Seq<Seq<char>>
    decreases ls.len(),
{
    if ls.len() == 0 {
        Seq::empty()
    } else {
        let prev = keep_nonempty(ls.drop_last());
        if ls.last().len() > 0 {
            prev.push(ls.last())
        } else {
            prev
        }
    }
}

/// What decoding one source file's text yields: the first four lines are
/// metadata and skipped, the next nonempty line is the header, and every
/// later nonempty line is a data row.
pub open spec fn spec_file_records(text: Seq<char>, fname: Seq<char>) -> Seq<TradeRecordModel> {
    let ls = spec_lines(text);
    if ls.len() <= 4 {
        Seq::empty()
    } else {
        let ne = keep_nonempty(ls.skip(4));
        if ne.len() == 0 {
            Seq::empty()
        } else {
            spec_rows(spec_split(ne[0], ';'), ne.drop_first(), fname)
        }
    }
}

proof fn lemma_rows_incomplete_header(hdr: Seq<Seq<char>>, rows: Seq<Seq<char>>, fname: Seq<char>)
    requires
        !header_complete(hdr),
    ensures
        spec_rows(hdr, rows, fname) == Seq::<TradeRecordModel>::empty(),
    decreases rows.len(),
{
    if rows.len() > 0 {
        lemma_rows_incomplete_header(hdr, rows.drop_last(), fname);
    }
}

/// Decode one source file's already-decoded text into its records.
pub fn decode_text(text: &str, file_name: &str) -> (r: Vec<TradeRecord>)
    ensures
        r.deep_view() == spec_file_records(text@, file_name@),
{
    let lines = split_lines(text);
    let n: usize = lines.len();
    if n <= 4 {
        let empty: Vec<TradeRecord> = Vec::new();
        proof {
            assert(empty.deep_view() =~= spec_file_records(text@, file_name@));
        }
        return empty;
    }
    let mut ne: Vec<String> = Vec::new();
    for i in 4..n
        invariant
            4 <= i <= n,
            n == lines.len(),
            lines.deep_view() == spec_lines(text@),
            ne.deep_view() =~= keep_nonempty(lines.deep_view().subrange(4, i as int)),
    {
        proof {
            assert(lines.deep_view().subrange(4, i + 1).drop_last() =~= lines.deep_view().subrange(
                4,
                i as int,
            ));
        }
        if lines[i].as_str().unicode_len() > 0 {
            ne.push(lines[i].clone());
        }
    }
    proof {
        assert(lines.deep_view().subrange(4, n as int) =~= lines.deep_view().skip(4));
    }
    let ghost nev = ne.deep_view();
    if ne.len() == 0 {
        let empty: Vec<TradeRecord> = Vec::new();
        proof {
            assert(empty.deep_view() =~= spec_file_records(text@, file_name@));
        }
        return empty;
    }
    let hdr = split_char(ne[0].as_str(), ';');
    let ghost hdrv = hdr.deep_view();
    proof {
        assert(hdrv == spec_split(nev[0], ';'));
    }
    let oca = find_col(&hdr, "Ativo");
    let oco = find_col(&hdr, "Abertura");
    let occ = find_col(&hdr, "Fechamento");
    let ocd = find_col(&hdr, "Tempo Opera\u{e7}\u{e3}o");
    let ocq = find_col(&hdr, "Qtd Compra");
    let ocs = find_col(&hdr, "Lado");
    let ocb = find_col(&hdr, "Pre\u{e7}o Compra");
    let ocv = find_col(&hdr, "Pre\u{e7}o Venda");
    let ocr = find_col(&hdr, "Res. Opera\u{e7}\u{e3}o");
    if !(oca.is_some() && oco.is_some() && occ.is_some() && ocd.is_some() && ocq.is_some()
        && ocs.is_some() && ocb.is_some() && ocv.is_some() && ocr.is_some()) {
        let empty: Vec<TradeRecord> = Vec::new();
        proof {
            lemma_rows_incomplete_header(hdrv, nev.drop_first(), file_name@);
            assert(empty.deep_view() =~= spec_file_records(text@, file_name@));
        }
        return empty;
    }
    let ca = oca.unwrap();
    let co = oco.unwrap();
    let cc = occ.unwrap();
    let cd = ocd.unwrap();
    let cq = ocq.unwrap();
    let cs = ocs.unwrap();
    let cb = ocb.unwrap();
    let cv = ocv.unwrap();
    let cr = ocr.unwrap();
    proof {
        lemma_find_in_range(hdrv, "Ativo"@);
        lemma_find_in_range(hdrv, "Abertura"@);
        lemma_find_in_range(hdrv, "Fechamento"@);
        lemma_find_in_range(hdrv, "Tempo Opera\u{e7}\u{e3}o"@);
        lemma_find_in_range(hdrv, "Qtd Compra"@);
        lemma_find_in_range(hdrv, "Lado"@);
        lemma_find_in_range(hdrv, "Pre\u{e7}o Compra"@);
        lemma_find_in_range(hdrv, "Pre\u{e7}o Venda"@);
        lemma_find_in_range(hdrv, "Res. Opera\u{e7}\u{e3}o"@);
    }
    let hdr_len: usize = hdr.len();
    let m: usize = ne.len();
    let ghost rows = nev.drop_first();
    proof {
        assert(rows =~= nev.subrange(1, m as int));
    }
    let mut out: Vec<TradeRecord> = Vec::new();
    for ri in 1..m
        invariant
            1 <= ri <= m,
            m == ne.len(),
            ne.deep_view() == nev,
            hdr_len == hdrv.len(),
            hdrv == spec_split(nev[0], ';'),
            rows == nev.drop_first(),
            rows =~= nev.subrange(1, m as int),
            header_complete(hdrv),
            ca == col_asset(hdrv)->Some_0 && ca < hdrv.len(),
            co == col_open_time(hdrv)->Some_0 && co < hdrv.len(),
            cc == col_close_time(hdrv)->Some_0 && cc < hdrv.len(),
            cd == col_duration(hdrv)->Some_0 && cd < hdrv.len(),
            cq == col_quantity(hdrv)->Some_0 && cq < hdrv.len(),
            cs == col_side(hdrv)->Some_0 && cs < hdrv.len(),
            cb == col_buy_price(hdrv)->Some_0 && cb < hdrv.len(),
            cv == col_sell_price(hdrv)->Some_0 && cv < hdrv.len(),
            cr == col_result(hdrv)->Some_0 && cr < hdrv.len(),
            out.deep_view() =~= spec_rows(hdrv, rows.subrange(0, ri - 1), file_name@),
    {
        proof {
            assert(rows.subrange(0, ri as int).drop_last() =~= rows.subrange(0, ri - 1));
            assert(rows.subrange(0, ri as int).last() == rows[ri - 1]);
            assert(rows[ri - 1] == nev[ri as int]);
        }
        let row = &ne[ri];
        let fs = split_char(row.as_str(), ';');
        if fs.len() == hdr_len {
            let mut id = String::from_str("trade-");
            id.append(file_name);
            id.append("-");
            let idx_str = u64_to_string((ri - 1) as u64);
            id.append(idx_str.as_str());
            let rec = TradeRecord {
                id,
                asset: fs[ca].clone(),
                open_time: parse_brazilian_datetime(fs[co].as_str()),
                close_time: parse_brazilian_datetime(fs[cc].as_str()),
                duration: fs[cd].clone(),
                quantity: parse_decimal(fs[cq].as_str()),
                side: fs[cs].clone(),
                open_price: parse_decimal(fs[cb].as_str()),
                close_price: parse_decimal(fs[cv].as_str()),
                result: parse_decimal(fs[cr].as_str()),
                contracts: parse_decimal(fs[cq].as_str()),
                brokerage: Decimal::zero(),
                b3_fees: Decimal::zero(),
            };
            proof {
                assert(fs.deep_view()[ca as int] == spec_split(rows[ri - 1], ';')[ca as int]);
                assert(rec@ =~= spec_row_record(hdrv, rows[ri - 1], file_name@, (ri - 1) as nat)->Some_0);
            }
            out.push(rec);
        }
        proof {
            assert(out.deep_view() =~= spec_rows(hdrv, rows.subrange(0, ri as int), file_name@));
        }
    }
    proof {
        assert(rows.subrange(0, m - 1) =~= rows);
    }
    out
}

/// Decode one source file's raw bytes into its records: the bytes are read
/// as windows-1252 text and the text is decoded as a delimited table.
/// The second result says whether the byte-to-text step was lossy, so the
/// caller can record the degraded fidelity; it never fails the decode.
pub fn decode_file(bytes: &Vec<u8>, file_name: &str) -> (r: (Vec<TradeRecord>, bool))
    ensures
        r.0.deep_view() == spec_file_records(win1252_decode(bytes@), file_name@),
        r.1 == win1252_lossy(bytes@),
{
    let (text, lossy) = decode_windows_1252(bytes);
    (decode_text(text.as_str(), file_name), lossy)
}

} // verus!

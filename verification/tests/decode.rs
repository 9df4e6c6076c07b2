use trade_ingest::decimal::Decimal;
use trade_ingest::record::{decode_file, decode_text};
use trade_ingest::scan::{fetch_snapshot, save_snapshot, scan_snapshot, SourceFile};

const HEADER: &str = "Ativo;Abertura;Fechamento;Tempo Opera\u{e7}\u{e3}o;Qtd Compra;Lado;Pre\u{e7}o Compra;Pre\u{e7}o Venda;Res. Opera\u{e7}\u{e3}o";

const EXAMPLE_ROW: &str = "WINFUT;15/03/2024 09:05:00;15/03/2024 09:10:00;00:05:00;1;Compra;120.500,00;120.600,00;100,00";

/// The file's text as windows-1252 bytes: the only non-ASCII characters
/// in these fixtures are the cedilla and the tilde-a.
fn to_cp1252(text: &str) -> Vec<u8> {
    let mut bytes = Vec::new();
    for c in text.chars() {
        match c {
            '\u{e7}' => bytes.push(0xE7),
            '\u{e3}' => bytes.push(0xE3),
            _ => bytes.push(c as u8),
        }
    }
    bytes
}

fn file_text(rows: &[&str]) -> String {
    let mut text = String::new();
    text.push_str("Relatorio\nConta: 123\nPeriodo: x\n\n");
    text.push_str(HEADER);
    for r in rows {
        text.push('\n');
        text.push_str(r);
    }
    text.push('\n');
    text
}

#[test]
fn example_row_decodes() {
    let text = file_text(&[EXAMPLE_ROW]);
    let records = decode_text(&text, "trades.csv");
    assert_eq!(records.len(), 1);
    let r = &records[0];
    assert_eq!(r.id, "trade-trades.csv-0");
    assert_eq!(r.asset, "WINFUT");
    assert_eq!(r.open_time, "2024-03-15T09:05:00");
    assert_eq!(r.close_time, "2024-03-15T09:10:00");
    assert_eq!(r.duration, "00:05:00");
    assert_eq!(r.side, "Compra");
    assert_eq!(
        r.open_price,
        Decimal { negative: false, mantissa: 12050000, scale: 2 }
    );
    assert_eq!(
        r.close_price,
        Decimal { negative: false, mantissa: 12060000, scale: 2 }
    );
    assert_eq!(
        r.result,
        Decimal { negative: false, mantissa: 10000, scale: 2 }
    );
    assert_eq!(r.quantity, Decimal { negative: false, mantissa: 1, scale: 0 });
    assert_eq!(r.contracts, r.quantity);
    assert_eq!(r.brokerage, Decimal { negative: false, mantissa: 0, scale: 0 });
    assert_eq!(r.b3_fees, Decimal { negative: false, mantissa: 0, scale: 0 });
}

#[test]
fn malformed_rows_are_dropped_not_fatal() {
    let good2 = "DOLFUT;15/03/2024 10:00:00;15/03/2024 10:01:00;00:01:00;2;Venda;5.000,00;5.001,00;-10,00";
    let text = file_text(&[EXAMPLE_ROW, "garbage;row", good2]);
    let records = decode_text(&text, "t.csv");
    assert_eq!(records.len(), 2);
    // The identifier keeps the row's position among all data rows.
    assert_eq!(records[0].id, "trade-t.csv-0");
    assert_eq!(records[1].id, "trade-t.csv-2");
    assert_eq!(records[1].asset, "DOLFUT");
    assert!(records[1].result.negative);
    assert_eq!(records[1].result.mantissa, 1000);
}

#[test]
fn short_file_yields_nothing() {
    assert_eq!(decode_text("", "t.csv").len(), 0);
    assert_eq!(decode_text("a\nb\nc\nd", "t.csv").len(), 0);
}

#[test]
fn metadata_lines_are_skipped_unconditionally() {
    // Even a metadata line that looks like a data row is skipped.
    let mut text = String::new();
    text.push_str("x\ny\nz\nw\n");
    text.push_str(HEADER);
    text.push('\n');
    text.push_str(EXAMPLE_ROW);
    let records = decode_text(&text, "t.csv");
    assert_eq!(records.len(), 1);
}

#[test]
fn blank_lines_between_rows_are_ignored() {
    let mut text = String::new();
    text.push_str("m1\nm2\nm3\nm4\n\n");
    text.push_str(HEADER);
    text.push_str("\r\n");
    text.push_str(EXAMPLE_ROW);
    text.push_str("\r\n");
    let records = decode_text(&text, "t.csv");
    assert_eq!(records.len(), 1);
    assert_eq!(records[0].asset, "WINFUT");
}

#[test]
fn missing_required_column_yields_nothing() {
    let mut text = String::new();
    text.push_str("m1\nm2\nm3\nm4\n");
    text.push_str("Ativo;Abertura;Fechamento\n");
    text.push_str("WINFUT;15/03/2024 09:05:00;15/03/2024 09:10:00\n");
    assert_eq!(decode_text(&text, "t.csv").len(), 0);
}

#[test]
fn windows_1252_bytes_decode() {
    // The header's accented column names written as windows-1252 bytes:
    // 0xE7 for the cedilla, 0xE3 for the tilde.  A decoder that read the
    // bytes as UTF-8 would not recognize the columns.
    let mut bytes: Vec<u8> = Vec::new();
    bytes.extend_from_slice(b"m1\nm2\nm3\nm4\n");
    bytes.extend_from_slice(b"Ativo;Abertura;Fechamento;Tempo Opera");
    bytes.push(0xE7);
    bytes.push(0xE3);
    bytes.extend_from_slice(b"o;Qtd Compra;Lado;Pre");
    bytes.push(0xE7);
    bytes.extend_from_slice(b"o Compra;Pre");
    bytes.push(0xE7);
    bytes.extend_from_slice(b"o Venda;Res. Opera");
    bytes.push(0xE7);
    bytes.push(0xE3);
    bytes.extend_from_slice(b"o\n");
    bytes.extend_from_slice(EXAMPLE_ROW.as_bytes());
    bytes.push(b'\n');
    let (records, lossy) = decode_file(&bytes, "legacy.csv");
    assert_eq!(records.len(), 1);
    assert_eq!(records[0].id, "trade-legacy.csv-0");
    assert_eq!(records[0].asset, "WINFUT");
    // Every byte maps to a character in windows-1252: nothing was lossy.
    assert!(!lossy);
}

#[test]
fn scan_aggregates_files_in_order() {
    let files = vec![
        SourceFile {
            name: String::from("a.csv"),
            bytes: to_cp1252(&file_text(&[EXAMPLE_ROW])),
        },
        SourceFile {
            name: String::from("b.csv"),
            bytes: to_cp1252(&file_text(&[EXAMPLE_ROW, EXAMPLE_ROW])),
        },
    ];
    let records = scan_snapshot(&files);
    assert_eq!(records.len(), 3);
    assert_eq!(records[0].id, "trade-a.csv-0");
    assert_eq!(records[1].id, "trade-b.csv-0");
    assert_eq!(records[2].id, "trade-b.csv-1");
}

#[test]
fn scan_of_nothing_is_empty_not_an_error() {
    let files: Vec<SourceFile> = Vec::new();
    assert_eq!(scan_snapshot(&files).len(), 0);
    let fetched = fetch_snapshot(Ok(Vec::new()));
    assert_eq!(fetched.unwrap().len(), 0);
}

#[test]
fn fetch_surfaces_root_error() {
    let fetched = fetch_snapshot(Err(String::from("permission denied")));
    match fetched {
        Ok(_) => panic!("root failure must surface"),
        Err(e) => assert_eq!(e.message, "permission denied"),
    }
}

#[test]
fn repeated_fetch_is_idempotent() {
    let make_files = || {
        vec![SourceFile {
            name: String::from("a.csv"),
            bytes: to_cp1252(&file_text(&[EXAMPLE_ROW])),
        }]
    };
    let first = scan_snapshot(&make_files());
    let second = scan_snapshot(&make_files());
    assert_eq!(first.len(), 1);
    assert_eq!(first, second);
}

#[test]
fn save_is_an_acknowledging_stub() {
    let records = decode_text(&file_text(&[EXAMPLE_ROW]), "t.csv");
    assert!(save_snapshot(&records).is_ok());
}

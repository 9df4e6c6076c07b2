use trade_ingest::record::decode_text;
use trade_ingest::scan::ScanRootError;
use trade_ingest::watch::{deliver_after_rescan, Debouncer};

#[test]
fn burst_triggers_exactly_one_rescan() {
    let mut d = Debouncer::new(1000);
    // A burst of three events inside the quiet window.
    d.note_event(0);
    assert!(!d.poll(500));
    d.note_event(100);
    d.note_event(900);
    // The window is quiet only from the last event on.
    assert!(!d.poll(1200));
    assert!(!d.poll(1899));
    // The burst settles: exactly one fire.
    let mut fires: u32 = 0;
    for t in [1900u64, 1901, 2500, 10_000] {
        if d.poll(t) {
            fires += 1;
        }
    }
    assert_eq!(fires, 1);
}

#[test]
fn separate_bursts_each_trigger_once() {
    let mut d = Debouncer::new(1000);
    d.note_event(0);
    assert!(d.poll(1000));
    assert!(!d.poll(1000));
    d.note_event(5000);
    d.note_event(5200);
    assert!(!d.poll(6000));
    assert!(d.poll(6200));
    assert!(!d.poll(100_000));
}

#[test]
fn deadline_saturates_near_the_end_of_time() {
    let mut d = Debouncer::new(1000);
    d.note_event(u64::MAX - 10);
    assert!(!d.poll(u64::MAX - 1));
    assert!(d.poll(u64::MAX));
}

#[test]
fn rescan_failure_delivers_empty_snapshot() {
    let delivered = deliver_after_rescan(Err(ScanRootError {
        message: String::from("root vanished"),
    }));
    assert_eq!(delivered.len(), 0);
}

#[test]
fn rescan_success_delivers_the_records() {
    let text = "m1\nm2\nm3\nm4\nAtivo;Abertura;Fechamento;Tempo Opera\u{e7}\u{e3}o;Qtd Compra;Lado;Pre\u{e7}o Compra;Pre\u{e7}o Venda;Res. Opera\u{e7}\u{e3}o\nWINFUT;15/03/2024 09:05:00;15/03/2024 09:10:00;00:05:00;1;Compra;120.500,00;120.600,00;100,00\n";
    let records = decode_text(text, "t.csv");
    let delivered = deliver_after_rescan(Ok(records.clone()));
    assert_eq!(delivered, records);
}

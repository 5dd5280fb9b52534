use telemetry_core::errors::PortError;
use telemetry_core::lifecycle::Lifecycle;
use telemetry_core::sink::EventSink;

fn monitoring_core() -> Lifecycle {
    let mut core = Lifecycle::new();
    assert!(core.open_port("COM7".to_string(), 115200, true, 0).is_ok());
    assert!(core.monitor_port().is_ok());
    core
}

fn feed(core: &mut Lifecycle, bytes: &[u8], ts: u64, sink: &mut EventSink) -> usize {
    core.feed_monitor(&bytes.to_vec(), ts, sink).unwrap()
}

#[test]
fn unterminated_frame_is_buffered_and_completed() {
    let mut core = monitoring_core();
    let mut sink = EventSink::new();
    assert_eq!(feed(&mut core, b"temp=2", 1, &mut sink), 0);
    assert_eq!(sink.len(), 0);
    assert_eq!(feed(&mut core, b"2.5\n", 2, &mut sink), 0);
    assert_eq!(sink.len(), 1);
    let r = sink.get(0);
    assert_eq!(r.seq, 0);
    assert_eq!(r.timestamp, 2);
    assert_eq!(r.fields[0].name, b"temp".to_vec());
    assert_eq!(r.fields[0].milli, 22500);
}

#[test]
fn malformed_then_valid_frame_in_one_chunk() {
    let mut core = monitoring_core();
    let mut sink = EventSink::new();
    let warnings = feed(&mut core, b"temp=21.5,seq=raw\ntemp=22.0\n", 7, &mut sink);
    assert_eq!(warnings, 1);
    assert_eq!(sink.len(), 1);
    let r = sink.get(0);
    assert_eq!(r.seq, 0);
    assert_eq!(r.fields[0].milli, 22000);
}

#[test]
fn sequence_numbers_are_gapless() {
    let mut core = monitoring_core();
    let mut sink = EventSink::new();
    assert_eq!(feed(&mut core, b"a=1\nb=2\nc=3\n", 5, &mut sink), 0);
    assert_eq!(sink.len(), 3);
    for k in 0..3 {
        assert_eq!(sink.get(k).seq, k as u64);
    }
    assert_eq!(sink.get(0).fields[0].name, b"a".to_vec());
    assert_eq!(sink.get(1).fields[0].name, b"b".to_vec());
    assert_eq!(sink.get(2).fields[0].name, b"c".to_vec());
}

#[test]
fn warnings_skip_only_their_own_line() {
    let mut core = monitoring_core();
    let mut sink = EventSink::new();
    let warnings = feed(&mut core, b"bogus\na=1\n\nb=2\n", 5, &mut sink);
    assert_eq!(warnings, 2);
    assert_eq!(sink.len(), 2);
    assert_eq!(sink.get(0).seq, 0);
    assert_eq!(sink.get(0).fields[0].name, b"a".to_vec());
    assert_eq!(sink.get(1).seq, 1);
    assert_eq!(sink.get(1).fields[0].name, b"b".to_vec());
}

#[test]
fn value_grammar_fixed_point() {
    let mut core = monitoring_core();
    let mut sink = EventSink::new();
    assert_eq!(feed(&mut core, b"a=5\nb=-3.25\nc=1.234\nd=0.5\ne=-0.125\n", 1, &mut sink), 0);
    assert_eq!(sink.len(), 5);
    assert_eq!(sink.get(0).fields[0].milli, 5000);
    assert_eq!(sink.get(1).fields[0].milli, -3250);
    assert_eq!(sink.get(2).fields[0].milli, 1234);
    assert_eq!(sink.get(3).fields[0].milli, 500);
    assert_eq!(sink.get(4).fields[0].milli, -125);
}

#[test]
fn multi_field_frame_keeps_order() {
    let mut core = monitoring_core();
    let mut sink = EventSink::new();
    assert_eq!(feed(&mut core, b"temp=21.5,volt=3.3,rpm=1500\n", 1, &mut sink), 0);
    assert_eq!(sink.len(), 1);
    let r = sink.get(0);
    assert_eq!(r.fields.len(), 3);
    assert_eq!(r.fields[0].name, b"temp".to_vec());
    assert_eq!(r.fields[0].milli, 21500);
    assert_eq!(r.fields[1].name, b"volt".to_vec());
    assert_eq!(r.fields[1].milli, 3300);
    assert_eq!(r.fields[2].name, b"rpm".to_vec());
    assert_eq!(r.fields[2].milli, 1500000);
}

#[test]
fn malformed_variants_each_warn_once() {
    let cases: &[&[u8]] = &[
        b"x=1.2345\n",
        b"x=.5\n",
        b"x=5.\n",
        b"=5\n",
        b"x\n",
        b"\n",
        b"x=raw\n",
        b"1x=2\n",
        b"x=1..2\n",
    ];
    for bytes in cases {
        let mut core = monitoring_core();
        let mut sink = EventSink::new();
        let warnings = feed(&mut core, bytes, 1, &mut sink);
        assert_eq!(warnings, 1);
        assert_eq!(sink.len(), 0);
        assert_eq!(feed(&mut core, b"ok=1\n", 2, &mut sink), 0);
        assert_eq!(sink.len(), 1);
        assert_eq!(sink.get(0).seq, 0);
    }
}

#[test]
fn fresh_monitor_session_restarts_numbering() {
    let mut core = monitoring_core();
    let mut sink = EventSink::new();
    assert_eq!(feed(&mut core, b"a=1\na=2\n", 1, &mut sink), 0);
    assert_eq!(sink.get(1).seq, 1);
    assert!(core.close_port(true).is_ok());
    assert!(core.open_port("COM7".to_string(), 115200, true, 9).is_ok());
    assert!(core.monitor_port().is_ok());
    assert_eq!(feed(&mut core, b"a=3\n", 2, &mut sink), 0);
    assert_eq!(sink.len(), 3);
    assert_eq!(sink.get(2).seq, 0);
}

#[test]
fn monitor_errors_use_not_open() {
    let mut core = Lifecycle::new();
    let mut sink = EventSink::new();
    let r = core.feed_monitor(&b"a=1\n".to_vec(), 0, &mut sink);
    assert_eq!(r, Err(PortError::NotOpen));
}

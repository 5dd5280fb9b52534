use telemetry_core::errors::PortError;
use telemetry_core::simulator::{default_config, mockdata, stream_for, Simulator, SimulatorConfig};
use telemetry_core::sink::EventSink;

#[test]
fn mockdata_is_deterministic_and_exact() {
    let r = mockdata(5, 777);
    assert_eq!(r.seq, 0);
    assert_eq!(r.timestamp, 777);
    assert_eq!(r.fields.len(), 1);
    assert_eq!(r.fields[0].name, b"temp".to_vec());
    assert_eq!(r.fields[0].milli, 18005);
    let again = mockdata(5, 777);
    assert_eq!(again.fields[0].milli, 18005);
}

#[test]
fn stream_for_exact_count_and_numbering() {
    let config = SimulatorConfig { interval_ms: 100, lo_milli: 0, hi_milli: 999 };
    let mut sink = EventSink::new();
    let n = stream_for(&config, 1000, 5000, &mut sink);
    assert_eq!(n, 10);
    assert_eq!(sink.len(), 10);
    for k in 0..10usize {
        let r = sink.get(k);
        assert_eq!(r.seq, k as u64);
        assert_eq!(r.timestamp, 5000 + 100 * k as u64);
        assert_eq!(r.fields[0].name, b"temp".to_vec());
        assert_eq!(r.fields[0].milli, k as i64);
    }
}

#[test]
fn stream_for_drops_partial_interval() {
    let config = SimulatorConfig { interval_ms: 100, lo_milli: -500, hi_milli: 500 };
    let mut sink = EventSink::new();
    let n = stream_for(&config, 250, 0, &mut sink);
    assert_eq!(n, 2);
    assert_eq!(sink.len(), 2);
    assert_eq!(sink.get(0).fields[0].milli, -500);
    assert_eq!(sink.get(1).fields[0].milli, -499);
}

#[test]
fn simulator_session_lifecycle() {
    let mut sim = Simulator::new();
    let config = default_config();
    assert!(sim.stream_telemetry(config).is_ok());
    assert_eq!(sim.stream_telemetry(config), Err(PortError::AlreadyStreaming));
    let mut sink = EventSink::new();
    assert!(sim.tick(100, &mut sink).is_ok());
    assert!(sim.tick(200, &mut sink).is_ok());
    assert_eq!(sink.len(), 2);
    assert_eq!(sink.get(0).seq, 0);
    assert_eq!(sink.get(0).timestamp, 100);
    assert_eq!(sink.get(0).fields[0].milli, 18000);
    assert_eq!(sink.get(1).seq, 1);
    assert_eq!(sink.get(1).fields[0].milli, 18001);
    assert!(!sim.is_cancelled());
    sim.request_stop();
    assert!(sim.is_cancelled());
    sim.finish_stream();
    assert!(sim.stream_telemetry(config).is_ok());
    assert!(sim.tick(300, &mut sink).is_ok());
    assert_eq!(sink.get(2).seq, 0);
}

#[test]
fn tick_without_stream_is_rejected() {
    let mut sim = Simulator::new();
    let mut sink = EventSink::new();
    assert_eq!(sim.tick(1, &mut sink), Err(PortError::NotOpen));
    assert_eq!(sink.len(), 0);
}

#[test]
fn generated_values_stay_in_range() {
    let config = SimulatorConfig { interval_ms: 10, lo_milli: -3, hi_milli: 3 };
    let mut sink = EventSink::new();
    let n = stream_for(&config, 200, 0, &mut sink);
    assert_eq!(n, 20);
    for k in 0..20usize {
        let m = sink.get(k).fields[0].milli;
        assert!(-3 <= m && m <= 3);
        assert_eq!(m, -3 + (k as i64 % 7));
    }
}

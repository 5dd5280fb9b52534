use telemetry_core::errors::PortError;
use telemetry_core::lifecycle::{Lifecycle, PortState};
use telemetry_core::ports::{list_ports, PortType, RawPortInfo};
use telemetry_core::sink::EventSink;

fn open_ok(core: &mut Lifecycle, path: &str, baud: u32) {
    let r = core.open_port(path.to_string(), baud, true, 1000);
    assert!(r.is_ok());
}

#[test]
fn list_ports_empty_scan_is_ok_and_empty() {
    let r = list_ports(Some(Vec::new()));
    match r {
        Ok(ds) => assert_eq!(ds.len(), 0),
        Err(_) => panic!("an empty scan is not an error"),
    }
}

#[test]
fn list_ports_failed_scan_is_enumeration_failed() {
    let r = list_ports(None);
    match r {
        Ok(_) => panic!("a failed scan must be reported"),
        Err(e) => assert_eq!(e, PortError::EnumerationFailed),
    }
}

#[test]
fn list_ports_maps_scan_entries() {
    let scan = vec![
        RawPortInfo {
            path: "/dev/ttyUSB0".to_string(),
            vendor_id: Some(0x1a86),
            product_id: Some(0x7523),
            type_code: 1,
        },
        RawPortInfo { path: "COM3".to_string(), vendor_id: None, product_id: None, type_code: 9 },
    ];
    let ds = list_ports(Some(scan)).unwrap();
    assert_eq!(ds.len(), 2);
    assert_eq!(ds[0].path, "/dev/ttyUSB0");
    assert_eq!(ds[0].vendor_id, Some(0x1a86));
    assert_eq!(ds[0].port_type, PortType::Usb);
    assert_eq!(ds[1].path, "COM3");
    assert_eq!(ds[1].port_type, PortType::Unknown);
}

#[test]
fn open_close_reopen_succeeds() {
    let mut core = Lifecycle::new();
    assert_eq!(core.current_state(), PortState::Closed);
    open_ok(&mut core, "COM7", 9600);
    assert_eq!(core.current_state(), PortState::Open);
    assert!(core.close_port(true).is_ok());
    assert_eq!(core.current_state(), PortState::Closed);
    open_ok(&mut core, "COM7", 9600);
    assert_eq!(core.current_state(), PortState::Open);
}

#[test]
fn open_while_open_is_rejected() {
    let mut core = Lifecycle::new();
    open_ok(&mut core, "COM7", 9600);
    match core.open_port("COM8".to_string(), 9600, true, 2000) {
        Ok(_) => panic!("a second open must be rejected"),
        Err(e) => assert_eq!(e, PortError::AlreadyOpen),
    }
    assert_eq!(core.current_state(), PortState::Open);
}

#[test]
fn open_rejects_invalid_parameters() {
    let mut core = Lifecycle::new();
    match core.open_port("".to_string(), 9600, true, 0) {
        Ok(_) => panic!("an empty path is invalid"),
        Err(e) => assert_eq!(e, PortError::InvalidParameter),
    }
    match core.open_port("COM7".to_string(), 1234, true, 0) {
        Ok(_) => panic!("a nonstandard rate is invalid"),
        Err(e) => assert_eq!(e, PortError::InvalidParameter),
    }
    assert_eq!(core.current_state(), PortState::Closed);
}

#[test]
fn open_reports_unavailable_device() {
    let mut core = Lifecycle::new();
    match core.open_port("COM7".to_string(), 9600, false, 0) {
        Ok(_) => panic!("the device could not be claimed"),
        Err(e) => assert_eq!(e, PortError::DeviceUnavailable),
    }
    assert_eq!(core.current_state(), PortState::Closed);
}

#[test]
fn open_returns_descriptor_for_path() {
    let mut core = Lifecycle::new();
    let d = core.open_port("COM7".to_string(), 9600, true, 42).unwrap();
    assert_eq!(d.path, "COM7");
    assert_eq!(d.port_type, PortType::Unknown);
}

#[test]
fn monitor_twice_is_rejected() {
    let mut core = Lifecycle::new();
    open_ok(&mut core, "COM7", 9600);
    assert!(core.monitor_port().is_ok());
    assert_eq!(core.current_state(), PortState::Monitoring);
    assert_eq!(core.monitor_port(), Err(PortError::AlreadyMonitoring));
    assert_eq!(core.current_state(), PortState::Monitoring);
}

#[test]
fn monitor_without_open_is_rejected() {
    let mut core = Lifecycle::new();
    assert_eq!(core.monitor_port(), Err(PortError::NotOpen));
}

#[test]
fn close_when_closed_reports_not_open() {
    let mut core = Lifecycle::new();
    match core.close_port(true) {
        Ok(_) => panic!("nothing was open"),
        Err(e) => assert_eq!(e, PortError::NotOpen),
    }
}

#[test]
fn close_timeout_keeps_monitoring() {
    let mut core = Lifecycle::new();
    open_ok(&mut core, "COM7", 9600);
    assert!(core.monitor_port().is_ok());
    match core.close_port(false) {
        Ok(_) => panic!("the loop did not confirm exit"),
        Err(e) => assert_eq!(e, PortError::ShutdownTimeout),
    }
    assert_eq!(core.current_state(), PortState::Monitoring);
    assert!(core.is_cancel_requested());
    assert!(core.close_port(true).is_ok());
    assert_eq!(core.current_state(), PortState::Closed);
}

#[test]
fn device_lost_returns_to_closed() {
    let mut core = Lifecycle::new();
    open_ok(&mut core, "COM7", 9600);
    assert!(core.monitor_port().is_ok());
    assert!(core.device_lost().is_ok());
    assert_eq!(core.current_state(), PortState::Closed);
    assert_eq!(core.device_lost(), Err(PortError::NotOpen));
}

#[test]
fn full_session_scenario() {
    let mut core = Lifecycle::new();
    let mut sink = EventSink::new();
    assert!(core.open_port("COM7".to_string(), 9600, true, 10).is_ok());
    assert!(core.monitor_port().is_ok());
    let warnings = core.feed_monitor(&b"temp=21.5,seq=raw\n".to_vec(), 11, &mut sink).unwrap();
    assert_eq!(warnings, 1);
    assert_eq!(sink.len(), 0);
    let warnings = core.feed_monitor(&b"temp=22.0\n".to_vec(), 12, &mut sink).unwrap();
    assert_eq!(warnings, 0);
    assert_eq!(sink.len(), 1);
    let r = sink.get(0);
    assert_eq!(r.seq, 0);
    assert_eq!(r.timestamp, 12);
    assert_eq!(r.fields.len(), 1);
    assert_eq!(r.fields[0].name, b"temp".to_vec());
    assert_eq!(r.fields[0].milli, 22000);
    assert!(core.close_port(true).is_ok());
    match core.close_port(true) {
        Ok(_) => panic!("the second close must report NotOpen"),
        Err(e) => assert_eq!(e, PortError::NotOpen),
    }
}

#[test]
fn feed_without_monitor_is_rejected() {
    let mut core = Lifecycle::new();
    let mut sink = EventSink::new();
    assert_eq!(core.feed_monitor(&b"a=1\n".to_vec(), 0, &mut sink), Err(PortError::NotOpen));
    assert_eq!(sink.len(), 0);
}

use itm::packet::Function;
use itm::{from_slice, Error, Kind, Packet};

#[test]
fn header() {
    let p = decode_one(&[0x01, 0x11]);
    assert_eq!(p.header, 0x01);
}

#[test]
fn exception_tracing() {
    let p = decode_one(&[0x0e, 0x16, 0x10]);
    match p.kind {
        Kind::ExceptionTrace(ref et) => {
            assert_eq!(et.number(), 0x16);
            assert_eq!(et.function(), Function::Enter);
        }
        _ => panic!(),
    }

    let p = decode_one(&[0x0e, 0x17, 0x20]);
    match p.kind {
        Kind::ExceptionTrace(ref et) => {
            assert_eq!(et.number(), 0x17);
            assert_eq!(et.function(), Function::Exit);
        }
        _ => panic!(),
    }

    let p = decode_one(&[0x0e, 0x16, 0x30]);
    match p.kind {
        Kind::ExceptionTrace(ref et) => {
            assert_eq!(et.number(), 0x16);
            assert_eq!(et.function(), Function::Return);
        }
        _ => panic!(),
    }
}

#[test]
fn instrumentation_payload_1_byte() {
    let p = decode_one(&[0x01, 0x11]);
    match p.kind {
        Kind::Instrumentation(ref i) => {
            assert_eq!(i.payload(), [0x11]);
        }
        _ => panic!(),
    }
}

#[test]
fn instrumentation_payload_2_bytes() {
    let p = decode_one(&[0x02, 0x11, 0x12]);
    match p.kind {
        Kind::Instrumentation(ref i) => {
            assert_eq!(i.payload(), [0x11, 0x12]);
        }
        _ => panic!(),
    }
}

#[test]
fn instrumentation_payload_4_bytes() {
    let p = decode_one(&[0x03, 0x11, 0x12, 0x13, 0x14]);
    match p.kind {
        Kind::Instrumentation(ref i) => {
            assert_eq!(i.payload(), [0x11, 0x12, 0x13, 0x14]);
        }
        _ => panic!(),
    }
}

#[test]
fn instrumentation_stim_port() {
    let p = decode_one(&[0b00000_001, 0x11]);
    match p.kind {
        Kind::Instrumentation(ref i) => {
            assert_eq!(i.port(), 0);
        }
        _ => panic!(),
    }

    let p = decode_one(&[0b11111_001, 0x11]);
    match p.kind {
        Kind::Instrumentation(ref i) => {
            assert_eq!(i.port(), 31);
        }
        _ => panic!(),
    }
}

#[test]
fn local_timestamp() {
    let p = decode_one(&[0xc0, 0x5c]);
    match p.kind {
        Kind::LocalTimestamp(ref lt) => {
            assert_eq!(lt.delta(), 0x5c);
        }
        _ => panic!(),
    }
}

#[test]
fn reserved_header() {
    if let Err(e) = try_decode_one(&[0b0111_0100]) {
        match e {
            Error::ReservedHeader { byte: 0b0111_0100 } => return (),
            _ => {}
        }
    }

    panic!()
}

#[test]
fn eof_before_payload() {
    if let Err(e) = try_decode_one(&[0x01 /* Missing payload bytes */]) {
        match e {
            Error::EofDuringPacket => return (),
            _ => {}
        }
    }

    panic!()
}

#[test]
fn eof_before_packet() {
    if let Err(e) = try_decode_one(&[/* Missing packet bytes */]) {
        match e {
            Error::EofBeforePacket => return (),
            _ => {}
        }
    }

    panic!()
}

fn decode_one(data: &[u8]) -> Packet {
    try_decode_one(data).unwrap()
}

fn try_decode_one(data: &[u8]) -> Result<Packet, Error> {
    let p = from_slice(data);
    println!("{:#?}", p);
    p
}

// The packets of each category, through their accessors.

#[test]
fn typed_synchronization() {
    match decode_one(&[0, 0, 0, 0, 0, 0b1000_0000]).kind {
        Kind::Synchronization(s) => assert_eq!(s.len(), 6),
        _ => panic!(),
    }
    assert_eq!(
        try_decode_one(&[0, 0, 0, 0, 1]).unwrap_err(),
        Error::MalformedPacket { header: 0 }
    );
}

#[test]
fn typed_overflow() {
    let p = decode_one(&[0x70]);
    assert_eq!(p.header(), 0x70);
    assert!(matches!(p.kind(), Kind::Overflow));
}

#[test]
fn typed_lts1() {
    match decode_one(&[0xc0, 0x81, 0x81, 0x81, 0x01]).kind {
        Kind::LocalTimestamp(lt) => {
            assert!(lt.is_precise());
            assert!(!lt.timestamp_delayed());
            assert!(!lt.event_delayed());
            assert_eq!(lt.delta(), 1 + (1 << 7) + (1 << 14) + (1 << 21));
        }
        _ => panic!(),
    }
    match decode_one(&[0xf0, 0x81, 0x01]).kind {
        Kind::LocalTimestamp(lt) => {
            assert!(!lt.is_precise());
            assert!(lt.timestamp_delayed());
            assert!(lt.event_delayed());
            assert_eq!(lt.delta(), 1 + (1 << 7));
        }
        _ => panic!(),
    }
    match decode_one(&[0xe0, 0x01]).kind {
        Kind::LocalTimestamp(lt) => {
            assert!(!lt.timestamp_delayed());
            assert!(lt.event_delayed());
        }
        _ => panic!(),
    }
}

#[test]
fn typed_lts2() {
    match decode_one(&[0x40]).kind {
        Kind::LocalTimestamp(lt) => {
            assert!(lt.is_precise());
            assert_eq!(lt.delta(), 4);
        }
        _ => panic!(),
    }
}

#[test]
fn typed_gts1() {
    match decode_one(&[0x94, 0x7f]).kind {
        Kind::GTS1(gt) => {
            assert_eq!(gt.bits(), 0x1f);
            assert!(gt.has_clock_changed());
            assert!(gt.has_wrapped());
        }
        _ => panic!(),
    }
    match decode_one(&[0x94, 0xff, 0xff, 0xff, 0x1f]).kind {
        Kind::GTS1(gt) => {
            assert_eq!(gt.bits(), 0x7f + (0x7f << 7) + (0x7f << 14) + (0x1f << 21));
            assert!(!gt.has_clock_changed());
            assert!(!gt.has_wrapped());
        }
        _ => panic!(),
    }
}

#[test]
fn typed_gts2() {
    match decode_one(&[0xb4, 0xff, 0xff, 0xff, 0x01]).kind {
        Kind::GTS2(gt) => {
            assert_eq!(gt.bits(), (1 << 22) - 1);
            assert!(!gt.is_64_bit());
        }
        _ => panic!(),
    }
    match decode_one(&[0xb4, 0xff, 0xff, 0xff, 0xff, 0xff, 0x07]).kind {
        Kind::GTS2(gt) => {
            assert_eq!(gt.bits(), (1 << 38) - 1);
            assert!(gt.is_64_bit());
        }
        _ => panic!(),
    }
    assert_eq!(
        try_decode_one(&[0xb4, 0xff, 0x01]).unwrap_err(),
        Error::MalformedPacket { header: 0xb4 }
    );
}

#[test]
fn typed_stimulus_port_page() {
    match decode_one(&[0x08]).kind {
        Kind::StimulusPortPage(spp) => assert_eq!(spp.page(), 0),
        _ => panic!(),
    }
    match decode_one(&[0x58]).kind {
        Kind::StimulusPortPage(spp) => assert_eq!(spp.page(), 5),
        _ => panic!(),
    }
}

#[test]
fn typed_event_counter() {
    match decode_one(&[0x05, 0x04]).kind {
        Kind::EventCounter(ec) => {
            assert!(ec.sleep());
            assert!(!ec.exc());
            assert!(!ec.cpi());
            assert!(!ec.lsu());
            assert!(!ec.fold());
            assert!(!ec.post());
        }
        _ => panic!(),
    }
    match decode_one(&[0x05, 0x3b]).kind {
        Kind::EventCounter(ec) => {
            assert!(!ec.sleep());
            assert!(ec.exc());
            assert!(ec.cpi());
            assert!(ec.lsu());
            assert!(ec.fold());
            assert!(ec.post());
        }
        _ => panic!(),
    }
}

#[test]
fn typed_exception_trace() {
    match decode_one(&[0x0e, 0x10, 0x10]).kind {
        Kind::ExceptionTrace(et) => {
            assert_eq!(et.number(), 0x10);
            assert_eq!(et.function(), Function::Enter);
        }
        _ => panic!(),
    }
    match decode_one(&[0x0e, 0x00, 0x30]).kind {
        Kind::ExceptionTrace(et) => {
            assert_eq!(et.number(), 0);
            assert_eq!(et.function(), Function::Return);
        }
        _ => panic!(),
    }
    // function 0 is no action; exception numbers 7 and 256 are reserved
    for bytes in [[0x0e, 0x10, 0x00], [0x0e, 0x07, 0x10], [0x0e, 0x00, 0x11]] {
        assert_eq!(
            try_decode_one(&bytes).unwrap_err(),
            Error::MalformedPacket { header: 0x0e }
        );
    }
}

#[test]
fn typed_periodic_pc_sample() {
    match decode_one(&[0x15, 0x00]).kind {
        Kind::PeriodicPcSample(pps) => assert_eq!(pps.pc(), None),
        _ => panic!(),
    }
    match decode_one(&[0x17, 0x00, 0x00, 0x00, 0x80]).kind {
        Kind::PeriodicPcSample(pps) => assert_eq!(pps.pc(), Some(0x8000_0000)),
        _ => panic!(),
    }
    assert_eq!(
        try_decode_one(&[0x15, 0x01]).unwrap_err(),
        Error::MalformedPacket { header: 0x15 }
    );
}

#[test]
fn typed_data_trace_pc_value() {
    match decode_one(&[0x47, 0x00, 0x00, 0x00, 0x80]).kind {
        Kind::DataTracePcValue(pps) => {
            assert_eq!(pps.comparator(), 0);
            assert_eq!(pps.pc(), 0x8000_0000);
        }
        _ => panic!(),
    }
}

#[test]
fn typed_data_trace_address() {
    match decode_one(&[0x4e, 0x12, 0x34]).kind {
        Kind::DataTraceAddress(pps) => {
            assert_eq!(pps.comparator(), 0);
            assert_eq!(pps.address(), 0x3412);
        }
        _ => panic!(),
    }
    match decode_one(&[0x7e, 0x12, 0x34]).kind {
        Kind::DataTraceAddress(pps) => assert_eq!(pps.comparator(), 3),
        _ => panic!(),
    }
}

#[test]
fn typed_data_trace_data_value() {
    match decode_one(&[0x85, 0x12]).kind {
        Kind::DataTraceDataValue(pps) => {
            assert!(pps.read_access());
            assert!(!pps.write_access());
            assert_eq!(pps.comparator(), 0);
            assert_eq!(pps.value(), &[0x12]);
        }
        _ => panic!(),
    }
    match decode_one(&[0x9f, 0x12, 0x34, 0x56, 0x78]).kind {
        Kind::DataTraceDataValue(pps) => {
            assert!(pps.write_access());
            assert_eq!(pps.comparator(), 1);
            assert_eq!(pps.value(), &[0x12, 0x34, 0x56, 0x78]);
        }
        _ => panic!(),
    }
}

#[test]
fn reserved_headers() {
    // a source packet without size, and a discriminator out of range
    assert_eq!(
        try_decode_one(&[0x80]).unwrap_err(),
        Error::ReservedHeader { byte: 0x80 }
    );
    assert_eq!(
        try_decode_one(&[0xff]).unwrap_err(),
        Error::ReservedHeader { byte: 0xff }
    );
}

use itm::{
    Decoder, ExceptionAction, MemoryAccessType, TimestampDataRelation, TracePacket, VectActive,
};

fn decoder_of(bytes: &[u8]) -> Decoder {
    let mut decoder = Decoder::new();
    assert!(decoder.has_room(bytes.len()));
    decoder.push(bytes.to_vec());
    decoder
}

#[test]
fn eof() {
    let empty: &[u8] = &[];
    let mut decoder = decoder_of(empty);

    assert!(decoder.singles().next().is_none());
}

#[test]
fn singles_decode_sync_packet() {
    let mut trace_data: Vec<u8> = [0; 47 / 8].to_vec();
    trace_data.push(1 << 7);

    let mut decoder = decoder_of(trace_data.as_slice());
    assert_eq!(
        decoder.singles().next().unwrap().unwrap(),
        TracePacket::Sync
    );
}

#[test]
fn singles_decode_overflow_packet() {
    let overflow: &[u8] = &[0b0111_0000];
    let mut decoder = decoder_of(overflow);
    assert_eq!(
        decoder.singles().next().unwrap().unwrap(),
        TracePacket::Overflow
    );
}

#[test]
fn singles_decode_local_timestamp_packets() {
    let lts: &[u8] = &[
        // LTS1
        0b1100_0000,
        0b1100_1001,
        0b0000_0001,
        // LTS2
        0b0101_0000,
    ];
    let mut decoder = decoder_of(lts);

    for packet in [
        TracePacket::LocalTimestamp1 {
            ts: 0b11001001,
            data_relation: TimestampDataRelation::Sync,
        },
        TracePacket::LocalTimestamp2 { ts: 0b101 },
    ]
    .iter()
    .cloned()
    {
        assert_eq!(decoder.singles().next().unwrap().unwrap(), packet);
    }
}

#[test]
fn singles_decode_global_timestamp_packets() {
    let gts: &[u8] = &[
        // GTS1
        0b1001_0100,
        0b1000_0000,
        0b1010_0000,
        0b1000_0100,
        0b0110_0000,
        // GTS2 (48-bit)
        0b1011_0100,
        0b1011_1101,
        0b1111_0100,
        0b1001_0001,
        0b0000_0001,
        // GTS2 (64-bit)
        0b1011_0100,
        0b1011_1101,
        0b1111_0100,
        0b1001_0001,
        0b1000_0001,
        0b1111_0100,
        0b0000_0111,
    ];
    let mut decoder = decoder_of(gts);

    for packet in [
        TracePacket::GlobalTimestamp1 {
            ts: 0b00000_0000100_0100000_0000000,
            wrap: true,
            clkch: true,
        },
        TracePacket::GlobalTimestamp2 {
            ts: 0b1_0010001_1110100_0111101,
        },
        TracePacket::GlobalTimestamp2 {
            ts: 0b111_1110100_0000001_0010001_1110100_0111101,
        },
    ]
    .iter()
    .cloned()
    {
        assert_eq!(decoder.singles().next().unwrap().unwrap(), packet);
    }
}

#[test]
fn singles_decode_extention_packet() {
    let ext: &[u8] = &[0b0111_1000];
    let mut decoder = decoder_of(ext);
    assert_eq!(
        decoder.singles().next().unwrap().unwrap(),
        TracePacket::Extension { page: 0b111 }
    );
}

#[test]
fn singles_decode_instrumentation_packet() {
    let instr: &[u8] = &[
        0b1000_1011,
        0b0000_0011,
        0b0000_1111,
        0b0011_1111,
        0b1111_1111,
    ];
    let mut decoder = decoder_of(instr);

    assert_eq!(
        decoder.singles().next().unwrap().unwrap(),
        TracePacket::Instrumentation {
            port: 0b1000_1,
            payload: [0b0000_0011, 0b0000_1111, 0b0011_1111, 0b1111_1111].to_vec(),
        }
    );
}

#[test]
fn singles_decode_eventcounterwrap_packet() {
    let event: &[u8] = &[0b0000_0101, 0b0010_1010];
    let mut decoder = decoder_of(event);

    assert_eq!(
        decoder.singles().next().unwrap().unwrap(),
        TracePacket::EventCounterWrap {
            cyc: true,
            fold: false,
            lsu: true,
            sleep: false,
            exc: true,
            cpi: false,
        }
    );
}

#[test]
fn singles_decode_exceptiontrace_packet() {
    let excpt: &[u8] = &[0b0000_1110, 0b0010_0000, 0b0011_0000];
    let mut decoder = decoder_of(excpt);

    assert_eq!(
        decoder.singles().next().unwrap().unwrap(),
        TracePacket::ExceptionTrace {
            exception: VectActive::Interrupt { irqn: 32 },
            action: ExceptionAction::Returned,
        }
    );
}

#[test]
fn singles_decode_pcsample_packet() {
    let samples: &[u8] = &[
        // PC sample (not sleeping)
        0b0001_0111,
        0b0000_0011,
        0b0000_1111,
        0b0011_1111,
        0b1111_1111,
        // PC sample (sleeping)
        0b0001_0101,
        0b0000_0000,
    ];
    let mut decoder = decoder_of(samples);

    for packet in [
        TracePacket::PCSample {
            pc: Some(0b11111111_00111111_00001111_00000011),
        },
        TracePacket::PCSample { pc: None },
    ]
    .iter()
    .cloned()
    {
        assert_eq!(decoder.singles().next().unwrap().unwrap(), packet);
    }
}

#[test]
fn singles_decode_datatracepc_packet() {
    let pc: &[u8] = &[
        0b0111_0111,
        0b0000_0011,
        0b0000_1111,
        0b0011_1111,
        0b1111_1111,
    ];
    let mut decoder = decoder_of(pc);

    assert_eq!(
        decoder.singles().next().unwrap().unwrap(),
        TracePacket::DataTracePC {
            comparator: 0b11,
            pc: 0b11111111_00111111_00001111_00000011,
        }
    );
}

#[test]
fn singles_decode_datatraceaddress_packet() {
    let address: &[u8] = &[0b0110_1110, 0b0000_0011, 0b0000_1111];
    let mut decoder = decoder_of(address);

    assert_eq!(
        decoder.singles().next().unwrap().unwrap(),
        TracePacket::DataTraceAddress {
            comparator: 0b10,
            data: [0b0000_0011, 0b0000_1111].to_vec(),
        }
    );
}

#[test]
fn singles_decode_datatracevalue_packet() {
    let payloads: &[u8] = &[
        // four-byte (word) payload
        0b1010_1111,
        0b0000_0011,
        0b0000_1111,
        0b0011_1111,
        0b1111_1111,
        // two-byte (halfword) payload
        0b1010_1110,
        0b0000_0011,
        0b0000_1111,
        // one-byte (byte) payload
        0b1010_1101,
        0b0000_0011,
    ];
    let mut decoder = decoder_of(payloads);

    for packet in [
        TracePacket::DataTraceValue {
            comparator: 0b10,
            access_type: MemoryAccessType::Write,
            value: [0b0000_0011, 0b0000_1111, 0b0011_1111, 0b1111_1111].to_vec(),
        },
        TracePacket::DataTraceValue {
            comparator: 0b10,
            access_type: MemoryAccessType::Write,
            value: [0b0000_0011, 0b0000_1111].to_vec(),
        },
        TracePacket::DataTraceValue {
            comparator: 0b10,
            access_type: MemoryAccessType::Write,
            value: [0b0000_0011].to_vec(),
        },
    ]
    .iter()
    .cloned()
    {
        assert_eq!(decoder.singles().next().unwrap().unwrap(), packet);
    }
}

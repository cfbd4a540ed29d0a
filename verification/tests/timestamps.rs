use itm::{
    calc_offset, Decoder, Gts, LocalTimestampOptions, MalformedPacket, Singles, Timestamp,
    TimestampDataRelation, TimestampedTracePackets, TimestampsConfiguration, TracePacket,
};
use std::time::Duration;

#[test]
fn iter_gts() {
    let mut gts = Gts {
        lower: Some(1), // bit 1
        upper: Some(1), // bit 26
    };
    assert_eq!(gts.merge(), Some(67108865));

    gts.replace_lower(127);
    assert_eq!(gts.merge(), Some(67108991));

    let gts = Gts {
        lower: None,
        upper: None,
    };
    assert_eq!(gts.merge(), None, "noop merge");

    let mut gts = Gts {
        lower: Some(42),
        upper: Some(42),
    };
    assert_eq!(
        gts.merge(),
        Some((42 << Gts::GTS2_SHIFT) | 42),
        "(42, 42) merge"
    );

    gts.replace_lower(0b1101011);
    assert_eq!(
        gts.merge(),
        Some((42 << Gts::GTS2_SHIFT) | 0b1101011),
        "replace whole merge"
    );

    let mut gts = Gts {
        lower: Some(42),
        upper: Some(42),
    };
    gts.replace_lower(1);
    assert_eq!(
        gts.merge(),
        Some((42 << Gts::GTS2_SHIFT) | 43),
        "replace partial merge"
    );
}

#[test]
fn gts() {
    let gts = Gts {
        lower: None,
        upper: None,
    };
    assert_eq!(gts.merge(), None, "noop merge");

    let mut gts = Gts {
        lower: Some(42),
        upper: Some(42),
    };
    assert_eq!(
        gts.merge(),
        Some((42 << Gts::GTS2_SHIFT) | 42),
        "(42, 42) merge"
    );

    gts.replace_lower(0b1101011);
    assert_eq!(
        gts.merge(),
        Some((42 << Gts::GTS2_SHIFT) | 0b1101011),
        "replace whole merge"
    );

    let mut gts = Gts {
        lower: Some(42),
        upper: Some(42),
    };
    gts.replace_lower(1);
    assert_eq!(
        gts.merge(),
        Some((42 << Gts::GTS2_SHIFT) | 43),
        "replace partial merge"
    );
}

#[test]
fn offset() {
    assert_eq!(
        Duration::from_nanos(calc_offset(
            1000,
            Some(LocalTimestampOptions::EnabledDiv4),
            16_000_000
        )),
        Duration::from_micros(250),
    );
}

#[test]
fn iter_offset() {
    assert_eq!(
        Duration::from_nanos(calc_offset(
            1000,
            Some(LocalTimestampOptions::EnabledDiv4),
            16_000_000
        )),
        Duration::from_micros(250),
    );
}

const FREQ: u32 = 16_000_000;

fn decoder_of(bytes: &[u8]) -> Decoder {
    let mut decoder = Decoder::new();
    assert!(decoder.has_room(bytes.len()));
    decoder.push(bytes.to_vec());
    decoder
}

fn nth(it: &mut Singles, n: usize) -> Option<Result<TracePacket, MalformedPacket>> {
    for _ in 0..n {
        it.next()?;
    }
    it.next()
}

/// Auxiliary function that computes the timestamps by other means than
/// the iterator does.
fn outer_calc_offset(lts: TracePacket, gts: Option<Gts>, offset_sum: &mut Duration) -> Timestamp {
    let nanos = |ts: u64| Duration::from_nanos(calc_offset(ts, None, FREQ));
    let (reset, offset, data_relation) = match (lts, gts) {
        (
            TracePacket::LocalTimestamp1 {
                ts: lts,
                data_relation,
            },
            Some(gts),
        ) => (
            true,
            nanos(gts.merge().unwrap())
                .checked_add(nanos(lts.into()))
                .unwrap(),
            data_relation,
        ),
        (TracePacket::LocalTimestamp1 { ts, data_relation }, None) => {
            (false, nanos(ts.into()), data_relation)
        }
        (TracePacket::LocalTimestamp2 { ts }, None) => {
            (false, nanos(ts.into()), TimestampDataRelation::Sync)
        }
        (TracePacket::LocalTimestamp2 { ts }, Some(gts)) => (
            true,
            nanos(gts.merge().unwrap() + (ts as u64)),
            TimestampDataRelation::Sync,
        ),
        _ => panic!("???"),
    };

    *offset_sum = if reset {
        // GTS provided
        offset
    } else {
        // LTS provided
        *offset_sum + offset
    };

    Timestamp {
        offset: offset_sum.as_nanos() as u64,
        data_relation,
    }
}

fn is_sorted_increasing(timestamps: &[Timestamp]) -> bool {
    let mut it = timestamps.iter();
    let mut prev: Option<&Timestamp> = None;
    while let Some(curr) = it.next() {
        if prev.is_none() {
            continue;
        }

        if curr.offset < prev.unwrap().offset {
            return false;
        }

        prev = Some(curr);
    }

    true
}

const STREAM: &[u8] = &[
    // PC sample (sleeping)
    0b0001_0101,
    0b0000_0000,
    // PC sample (sleeping)
    0b0001_0101,
    0b0000_0000,
    // PC sample (sleeping)
    0b0001_0101,
    0b0000_0000,
    // GTS1
    0b1001_0100,
    0b1000_0000,
    0b1010_0000,
    0b1000_0100,
    0b0000_0000,
    // GTS2 (48-bit)
    0b1011_0100,
    0b1011_1101,
    0b1111_0100,
    0b1001_0001,
    0b0000_0001,
    // LTS1
    0b1100_0000,
    0b1100_1001,
    0b0000_0001,
    // Pull!

    // PC sample (sleeping)
    0b0001_0101,
    0b0000_0000,
    // LTS1
    0b1100_0000,
    0b1100_1001,
    0b0000_0001,
    // Pull!

    // Overflow
    0b0111_0000,
    // LTS1
    0b1100_0000,
    0b1100_1001,
    0b0000_0001,
    // Pull!

    // GTS1
    0b1001_0100,
    0b1000_0000,
    0b1010_0000,
    0b1000_0100,
    0b0000_0000,
    // GTS2 (48-bit)
    0b1011_0100,
    0b1011_1101,
    0b1111_0100,
    0b1001_0001,
    0b0000_0001,
    // LTS1
    0b1111_0000,
    0b1100_1001,
    0b0000_0001,
    // LTS2
    0b0110_0000,
];

/// Check whether timestamps are correctly generated by effectively
/// comparing the iterator and [outer_calc_offset].
#[test]
fn check_timestamps() {
    let stream = STREAM;

    let timestamps = {
        let mut offset_sum = Duration::from_nanos(0);
        let mut decoder = decoder_of(stream);
        let mut it = decoder.singles();
        [
            {
                let gts1 = nth(&mut it, 3).unwrap().unwrap();
                let gts2 = nth(&mut it, 0).unwrap().unwrap();
                let lts1 = nth(&mut it, 0).unwrap().unwrap();

                outer_calc_offset(lts1, Some(Gts::from_two(gts1, gts2)), &mut offset_sum)
            },
            {
                let lts1 = nth(&mut it, 1).unwrap().unwrap();
                outer_calc_offset(lts1, None, &mut offset_sum)
            },
            {
                let lts1 = nth(&mut it, 1).unwrap().unwrap();
                outer_calc_offset(lts1, None, &mut offset_sum)
            },
            {
                let gts1 = nth(&mut it, 0).unwrap().unwrap();
                let gts2 = nth(&mut it, 0).unwrap().unwrap();
                let lts1 = nth(&mut it, 0).unwrap().unwrap();

                outer_calc_offset(lts1, Some(Gts::from_two(gts1, gts2)), &mut offset_sum)
            },
            {
                let lts2 = nth(&mut it, 0).unwrap().unwrap();
                outer_calc_offset(lts2, None, &mut offset_sum)
            },
        ]
    };

    assert!(is_sorted_increasing(&timestamps));

    let mut decoder = decoder_of(stream);
    let mut it = decoder.timestamps(TimestampsConfiguration {
        clock_frequency: FREQ,
        lts_prescaler: LocalTimestampOptions::Enabled,
        expect_malformed: false,
    });

    for set in [
        TimestampedTracePackets {
            packets: [
                TracePacket::PCSample { pc: None },
                TracePacket::PCSample { pc: None },
                TracePacket::PCSample { pc: None },
            ]
            .into(),
            malformed_packets: [].into(),
            timestamp: timestamps[0].clone(),
            consumed_packets: 6,
        },
        TimestampedTracePackets {
            packets: [TracePacket::PCSample { pc: None }].into(),
            malformed_packets: [].into(),
            timestamp: timestamps[1].clone(),
            consumed_packets: 2,
        },
        TimestampedTracePackets {
            packets: [TracePacket::Overflow].into(),
            malformed_packets: [].into(),
            timestamp: timestamps[2].clone(),
            consumed_packets: 2,
        },
        TimestampedTracePackets {
            packets: [].into(),
            malformed_packets: [].into(),
            timestamp: timestamps[3].clone(),
            consumed_packets: 3,
        },
        TimestampedTracePackets {
            packets: [].into(),
            malformed_packets: [].into(),
            timestamp: timestamps[4].clone(),
            consumed_packets: 1,
        },
    ]
    .iter()
    {
        assert_eq!(it.next().unwrap().unwrap(), *set);
    }
    assert!(it.next().is_none());
}

/// Test cases where a GTS2 applied to two GTS1; 64-bit GTS2; and
/// compares timestamps to precalculated offsets.
#[test]
fn gts_compression() {
    let stream: &[u8] = &[
        // LTS2
        0b0110_0000,
        // GTS1 (bit 1 set)
        0b1001_0100,
        0b1000_0001,
        0b1000_0000,
        0b1000_0000,
        0b0000_0000,
        // GTS2 (64-bit, bit 26 set)
        0b1011_0100,
        0b1000_0001,
        0b1000_0000,
        0b1000_0000,
        0b1000_0000,
        0b1000_0000,
        0b0000_0000,
        // LTS2
        0b0110_0000,
        // GTS1 (compressed)
        0b1001_0100,
        0b1111_1111,
        0b0000_0000,
        // LTS2
        0b0110_0000,
    ];

    let timestamps = {
        let mut offset_sum = Duration::from_nanos(0);
        let mut decoder = decoder_of(stream);
        let mut it = decoder.singles();
        let mut gts: Option<Gts>;
        [
            (
                {
                    let lts2 = nth(&mut it, 0).unwrap().unwrap();

                    outer_calc_offset(lts2, None, &mut offset_sum)
                },
                Duration::from_nanos(375),
            ),
            (
                {
                    let gts1 = nth(&mut it, 0).unwrap().unwrap();
                    let gts2 = nth(&mut it, 0).unwrap().unwrap();
                    let lts2 = nth(&mut it, 0).unwrap().unwrap();
                    gts = Some(Gts::from_two(gts1, gts2).to_owned());

                    outer_calc_offset(lts2, gts.clone(), &mut offset_sum)
                },
                Duration::from_nanos(4194304438),
            ),
            (
                {
                    if let TracePacket::GlobalTimestamp1 { ts, .. } =
                        nth(&mut it, 0).unwrap().unwrap()
                    {
                        gts.as_mut().unwrap().replace_lower(ts);
                        gts.as_ref().unwrap().merge();
                    } else {
                        unreachable!();
                    }
                    let lts2 = nth(&mut it, 0).unwrap().unwrap();

                    outer_calc_offset(lts2, gts, &mut offset_sum)
                },
                Duration::from_nanos(4194312313),
            ),
        ]
    };

    assert!(is_sorted_increasing(
        &timestamps
            .iter()
            .map(|(ts, _since)| ts.clone())
            .collect::<Vec<Timestamp>>()
    ));

    let mut decoder = decoder_of(stream);
    let mut it = decoder.timestamps(TimestampsConfiguration {
        clock_frequency: FREQ,
        lts_prescaler: LocalTimestampOptions::Enabled,
        expect_malformed: false,
    });

    for (i, set) in [
        TimestampedTracePackets {
            packets: [].into(),
            malformed_packets: [].into(),
            timestamp: timestamps[0].0.clone(),
            consumed_packets: 1,
        },
        TimestampedTracePackets {
            packets: [].into(),
            malformed_packets: [].into(),
            timestamp: timestamps[1].0.clone(),
            consumed_packets: 3,
        },
        TimestampedTracePackets {
            packets: [].into(),
            malformed_packets: [].into(),
            timestamp: timestamps[2].0.clone(),
            consumed_packets: 2,
        },
    ]
    .iter()
    .enumerate()
    {
        let ttp = it.next().unwrap().unwrap();
        let since = Duration::from_nanos(ttp.timestamp.offset);
        assert_eq!(since, timestamps[i].1);
        assert_eq!(ttp, *set);
    }
}

#[test]
fn gts_from_one() {
    let g = Gts::from_one(TracePacket::GlobalTimestamp1 {
        ts: 5,
        wrap: false,
        clkch: false,
    });
    assert_eq!((g.lower, g.upper), (Some(5), None));
    let mut g = Gts::from_one(TracePacket::GlobalTimestamp2 { ts: 7 });
    assert_eq!((g.lower, g.upper), (None, Some(7)));
    assert_eq!(g.merge(), None);
    g.replace_lower(3);
    assert_eq!(g.merge(), Some((7 << Gts::GTS2_SHIFT) | 3));
    g.reset();
    assert_eq!((g.lower, g.upper), (None, None));
}

#[test]
fn gts_replace_lower_edges() {
    // nothing new: the old bits stay
    let mut g = Gts { lower: Some(0b1011), upper: None };
    g.replace_lower(0);
    assert_eq!(g.lower, Some(0b1011));
    // all 64 bits new: nothing of the old stays
    g.replace_lower(u64::MAX);
    assert_eq!(g.lower, Some(u64::MAX));
    g.replace_lower(1 << 63);
    assert_eq!(g.lower, Some(1 << 63));
    // the upper half loses what does not fit above bit 26
    let g = Gts { lower: Some(1), upper: Some(u64::MAX) };
    assert_eq!(g.merge(), Some((u64::MAX << 26) | 1));
}

#[test]
fn calc_offset_rounds_up_and_saturates() {
    assert_eq!(calc_offset(0, None, FREQ), 0);
    // 62.5 ns a tick
    assert_eq!(calc_offset(1, None, FREQ), 63);
    assert_eq!(calc_offset(2, None, FREQ), 125);
    assert_eq!(calc_offset(6, Some(LocalTimestampOptions::Enabled), FREQ), 375);
    assert_eq!(calc_offset(1, Some(LocalTimestampOptions::EnabledDiv4), FREQ), 250);
    assert_eq!(calc_offset(1, Some(LocalTimestampOptions::EnabledDiv16), FREQ), 1000);
    assert_eq!(calc_offset(1, Some(LocalTimestampOptions::EnabledDiv64), FREQ), 4000);
    assert_eq!(calc_offset(1, None, 3), 333_333_334);
    assert_eq!(calc_offset(u64::MAX, None, 1), u64::MAX);
    assert_eq!(calc_offset(u64::MAX, Some(LocalTimestampOptions::EnabledDiv64), u32::MAX), u64::MAX);
    assert_eq!(calc_offset(1, None, 0), u64::MAX);
    assert_eq!(calc_offset(0, None, 0), 0);
}

/// A batch of three sleep samples under a complete global timestamp and
/// a local timestamp; further batches are not earlier.
#[test]
fn timestamped_batch_run() {
    let mut decoder = decoder_of(STREAM);
    let mut it = decoder.timestamps(TimestampsConfiguration {
        clock_frequency: FREQ,
        lts_prescaler: LocalTimestampOptions::Enabled,
        expect_malformed: false,
    });
    let merged: u128 = (0b1_0010001_1110100_0111101 << 26) | 0b0_0000100_0100000_0000000;
    let first = it.next().unwrap().unwrap();
    assert_eq!(first.packets, vec![TracePacket::PCSample { pc: None }; 3]);
    assert_eq!(
        first.timestamp.offset as u128,
        merged * 1_000_000_000 / 16_000_000 + (0xC9 * 1_000_000_000u128 + 15_999_999) / 16_000_000
    );
    assert_eq!(first.timestamp.data_relation, TimestampDataRelation::Sync);
    // two more local timestamps of 0xC9 ticks each add to the offset
    let second = it.next().unwrap().unwrap();
    assert_eq!(second.timestamp.offset, first.timestamp.offset + 12563);
    let third = it.next().unwrap().unwrap();
    assert_eq!(third.timestamp.offset, second.timestamp.offset + 12563);
    // the same global timestamp again sets the offset back
    let fourth = it.next().unwrap().unwrap();
    assert_eq!(fourth.timestamp.offset, first.timestamp.offset);
    assert_eq!(
        fourth.timestamp.data_relation,
        TimestampDataRelation::UnknownAssocEventDelay
    );
    let fifth = it.next().unwrap().unwrap();
    assert_eq!(fifth.timestamp.offset, fourth.timestamp.offset + 375);
    assert!(it.next().is_none());
}

#[test]
fn malformed_packets_are_gathered_when_expected() {
    let stream: &[u8] = &[
        // PC sample (sleeping)
        0b0001_0101,
        0b0000_0000,
        // Malformed header
        0b1111_1111,
        // PC sample of two bytes
        0b0001_0110,
        0x01,
        0x02,
        // LTS2
        0b0110_0000,
    ];
    let mut decoder = decoder_of(stream);
    let mut it = decoder.timestamps(TimestampsConfiguration {
        clock_frequency: FREQ,
        lts_prescaler: LocalTimestampOptions::EnabledDiv4,
        expect_malformed: true,
    });
    assert_eq!(
        it.next().unwrap().unwrap(),
        TimestampedTracePackets {
            packets: vec![TracePacket::PCSample { pc: None }],
            malformed_packets: vec![
                MalformedPacket::InvalidHardwareDisc { disc_id: 31, size: 3 },
                MalformedPacket::InvalidPCSampleSize { payload: vec![0x01, 0x02] },
            ],
            timestamp: Timestamp { offset: 1500, data_relation: TimestampDataRelation::Sync },
            consumed_packets: 4,
        }
    );
    assert!(it.next().is_none());
}

#[test]
fn malformed_packet_ends_the_pull_when_not_expected() {
    let stream: &[u8] = &[0b0001_0101, 0b0000_0000, 0b1111_1111, 0b0111_0000, 0b0110_0000];
    let mut decoder = decoder_of(stream);
    let mut it = decoder.timestamps(TimestampsConfiguration {
        clock_frequency: FREQ,
        lts_prescaler: LocalTimestampOptions::Enabled,
        expect_malformed: false,
    });
    assert_eq!(
        it.next().unwrap().unwrap_err(),
        MalformedPacket::InvalidHardwareDisc { disc_id: 31, size: 3 }
    );
    // the batch under way is dropped; what follows is decoded afresh
    let batch = it.next().unwrap().unwrap();
    assert_eq!(batch.packets, vec![TracePacket::Overflow]);
    assert_eq!(batch.consumed_packets, 2);
    assert_eq!(batch.timestamp.offset, 375);
}

#[test]
fn batch_resumes_when_more_is_pushed() {
    let mut decoder = decoder_of(&[0b0111_0000, 0b1100_0000, 0b1100_1001]);
    let mut it = decoder.timestamps(TimestampsConfiguration {
        clock_frequency: FREQ,
        lts_prescaler: LocalTimestampOptions::Enabled,
        expect_malformed: false,
    });
    assert!(it.next().is_none());
    assert_eq!(it.packets, vec![TracePacket::Overflow]);
    it.decoder.push(vec![0b0000_0001]);
    let batch = it.next().unwrap().unwrap();
    assert_eq!(batch.packets, vec![TracePacket::Overflow]);
    assert_eq!(batch.consumed_packets, 2);
    assert_eq!(batch.timestamp.offset, 12563);
}

#[test]
fn global_timestamp_flags() {
    // wrap clears the upper half, clock change clears both: neither sets
    // the offset
    let stream: &[u8] = &[
        // GTS2 (48-bit): 1
        0b1011_0100, 0x81, 0x80, 0x80, 0x00,
        // GTS1 with wrap: 2
        0b1001_0100, 0x82, 0x80, 0x80, 0x40,
        // LTS2
        0b0001_0000,
        // GTS2 (48-bit): 1, complete with the lower half 2
        0b1011_0100, 0x81, 0x80, 0x80, 0x00,
        // LTS2
        0b0001_0000,
        // GTS1 with clock change: 3
        0b1001_0100, 0x83, 0x80, 0x80, 0x20,
        // GTS2 (48-bit): 1, alone again
        0b1011_0100, 0x81, 0x80, 0x80, 0x00,
        // LTS2
        0b0001_0000,
    ];
    let mut decoder = decoder_of(stream);
    let mut it = decoder.timestamps(TimestampsConfiguration {
        clock_frequency: 1_000_000_000,
        lts_prescaler: LocalTimestampOptions::Enabled,
        expect_malformed: false,
    });
    assert_eq!(it.next().unwrap().unwrap().timestamp.offset, 1);
    assert_eq!(it.gts, Gts { lower: Some(2), upper: None });
    assert_eq!(it.next().unwrap().unwrap().timestamp.offset, (1 << 26) + 2 + 1);
    assert_eq!(it.next().unwrap().unwrap().timestamp.offset, (1 << 26) + 2 + 2);
    assert_eq!(it.gts, Gts { lower: None, upper: Some(1) });
}

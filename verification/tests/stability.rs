use resol_vbus::utils::utc_timestamp;
use resol_vbus::{Data, Header, Packet};
use vbus_logger::data_set_stability::{DataSetStability, DataSetStabilityState};

fn packet(channel: u8, destination: u16, source: u16, command: u16) -> Data {
    Data::Packet(Packet {
        header: Header {
            timestamp: utc_timestamp(1_500_000_000),
            channel,
            destination_address: destination,
            source_address: source,
            protocol_version: 0x10,
        },
        command,
        frame_count: 0,
        frame_data: [0u8; 508],
    })
}

#[test]
fn stability_distinct_identities_each_emit_changed() {
    let mut tracker = DataSetStability::new();
    assert_eq!(0, tracker.as_data_slice().len());
    for (i, channel) in [0x11u8, 0x12, 0x13].iter().enumerate() {
        let event = tracker.add_data(packet(*channel, 0x0010, 0x7E11, 0x0100));
        assert_eq!(DataSetStabilityState::DataSetChanged, event);
        assert!(!tracker.is_stable());
        assert_eq!(i + 1, tracker.as_data_slice().len());
        assert_eq!(i + 1, tracker.data_set().len());
    }
}

#[test]
fn stability_replacement_keeps_length() {
    let mut tracker = DataSetStability::new();
    assert_eq!(
        DataSetStabilityState::DataSetChanged,
        tracker.add_data(packet(0x11, 0x0010, 0x7E11, 0x0100))
    );
    // Same identity again: the slot is replaced, the set does not grow.
    let event = tracker.add_data(packet(0x11, 0x0010, 0x7E11, 0x0100));
    assert!(event != DataSetStabilityState::DataSetChanged);
    assert_eq!(1, tracker.as_data_slice().len());
}

#[test]
fn stability_replacement_stores_the_latest_value() {
    let mut tracker = DataSetStability::new();
    tracker.add_data(packet(0x11, 0x0010, 0x7E11, 0x0100));
    tracker.add_data(packet(0x11, 0x0010, 0x7E21, 0x0100));

    // A newer sample of the first identity, with a different payload.
    let mut newer = Packet {
        header: Header {
            timestamp: utc_timestamp(1_500_000_060),
            channel: 0x11,
            destination_address: 0x0010,
            source_address: 0x7E11,
            protocol_version: 0x10,
        },
        command: 0x0100,
        frame_count: 2,
        frame_data: [0u8; 508],
    };
    newer.frame_data[0] = 0x2A;
    tracker.add_data(Data::Packet(newer));

    let slice = tracker.as_data_slice();
    assert_eq!(2, slice.len());
    // The arriving value won: the first slot now holds the newer sample.
    let stored = slice[0].as_packet();
    assert_eq!(2, stored.frame_count);
    assert_eq!(0x2A, stored.frame_data[0]);
    assert_eq!(utc_timestamp(1_500_000_060), stored.header.timestamp);
    // The other slot is untouched.
    assert_eq!(0, slice[1].as_packet().frame_count);
}

#[test]
fn stability_two_identities_stabilize_on_sixth_unchanged_addition() {
    let mut tracker = DataSetStability::new();
    let a = || packet(0x11, 0x0010, 0x7E11, 0x0100);
    let b = || packet(0x11, 0x0010, 0x7E21, 0x0100);
    assert_eq!(DataSetStabilityState::DataSetChanged, tracker.add_data(a()));
    assert_eq!(DataSetStabilityState::DataSetChanged, tracker.add_data(b()));
    assert_eq!(0, tracker.stability_percent());

    // count = len * 3 = 6; integer truncation gives this percent sequence.
    let expected = [16, 33, 50, 66, 83];
    for (step, percent) in expected.iter().enumerate() {
        let data = if step % 2 == 0 { a() } else { b() };
        assert_eq!(DataSetStabilityState::Stabilizing(*percent), tracker.add_data(data));
        assert_eq!(*percent, tracker.stability_percent());
        assert!(!tracker.is_stable());
    }
    assert_eq!(DataSetStabilityState::Stabilized, tracker.add_data(b()));
    assert!(tracker.is_stable());
    assert_eq!(100, tracker.stability_percent());

    // Steady state afterwards.
    assert_eq!(DataSetStabilityState::Stable, tracker.add_data(a()));
    assert_eq!(DataSetStabilityState::Stable, tracker.add_data(b()));
    assert!(tracker.is_stable());
    assert_eq!(100, tracker.stability_percent());
}

#[test]
fn stability_new_identity_resets_a_stable_tracker() {
    let mut tracker = DataSetStability::new();
    let a = || packet(0x11, 0x0010, 0x7E11, 0x0100);
    tracker.add_data(a());
    for _ in 0..3 {
        tracker.add_data(a());
    }
    assert!(tracker.is_stable());

    let event = tracker.add_data(packet(0x22, 0x0010, 0x7E11, 0x0100));
    assert_eq!(DataSetStabilityState::DataSetChanged, event);
    assert!(!tracker.is_stable());
    assert_eq!(0, tracker.stability_percent());
    assert_eq!(2, tracker.as_data_slice().len());
}

#[test]
fn stability_single_identity_stabilizes_after_three_cycles() {
    let mut tracker = DataSetStability::new();
    let a = || packet(0x11, 0x0010, 0x7E11, 0x0100);
    assert_eq!(DataSetStabilityState::DataSetChanged, tracker.add_data(a()));
    assert_eq!(DataSetStabilityState::Stabilizing(33), tracker.add_data(a()));
    assert_eq!(DataSetStabilityState::Stabilizing(66), tracker.add_data(a()));
    assert_eq!(DataSetStabilityState::Stabilized, tracker.add_data(a()));
}

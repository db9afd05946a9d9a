use resol_vbus::utils::utc_timestamp;
use resol_vbus::{Data, Datagram, Header, Language, Packet, Specification, SpecificationFile};
use vbus_logger::fields::FieldBinding;
use vbus_logger::packet_id::PacketId;
use vbus_logger::persistence::{bucket_index, build_flush_plan, FieldUpdate, PersistenceController};

fn packet(channel: u8, destination: u16, source: u16, command: u16) -> Data {
    Data::Packet(Packet {
        header: Header {
            timestamp: utc_timestamp(1_500_000_000),
            channel,
            destination_address: destination,
            source_address: source,
            protocol_version: 0x10,
        },
        command,
        frame_count: 0,
        frame_data: [0u8; 508],
    })
}

fn datagram(channel: u8) -> Data {
    Data::Datagram(Datagram {
        header: Header {
            timestamp: utc_timestamp(1_500_000_000),
            channel,
            destination_address: 0x0000,
            source_address: 0x7E11,
            protocol_version: 0x20,
        },
        command: 0x0500,
        param16: 0,
        param32: 0,
    })
}

fn binding(spec: &Specification, id: PacketId, column: &str) -> FieldBinding {
    FieldBinding {
        column: column.to_string(),
        stmt: format!("UPDATE data SET {} = :raw_value WHERE id = :id", column),
        packet_spec: spec.get_packet_spec_by_id(resol_vbus::PacketId(
            id.channel,
            id.destination_address,
            id.source_address,
            id.command,
        )),
        packet_id: id,
        field_spec_pos: 0,
    }
}

#[test]
fn persistence_bucket_index_is_floor_division() {
    assert_eq!(0, bucket_index(0, 60));
    assert_eq!(0, bucket_index(59, 60));
    assert_eq!(1, bucket_index(60, 60));
    assert_eq!(2, bucket_index(125, 60));
    assert_eq!(-1, bucket_index(-1, 60));
    assert_eq!(-1, bucket_index(-60, 60));
    assert_eq!(-2, bucket_index(-61, 60));
}

#[test]
fn persistence_at_most_one_flush_per_bucket() {
    let mut controller = PersistenceController::new(60, 0);
    let slice: Vec<Data> = Vec::new();
    let bindings: Vec<FieldBinding> = Vec::new();

    // Same bucket as the last persisted timestamp: no flush.
    assert!(controller.on_stable_sample(30, &slice, &bindings).is_none());
    assert_eq!(0, controller.last_timestamp);

    // First sample of a new bucket: flush, not necessarily at the boundary.
    assert!(controller.on_stable_sample(65, &slice, &bindings).is_some());
    assert_eq!(65, controller.last_timestamp);

    // Later sample of the same bucket: no flush.
    assert!(controller.on_stable_sample(119, &slice, &bindings).is_none());
    assert_eq!(65, controller.last_timestamp);

    // Next bucket again.
    assert!(controller.on_stable_sample(125, &slice, &bindings).is_some());
    assert_eq!(125, controller.last_timestamp);

    // Buckets of consecutive flush timestamps strictly increased.
    assert!(bucket_index(65, 60) < bucket_index(125, 60));
}

#[test]
fn persistence_absent_binding_is_skipped_others_persist() {
    let spec = Specification::from_file(SpecificationFile::new_default(), Language::En);
    let id_a = PacketId {
        channel: 0x11,
        destination_address: 0x0010,
        source_address: 0x7E11,
        command: 0x0100,
    };
    let id_b = PacketId {
        channel: 0x11,
        destination_address: 0x0010,
        source_address: 0x7E21,
        command: 0x0100,
    };
    let id_absent = PacketId {
        channel: 0x77,
        destination_address: 0x0010,
        source_address: 0x7E31,
        command: 0x0100,
    };

    // Slot 1 is a datagram: no binding can match it.
    let slice = vec![
        packet(0x11, 0x0010, 0x7E11, 0x0100),
        datagram(0x11),
        packet(0x11, 0x0010, 0x7E21, 0x0100),
    ];
    let bindings = vec![
        binding(&spec, id_b, "temp_b"),
        binding(&spec, id_absent, "temp_absent"),
        binding(&spec, id_a, "temp_a"),
    ];

    let plan = build_flush_plan(&slice, &bindings);
    assert_eq!(
        vec![
            FieldUpdate { data_index: 0, binding_index: 2 },
            FieldUpdate { data_index: 2, binding_index: 0 },
        ],
        plan
    );

    let mut controller = PersistenceController::new(60, 0);
    let planned = controller
        .on_stable_sample(60, &slice, &bindings)
        .expect("a new bucket must flush");
    assert_eq!(2, planned.len());
    assert!(planned.iter().all(|u| u.binding_index != 1));
}

#[test]
fn persistence_duplicate_bindings_each_get_an_update() {
    let spec = Specification::from_file(SpecificationFile::new_default(), Language::En);
    let id_a = PacketId {
        channel: 0x11,
        destination_address: 0x0010,
        source_address: 0x7E11,
        command: 0x0100,
    };
    let slice = vec![packet(0x11, 0x0010, 0x7E11, 0x0100)];
    let bindings = vec![binding(&spec, id_a, "temp_1"), binding(&spec, id_a, "temp_2")];
    let plan = build_flush_plan(&slice, &bindings);
    assert_eq!(
        vec![
            FieldUpdate { data_index: 0, binding_index: 0 },
            FieldUpdate { data_index: 0, binding_index: 1 },
        ],
        plan
    );
}

use resol_vbus::{Language, Specification, SpecificationFile};
use vbus_logger::config::FieldConfig;
use vbus_logger::fields::{check_column_name, resolve_field, ConfigError};

fn spec() -> Specification {
    Specification::from_file(SpecificationFile::new_default(), Language::En)
}

fn field_config(column: &str, packet_id: &str, field_id: &str) -> FieldConfig {
    FieldConfig {
        column: column.to_string(),
        packet_id: packet_id.to_string(),
        field_id: field_id.to_string(),
    }
}

#[test]
fn fields_column_name_with_space_is_rejected() {
    assert_eq!(
        Err(ConfigError::InvalidColumnName),
        check_column_name(&"flow temp".to_string())
    );
    let spec = spec();
    let fc = field_config("flow temp", "00_0010_7E11_10_0100", "000_2_0");
    assert!(matches!(
        resolve_field(&fc, &spec, Some(1)),
        Err(ConfigError::InvalidColumnName)
    ));
}

#[test]
fn fields_column_name_with_hyphen_is_rejected() {
    assert_eq!(
        Err(ConfigError::InvalidColumnName),
        check_column_name(&"flow-temp".to_string())
    );
}

#[test]
fn fields_reserved_column_names_are_rejected() {
    assert_eq!(Err(ConfigError::ReservedColumnName), check_column_name(&"id".to_string()));
    assert_eq!(
        Err(ConfigError::ReservedColumnName),
        check_column_name(&"timestamp".to_string())
    );
    let spec = spec();
    let fc = field_config("timestamp", "00_0010_7E11_10_0100", "000_2_0");
    assert!(matches!(
        resolve_field(&fc, &spec, Some(1)),
        Err(ConfigError::ReservedColumnName)
    ));
}

#[test]
fn fields_ordinary_column_name_is_accepted() {
    assert_eq!(Ok(()), check_column_name(&"flow_temp_1".to_string()));
}

#[test]
fn fields_unknown_column_is_rejected() {
    let spec = spec();
    let fc = field_config("flow_temp", "00_0010_7E11_10_0100", "000_2_0");
    assert!(matches!(resolve_field(&fc, &spec, Some(0)), Err(ConfigError::UnknownColumn)));
}

#[test]
fn fields_unexpected_column_count_is_rejected() {
    let spec = spec();
    let fc = field_config("flow_temp", "00_0010_7E11_10_0100", "000_2_0");
    assert!(matches!(
        resolve_field(&fc, &spec, Some(2)),
        Err(ConfigError::UnexpectedColumnCount)
    ));
    assert!(matches!(
        resolve_field(&fc, &spec, None),
        Err(ConfigError::UnexpectedColumnCount)
    ));
}

#[test]
fn fields_malformed_packet_id_is_rejected() {
    let spec = spec();
    let fc = field_config("flow_temp", "not_a_packet_id", "000_2_0");
    assert!(matches!(resolve_field(&fc, &spec, Some(1)), Err(ConfigError::InvalidPacketId)));
}

#[test]
fn fields_unknown_field_id_is_rejected() {
    let spec = spec();
    let fc = field_config("flow_temp", "00_0010_7E11_10_0100", "999_9_9");
    assert!(matches!(resolve_field(&fc, &spec, Some(1)), Err(ConfigError::UnknownFieldId)));
}

#[test]
fn fields_known_field_resolves_into_a_binding() {
    let spec = spec();
    let fc = field_config("flow_temp", "00_0010_7E11_10_0100", "000_2_0");
    let binding = match resolve_field(&fc, &spec, Some(1)) {
        Ok(binding) => binding,
        Err(e) => panic!("expected a resolved binding, got {:?}", e),
    };
    assert_eq!("flow_temp", binding.column);
    assert_eq!("UPDATE data SET flow_temp = :raw_value WHERE id = :id", binding.stmt);
    // The parsed packet identity must match the configured string.
    assert_eq!(0x00, binding.packet_id.channel);
    assert_eq!(0x0010, binding.packet_id.destination_address);
    assert_eq!(0x7E11, binding.packet_id.source_address);
    assert_eq!(0x0100, binding.packet_id.command);
    // The stored position must locate exactly the configured field.
    let field_spec = binding.packet_spec.get_field_spec_by_position(binding.field_spec_pos);
    assert_eq!("000_2_0", field_spec.field_id);
}

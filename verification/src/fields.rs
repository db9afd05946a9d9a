//! Startup resolution of configured output columns into field bindings.
//!
//! Each configured field names an output column, a packet identity and a
//! field ID. Resolution validates the column name, checks the column against
//! the live schema (whose answer the caller passes in, having queried the
//! store), parses the packet identity, resolves the field ID against the
//! packet catalog, and builds the parameterized update statement.

use vstd::prelude::*;
use vstd::string::{StrSliceExecFns, StringExecFns};
use crate::config::FieldConfig;
use crate::packet_id::PacketId;
use crate::vbus::{
    catalog_packet_spec,
    field_spec_position,
    packet_field_ids,
    packet_id_from_str,
    packet_spec_of,
    parse_packet_id,
};

verus! {

/// Why startup validation rejected a configured field. Each of these is
/// fatal at startup.
#[derive(Clone, Copy, Debug, PartialEq, Eq, Structural)]
pub enum ConfigError {
    /// The column name holds a character outside letters, digits and '_'.
    InvalidColumnName,
    /// The column name is a reserved name of the record itself.
    ReservedColumnName,
    /// The live schema has no column of that name.
    UnknownColumn,
    /// The schema lookup answered something other than zero or one.
    UnexpectedColumnCount,
    /// The packet identity string does not follow the identity grammar.
    InvalidPacketId,
    /// The field ID is unknown within the packet's specification.
    UnknownFieldId,
}

/// The characters a column name may consist of.
pub open spec fn is_column_char(c: char) -> bool {
    ('0' <= c && c <= '9') || ('A' <= c && c <= 'Z') || ('a' <= c && c <= 'z') || c == '_'
}

pub open spec fn valid_column_name(s: Seq<char>) -> bool {
    forall|i: int| 0 <= i < s.len() ==> is_column_char(#[trigger] s[i])
}

/// The record's own column names, which no configured field may use.
pub open spec fn reserved_column_name(s: Seq<char>) -> bool {
    s == "id"@ || s == "timestamp"@
}

/// A column name passes the name checks: only permitted characters, and not
/// a reserved name.
pub open spec fn column_name_ok(s: Seq<char>) -> bool {
    valid_column_name(s) && !reserved_column_name(s)
}

/// The update statement bound to a column: one parameterized assignment of
/// the extracted raw value, scoped to exactly that column of one record.
pub open spec fn update_statement(column: Seq<char>) -> Seq<char> {
    "UPDATE data SET "@ + column + " = :raw_value WHERE id = :id"@
}

/// A resolved, validated mapping from one configured output column to one
/// decodable field inside one packet identity. Immutable after resolution.
pub struct FieldBinding {
    pub column: String,
    pub stmt: String,
    pub packet_id: PacketId,
    pub packet_spec: std::rc::Rc<resol_vbus::specification::PacketSpec>,
    pub field_spec_pos: usize,
}

/// Check a configured column name: every character must be a letter, digit
/// or underscore, and the name must not collide with the record's own
/// columns.
pub fn check_column_name(column: &String) -> (r: Result<(), ConfigError>)
    ensures
        r == if !valid_column_name(column@) {
            Result::<(), ConfigError>::Err(ConfigError::InvalidColumnName)
        } else if reserved_column_name(column@) {
            Result::<(), ConfigError>::Err(ConfigError::ReservedColumnName)
        } else {
            Result::<(), ConfigError>::Ok(())
        },
{
    let s = column.as_str();
    let n = s.unicode_len();
    let mut i: usize = 0;
    while i < n
        invariant
            n as nat == column@.len(),
            s@ == column@,
            i <= n,
            forall|j: int| 0 <= j < i ==> is_column_char(#[trigger] column@[j]),
        decreases n - i,
    {
        let c = s.get_char(i);
        let u = c as u32;
        let ok = (48 <= u && u <= 57) || (65 <= u && u <= 90) || (97 <= u && u <= 122) || u == 95;
        if !ok {
            assert(!is_column_char(column@[i as int]));
            return Err(ConfigError::InvalidColumnName);
        }
        i = i + 1;
    }
    let id_name = String::from_str("id");
    let timestamp_name = String::from_str("timestamp");
    if column.eq(&id_name) {
        Err(ConfigError::ReservedColumnName)
    } else if column.eq(&timestamp_name) {
        Err(ConfigError::ReservedColumnName)
    } else {
        Ok(())
    }
}

/// Build the binding for a column once the catalog has answered the field
/// lookup: a known field position yields the finished binding, an unknown
/// field ID is rejected.
pub fn bind_field(
    column: &String,
    packet_id: PacketId,
    packet_spec: std::rc::Rc<resol_vbus::specification::PacketSpec>,
    field_spec_pos: Option<usize>,
) -> (r: Result<FieldBinding, ConfigError>)
    ensures
        field_spec_pos matches Some(pos) ==> r matches Ok(b) && b.column@ == column@ && b.stmt@
            == update_statement(column@) && b.packet_id == packet_id && b.packet_spec
            == packet_spec && b.field_spec_pos == pos,
        field_spec_pos is None ==> r == Result::<FieldBinding, ConfigError>::Err(
            ConfigError::UnknownFieldId,
        ),
{
    match field_spec_pos {
        Some(pos) => {
            let mut stmt = String::from_str("UPDATE data SET ");
            stmt.append(column.as_str());
            stmt.append(" = :raw_value WHERE id = :id");
            Ok(
                FieldBinding {
                    column: column.clone(),
                    stmt,
                    packet_id,
                    packet_spec,
                    field_spec_pos: pos,
                },
            )
        },
        None => Err(ConfigError::UnknownFieldId),
    }
}

/// Validate one configured field and resolve it into a `FieldBinding`.
///
/// `column_count` is the number of columns of the configured name that the
/// store's schema reported — `None` when the store answered something that
/// is not a count. The checks run in a fixed order: column name characters,
/// reserved names, schema presence, packet identity grammar, field ID.
/// Resolution succeeds exactly when all five checks pass — the last one
/// meaning that the catalog's packet specification holds the configured
/// field ID — and the finished binding then carries the position of that
/// field.
pub fn resolve_field(
    fc: &FieldConfig,
    spec: &resol_vbus::Specification,
    column_count: Option<i64>,
) -> (r: Result<FieldBinding, ConfigError>)
    ensures
        !valid_column_name(fc.column@) ==> r == Result::<FieldBinding, ConfigError>::Err(
            ConfigError::InvalidColumnName,
        ),
        valid_column_name(fc.column@) && reserved_column_name(fc.column@) ==> r
            == Result::<FieldBinding, ConfigError>::Err(ConfigError::ReservedColumnName),
        column_name_ok(fc.column@) && column_count == Some(0i64) ==> r == Result::<
            FieldBinding,
            ConfigError,
        >::Err(ConfigError::UnknownColumn),
        column_name_ok(fc.column@) && column_count != Some(0i64) && column_count != Some(1i64)
            ==> r == Result::<FieldBinding, ConfigError>::Err(ConfigError::UnexpectedColumnCount),
        column_name_ok(fc.column@) && column_count == Some(1i64) && packet_id_from_str(
            fc.packet_id@,
        ) is None ==> r == Result::<FieldBinding, ConfigError>::Err(ConfigError::InvalidPacketId),
        column_name_ok(fc.column@) && column_count == Some(1i64) ==> (packet_id_from_str(
            fc.packet_id@,
        ) matches Some(t) ==> {
            &&& ((r is Ok) <==> packet_field_ids(catalog_packet_spec(*spec, t)).contains(
                fc.field_id@,
            ))
            &&& (r matches Ok(b) ==> b.column@ == fc.column@ && b.stmt@ == update_statement(
                fc.column@,
            ) && b.packet_id@ == t && b.packet_spec == catalog_packet_spec(*spec, t) && (
            b.field_spec_pos as nat) < packet_field_ids(catalog_packet_spec(*spec, t)).len()
                && packet_field_ids(catalog_packet_spec(*spec, t))[b.field_spec_pos as int]
                == fc.field_id@)
            &&& (r is Err ==> r == Result::<FieldBinding, ConfigError>::Err(
                ConfigError::UnknownFieldId,
            ))
        }),
{
    if let Err(e) = check_column_name(&fc.column) {
        return Err(e);
    }
    match column_count {
        Some(1i64) => {},
        Some(0i64) => {
            return Err(ConfigError::UnknownColumn);
        },
        _ => {
            return Err(ConfigError::UnexpectedColumnCount);
        },
    }
    let packet_id = match parse_packet_id(fc.packet_id.as_str()) {
        Some(p) => p,
        None => {
            return Err(ConfigError::InvalidPacketId);
        },
    };
    let packet_spec = packet_spec_of(spec, &packet_id);
    let pos = field_spec_position(&packet_spec, fc.field_id.as_str());
    proof {
        if let Some(i) = pos {
            // Witness: the found position makes the field ID a member.
            assert(packet_field_ids(catalog_packet_spec(*spec, packet_id@))[i as int]
                == fc.field_id@);
        }
    }
    bind_field(&fc.column, packet_id, packet_spec, pos)
}

} // verus!

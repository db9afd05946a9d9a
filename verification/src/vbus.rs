//! The trusted boundary to the `resol_vbus` crate.
//!
//! The data set, the decoded data values and the field catalog live in
//! `resol_vbus`; the library sees them through the declarations and wrappers
//! below. Two uninterpreted names abstract the contents of a data set: the
//! sequence of identities of its values (an identity is the set of header
//! fields that `resol_vbus::Data::eq` compares), and the sequence of their
//! packet identities (`Some` exactly for packet-shaped values).

use vstd::prelude::*;
use crate::packet_id::PacketId;
use resol_vbus::ToPacketId;

verus! {

#[verifier::external_type_specification]
#[verifier::external_body]
pub struct ExDataSet(resol_vbus::DataSet);

#[verifier::external_type_specification]
#[verifier::external_body]
pub struct ExData(resol_vbus::Data);

#[verifier::external_type_specification]
#[verifier::external_body]
pub struct ExSpecification(resol_vbus::Specification);

#[verifier::external_type_specification]
#[verifier::external_body]
pub struct ExPacketSpec(resol_vbus::specification::PacketSpec);

/// The identity of one `resol_vbus::Data` value: the fields its `eq`
/// implementation compares, encoded as a sequence of integers.
pub uninterp spec fn data_identity(d: resol_vbus::Data) -> Seq<int>;

/// The packet identity of one `resol_vbus::Data` value: `Some` of the header
/// fields that `Packet::packet_id` returns when the value is a packet,
/// `None` otherwise.
pub uninterp spec fn data_packet_id(d: resol_vbus::Data) -> Option<(u8, u16, u16, u16)>;

/// The values a `resol_vbus::DataSet` contains, in order.
pub uninterp spec fn ds_values(ds: resol_vbus::DataSet) -> Seq<resol_vbus::Data>;

/// The identities of the values a `resol_vbus::DataSet` contains, in order.
pub uninterp spec fn ds_identities(ds: resol_vbus::DataSet) -> Seq<Seq<int>>;

/// The packet identities of the values a `resol_vbus::DataSet` contains,
/// in order.
pub uninterp spec fn ds_packet_ids(ds: resol_vbus::DataSet) -> Seq<Option<(u8, u16, u16, u16)>>;

/// What `resol_vbus::ToPacketId::to_packet_id` parses out of a string:
/// `Some` of (channel, destination, source, command) when the string follows
/// the packet-identity grammar, `None` otherwise.
pub uninterp spec fn packet_id_from_str(s: Seq<char>) -> Option<(u8, u16, u16, u16)>;

/// What `resol_vbus::Specification::get_packet_spec_by_id` returns for a
/// packet identity: the catalog's packet specification for it (a
/// synthesized placeholder when the identity is unknown to the catalog).
pub uninterp spec fn catalog_packet_spec(
    spec: resol_vbus::Specification,
    id: (u8, u16, u16, u16),
) -> std::rc::Rc<resol_vbus::specification::PacketSpec>;

/// The field IDs a packet specification holds, in order.
pub uninterp spec fn packet_field_ids(
    packet_spec: std::rc::Rc<resol_vbus::specification::PacketSpec>,
) -> Seq<Seq<char>>;

/// Relies on `resol_vbus::DataSet::new`: the new set contains no values.
#[verifier::external_body]
pub(crate) fn ds_new() -> (r: resol_vbus::DataSet)
    ensures
        ds_values(r) == Seq::<resol_vbus::Data>::empty(),
        ds_identities(r) == Seq::<Seq<int>>::empty(),
        ds_packet_ids(r) == Seq::<Option<(u8, u16, u16, u16)>>::empty(),
{
    resol_vbus::DataSet::new()
}

/// Relies on `resol_vbus::DataSet::len`: the number of contained values.
#[verifier::external_body]
pub(crate) fn ds_len(ds: &resol_vbus::DataSet) -> (r: usize)
    ensures
        r as nat == ds_identities(*ds).len(),
{
    ds.len()
}

/// Relies on `resol_vbus::DataSet::add_data`: the value replaces, in place,
/// the first contained value with the same identity, or is appended when
/// its identity is not yet present. Equal identities imply equal packet
/// identities, so a replacement changes neither identity sequence — only
/// the stored value: the arriving value wins.
#[verifier::external_body]
pub(crate) fn ds_add(ds: &mut resol_vbus::DataSet, data: resol_vbus::Data)
    ensures
        ds_identities(*old(ds)).contains(data_identity(data)) ==> {
            &&& ds_identities(*final(ds)) == ds_identities(*old(ds))
            &&& ds_packet_ids(*final(ds)) == ds_packet_ids(*old(ds))
            &&& (ds_identities(*old(ds)).index_of_first(data_identity(data)) matches Some(i)
                && ds_values(*final(ds)) == ds_values(*old(ds)).update(i, data))
        },
        !ds_identities(*old(ds)).contains(data_identity(data)) ==> {
            &&& ds_identities(*final(ds)) == ds_identities(*old(ds)).push(data_identity(data))
            &&& ds_packet_ids(*final(ds)) == ds_packet_ids(*old(ds)).push(data_packet_id(data))
            &&& ds_values(*final(ds)) == ds_values(*old(ds)).push(data)
        },
{
    ds.add_data(data)
}

/// Relies on `resol_vbus::DataSet::as_data_slice`: the contained values,
/// in order.
#[verifier::external_body]
pub(crate) fn ds_as_data_slice(ds: &resol_vbus::DataSet) -> (r: &[resol_vbus::Data])
    ensures
        r@ == ds_values(*ds),
        r@.len() == ds_identities(*ds).len(),
        forall|i: int|
            0 <= i < r@.len() ==> #[trigger] data_identity(r@[i]) == ds_identities(*ds)[i],
        forall|i: int|
            0 <= i < r@.len() ==> #[trigger] data_packet_id(r@[i]) == ds_packet_ids(*ds)[i],
{
    ds.as_data_slice()
}

/// Relies on the variants of `resol_vbus::Data`: `Packet::packet_id` is
/// built from the channel, destination address and source address of the
/// header together with the command (the protocol version, which the full
/// identity also compares, is 1.x for every packet); datagrams and
/// telegrams have no packet identity.
#[verifier::external_body]
pub(crate) fn data_packet_ident(d: &resol_vbus::Data) -> (r: Option<PacketId>)
    ensures
        match r {
            Some(p) => data_packet_id(*d) == Some(p@),
            None => data_packet_id(*d) is None,
        },
{
    match d {
        resol_vbus::Data::Packet(p) => Some(
            PacketId {
                channel: p.header.channel,
                destination_address: p.header.destination_address,
                source_address: p.header.source_address,
                command: p.command,
            },
        ),
        resol_vbus::Data::Datagram(_) => None,
        resol_vbus::Data::Telegram(_) => None,
    }
}

/// Relies on `resol_vbus::ToPacketId::to_packet_id` for `str`: parses the
/// '_'-separated hexadecimal packet-identity grammar (channel, destination
/// address, source address, protocol version 1.x, command).
#[verifier::external_body]
pub(crate) fn parse_packet_id(s: &str) -> (r: Option<PacketId>)
    ensures
        match r {
            Some(p) => packet_id_from_str(s@) == Some(p@),
            None => packet_id_from_str(s@) is None,
        },
{
    match s.to_packet_id() {
        Ok(resol_vbus::PacketId(channel, destination_address, source_address, command)) => Some(
            PacketId { channel, destination_address, source_address, command },
        ),
        Err(_) => None,
    }
}

/// Relies on `resol_vbus::Specification::get_packet_spec_by_id`: the packet
/// specification for a packet identity (a synthesized placeholder when the
/// identity is unknown to the catalog); deterministic for one catalog value
/// and one identity.
#[verifier::external_body]
pub(crate) fn packet_spec_of(
    spec: &resol_vbus::Specification,
    id: &PacketId,
) -> (r: std::rc::Rc<resol_vbus::specification::PacketSpec>)
    ensures
        r == catalog_packet_spec(*spec, id@),
{
    spec.get_packet_spec_by_id(
        resol_vbus::PacketId(id.channel, id.destination_address, id.source_address, id.command),
    )
}

/// Relies on `resol_vbus::specification::PacketSpec::get_field_spec_position`:
/// the position of the first field whose field ID equals the given one, or
/// `None` when the specification holds no such field.
#[verifier::external_body]
pub(crate) fn field_spec_position(
    packet_spec: &std::rc::Rc<resol_vbus::specification::PacketSpec>,
    field_id: &str,
) -> (r: Option<usize>)
    ensures
        match r {
            Some(i) => {
                &&& (i as nat) < packet_field_ids(*packet_spec).len()
                &&& packet_field_ids(*packet_spec)[i as int] == field_id@
                &&& forall|j: int|
                    0 <= j < i as int ==> packet_field_ids(*packet_spec)[j] != field_id@
            },
            None => !packet_field_ids(*packet_spec).contains(field_id@),
        },
{
    packet_spec.get_field_spec_position(field_id)
}

} // verus!

//! Port numbers as the network writes them.
use vstd::prelude::*;

verus! {

/// The low half of a wider field.
pub open spec fn low_half(field: int) -> int {
    field % 0x1_0000
}

/// The number that two bytes in network order stand for, when a host that keeps
/// the low byte first has read them as `raw`.
pub open spec fn network_port(raw: int) -> int {
    (raw % 0x100) * 0x100 + raw / 0x100
}

/// The port in a socket field that holds it in network order, as read by a host
/// that keeps the low byte first. Windows and macOS run on such hosts only.
pub fn port_from_network(raw: u16) -> (port: u16)
    ensures
        port == network_port(raw as int),
{
    (raw % 0x100) * 0x100 + raw / 0x100
}

/// Reading a port in network order twice gives the field back: every port is
/// found under exactly one field value.
#[verifier::spinoff_prover]
#[verifier::rlimit(40)]
pub proof fn law_network_port_undoes_itself(raw: u16)
    ensures
        0 <= network_port(raw as int) <= u16::MAX,
        network_port(network_port(raw as int)) == raw,
{
}

/// A field whose two lowest bytes are `first` and `second`, the lowest first,
/// holds the port 256 times `first` plus `second`, whatever stands above them.
#[verifier::spinoff_prover]
#[verifier::rlimit(40)]
pub proof fn law_port_is_made_of_two_bytes(first: u8, second: u8, above: int)
    ensures
        network_port(low_half(first + 0x100 * second + 0x1_0000 * above)) == 0x100 * first + second,
{
}

/// The port in a field is its lowest byte times 256 plus the byte above it.
#[verifier::spinoff_prover]
#[verifier::rlimit(40)]
pub proof fn law_port_of_a_field(field: int)
    ensures
        network_port(low_half(field)) == 0x100 * (field % 0x100) + (field / 0x100) % 0x100,
{
}

} // verus!

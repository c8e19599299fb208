//! Configuration values decided before a game starts: whether this process
//! listens or connects, and which peer moves first. The textual forms are
//! matched without regard to ASCII letter case.
use vstd::prelude::*;

verus! {

/// Whether this process listens for the peer (`Server`) or dials it (`Client`).
#[derive(Copy, Clone, Debug, Eq, PartialEq, Structural)]
pub enum HostType {
    Server,
    Client,
}

/// Returned when a command-line value cannot be understood or the
/// combination of values cannot describe a playable setup.
#[derive(Copy, Clone, Debug, Eq, PartialEq, Structural)]
pub struct InvalidArgument;

/// Which peer places the first mark. `First` plays `X`, `Second` plays `O`.
#[derive(Copy, Clone, Debug, Eq, PartialEq, Structural)]
pub enum StartOrder {
    First,
    Second,
}

/// ASCII lower-casing of one byte, the folding used for argument keywords.
pub open spec fn ascii_to_lower(b: u8) -> u8 {
    if 65 <= b <= 90 {
        (b + 32) as u8
    } else {
        b
    }
}

/// The byte sequence `s` folded to ASCII lower case.
pub open spec fn seq_to_lower(s: Seq<u8>) -> Seq<u8> {
    s.map_values(|b: u8| ascii_to_lower(b))
}

/// Lower-case one byte.
fn byte_to_lower(b: u8) -> (r: u8)
    ensures
        r == ascii_to_lower(b),
{
    if 65 <= b && b <= 90 {
        b + 32
    } else {
        b
    }
}

/// True iff `s` equals `keyword` after ASCII case folding of `s`.
/// `keyword` is expected to be lower case already.
fn eq_ignore_ascii_case(s: &[u8], keyword: &[u8]) -> (r: bool)
    ensures
        r == (seq_to_lower(s@) == keyword@),
{
    if s.len() != keyword.len() {
        assert(seq_to_lower(s@).len() == s@.len());
        return false;
    }
    let n: usize = s.len();
    let mut i: usize = 0;
    while i < n
        invariant
            n == s@.len() == keyword@.len(),
            0 <= i <= n,
            forall|j: int| 0 <= j < i ==> ascii_to_lower(s@[j]) == keyword@[j],
        decreases n - i,
    {
        if byte_to_lower(s[i]) != keyword[i] {
            assert(seq_to_lower(s@)[i as int] != keyword@[i as int]);
            return false;
        }
        i += 1;
    }
    assert(seq_to_lower(s@) =~= keyword@);
    true
}

/// Reads a host-type keyword, without regard to letter case:
/// `server` or `client`; anything else is rejected.
pub fn host_type_from_bytes(s: &[u8]) -> (r: Result<HostType, InvalidArgument>)
    ensures
        seq_to_lower(s@) == "server"@.map_values(|c: char| c as u8) ==> r == Ok::<
            HostType,
            InvalidArgument,
        >(HostType::Server),
        seq_to_lower(s@) == "client"@.map_values(|c: char| c as u8) ==> r == Ok::<
            HostType,
            InvalidArgument,
        >(HostType::Client),
        seq_to_lower(s@) != "server"@.map_values(|c: char| c as u8) && seq_to_lower(s@)
            != "client"@.map_values(|c: char| c as u8) ==> r == Err::<HostType, InvalidArgument>(
            InvalidArgument,
        ),
{
    let server_kw: [u8; 6] = [115, 101, 114, 118, 101, 114];
    let client_kw: [u8; 6] = [99, 108, 105, 101, 110, 116];
    proof {
        reveal_strlit("server");
        reveal_strlit("client");
        assert(server_kw@ =~= "server"@.map_values(|c: char| c as u8));
        assert(client_kw@ =~= "client"@.map_values(|c: char| c as u8));
    }
    if eq_ignore_ascii_case(s, server_kw.as_slice()) {
        Ok(HostType::Server)
    } else if eq_ignore_ascii_case(s, client_kw.as_slice()) {
        Ok(HostType::Client)
    } else {
        Err(InvalidArgument)
    }
}

/// Reads a start-order keyword, without regard to letter case:
/// `first` or `second`; anything else is rejected.
pub fn start_order_from_bytes(s: &[u8]) -> (r: Result<StartOrder, InvalidArgument>)
    ensures
        seq_to_lower(s@) == "first"@.map_values(|c: char| c as u8) ==> r == Ok::<
            StartOrder,
            InvalidArgument,
        >(StartOrder::First),
        seq_to_lower(s@) == "second"@.map_values(|c: char| c as u8) ==> r == Ok::<
            StartOrder,
            InvalidArgument,
        >(StartOrder::Second),
        seq_to_lower(s@) != "first"@.map_values(|c: char| c as u8) && seq_to_lower(s@)
            != "second"@.map_values(|c: char| c as u8) ==> r == Err::<StartOrder, InvalidArgument>(
            InvalidArgument,
        ),
{
    let first_kw: [u8; 5] = [102, 105, 114, 115, 116];
    let second_kw: [u8; 6] = [115, 101, 99, 111, 110, 100];
    proof {
        reveal_strlit("first");
        reveal_strlit("second");
        assert(first_kw@ =~= "first"@.map_values(|c: char| c as u8));
        assert(second_kw@ =~= "second"@.map_values(|c: char| c as u8));
    }
    if eq_ignore_ascii_case(s, first_kw.as_slice()) {
        Ok(StartOrder::First)
    } else if eq_ignore_ascii_case(s, second_kw.as_slice()) {
        Ok(StartOrder::Second)
    } else {
        Err(InvalidArgument)
    }
}

/// A setup is playable only when a connector knows where to connect:
/// a `Client` must have both a port and a remote address; a `Server`
/// needs neither (it can pick a free port on a local address itself).
pub open spec fn argument_combination_ok(host_type: HostType, has_port: bool, has_ip_addr: bool) -> bool {
    match host_type {
        HostType::Server => true,
        HostType::Client => has_port && has_ip_addr,
    }
}

/// Accepts or rejects the combination of command-line values.
pub fn validate_argument_combination(host_type: HostType, has_port: bool, has_ip_addr: bool) -> (r:
    Result<(), InvalidArgument>)
    ensures
        r is Ok <==> argument_combination_ok(host_type, has_port, has_ip_addr),
{
    match host_type {
        HostType::Server => Ok(()),
        HostType::Client => {
            if has_port && has_ip_addr {
                Ok(())
            } else {
                Err(InvalidArgument)
            }
        },
    }
}

} // verus!

//! What the user-space stack backend decides without the stack: the
//! operations it does not support, which half of a stream a shutdown
//! closes, which buffer a vectored write sends, and the addresses that its
//! streams report.
use vstd::prelude::*;
use crate::ipv4::Ipv4Address;

verus! {

/// An operation that the user-space stack does not support.
#[derive(Clone, Copy, Debug, PartialEq, Eq, Structural)]
pub enum Unsupported {
    /// Reading or setting `IP_TTL`.
    Ttl,
    /// Shutting down the read half of a stream.
    ReadHalfShutdown,
    /// Peeking at incoming data.
    Peek,
}

impl Unsupported {
    /// The message reported with `ErrorKind::Unsupported`.
    pub fn message(&self) -> (r: &'static str)
        ensures
            r@ == match *self {
                Unsupported::Ttl => "IP_TTL is not supported by netstack backend yet"@,
                Unsupported::ReadHalfShutdown =>
                    "read-half shutdown is not supported by netstack backend yet"@,
                Unsupported::Peek => "peek is not supported by netstack backend yet"@,
            },
    {
        match self {
            Unsupported::Ttl => "IP_TTL is not supported by netstack backend yet",
            Unsupported::ReadHalfShutdown =>
                "read-half shutdown is not supported by netstack backend yet",
            Unsupported::Peek => "peek is not supported by netstack backend yet",
        }
    }
}

/// Which halves of a stream a shutdown closes.
#[derive(Clone, Copy, Debug, PartialEq, Eq, Structural)]
pub enum ShutdownHow {
    Read,
    Write,
    Both,
}

/// What a shutdown does on the user-space stack: `Ok` means that the write
/// half is shut down (for `Write` and for `Both`); shutting down the read
/// half alone is not supported.
pub fn shutdown_plan(how: ShutdownHow) -> (r: Result<(), Unsupported>)
    ensures
        r == match how {
            ShutdownHow::Read => Err::<(), Unsupported>(Unsupported::ReadHalfShutdown),
            ShutdownHow::Write | ShutdownHow::Both => Ok::<(), Unsupported>(()),
        },
{
    match how {
        ShutdownHow::Read => Err(Unsupported::ReadHalfShutdown),
        ShutdownHow::Write | ShutdownHow::Both => Ok(()),
    }
}

/// The buffer that a vectored write sends on the user-space stack, given
/// the buffers' lengths: the first non-empty one, or `None` when all are
/// empty (the write then reports 0 bytes).
pub fn vectored_write_target(lens: &[usize]) -> (r: Option<usize>)
    ensures
        r matches Some(i) ==> i < lens@.len() && lens@[i as int] > 0 && forall|j: int|
            0 <= j < i ==> lens@[j] == 0,
        r is None ==> forall|j: int| 0 <= j < lens@.len() ==> lens@[j] == 0,
{
    let mut i: usize = 0;
    while i < lens.len()
        invariant
            i <= lens@.len(),
            forall|j: int| 0 <= j < i ==> lens@[j] == 0,
        decreases lens@.len() - i,
    {
        if lens[i] > 0 {
            return Some(i);
        }
        i = i + 1;
    }
    None
}

/// An IP address.
#[derive(Clone, Copy, Debug, PartialEq, Eq)]
pub enum IpAddress {
    V4(Ipv4Address),
    V6 { segments: [u16; 8], flowinfo: u32, scope_id: u32 },
}

/// A socket address: an IP address and a port.
#[derive(Clone, Copy, Debug, PartialEq, Eq)]
pub struct SocketAddress {
    pub ip: IpAddress,
    pub port: u16,
}

/// The addresses a stream reports.
#[derive(Clone, Copy, Debug, PartialEq, Eq)]
pub struct StreamAddresses {
    pub local: SocketAddress,
    pub peer: SocketAddress,
}

/// The address reported where the user-space stack does not know it:
/// `0.0.0.0:0`.
pub open spec fn unspecified() -> SocketAddress {
    SocketAddress { ip: IpAddress::V4(Ipv4Address(0, 0, 0, 0)), port: 0 }
}

/// `0.0.0.0:0`.
pub fn unspecified_address() -> (r: SocketAddress)
    ensures
        r == unspecified(),
{
    SocketAddress { ip: IpAddress::V4(Ipv4Address(0, 0, 0, 0)), port: 0 }
}

/// The addresses of a stream accepted by a listener bound to
/// `listener_local`: the listener's address as its own, and the unspecified
/// address as its peer, which the stack does not report.
pub fn accepted_addresses(listener_local: SocketAddress) -> (r: StreamAddresses)
    ensures
        r == (StreamAddresses { local: listener_local, peer: unspecified() }),
{
    StreamAddresses { local: listener_local, peer: unspecified_address() }
}

/// The addresses of a stream connected to `target` from the stack at
/// `stack_ip`: the stack's address with port 0 as its own, and `target` as
/// its peer.
pub fn connected_addresses(stack_ip: Ipv4Address, target: SocketAddress) -> (r: StreamAddresses)
    ensures
        r == (StreamAddresses {
            local: SocketAddress { ip: IpAddress::V4(stack_ip), port: 0 },
            peer: target,
        }),
{
    StreamAddresses { local: SocketAddress { ip: IpAddress::V4(stack_ip), port: 0 }, peer: target }
}

} // verus!

use tcp_backend::ipv4::Ipv4Address;
use tcp_backend::netstack::{
    accepted_addresses, connected_addresses, shutdown_plan, unspecified_address,
    vectored_write_target, IpAddress, ShutdownHow, SocketAddress, Unsupported,
};

#[test]
fn shutdown_halves() {
    assert_eq!(shutdown_plan(ShutdownHow::Write), Ok(()));
    assert_eq!(shutdown_plan(ShutdownHow::Both), Ok(()));
    assert_eq!(shutdown_plan(ShutdownHow::Read), Err(Unsupported::ReadHalfShutdown));
}

#[test]
fn unsupported_messages() {
    assert_eq!(Unsupported::Ttl.message(), "IP_TTL is not supported by netstack backend yet");
    assert_eq!(
        Unsupported::ReadHalfShutdown.message(),
        "read-half shutdown is not supported by netstack backend yet"
    );
    assert_eq!(Unsupported::Peek.message(), "peek is not supported by netstack backend yet");
}

#[test]
fn vectored_write_picks_first_nonempty() {
    assert_eq!(vectored_write_target(&[0, 0, 5, 7]), Some(2));
    assert_eq!(vectored_write_target(&[3]), Some(0));
    assert_eq!(vectored_write_target(&[0, 0]), None);
    assert_eq!(vectored_write_target(&[]), None);
}

#[test]
fn accepted_stream_addresses() {
    let local = SocketAddress { ip: IpAddress::V4(Ipv4Address(10, 200, 0, 2)), port: 18080 };
    let a = accepted_addresses(local);
    assert_eq!(a.local, local);
    assert_eq!(a.peer, SocketAddress { ip: IpAddress::V4(Ipv4Address(0, 0, 0, 0)), port: 0 });
    assert_eq!(a.peer, unspecified_address());
}

#[test]
fn connected_stream_addresses() {
    let target = SocketAddress { ip: IpAddress::V4(Ipv4Address(10, 200, 0, 1)), port: 18082 };
    let a = connected_addresses(Ipv4Address(10, 200, 0, 2), target);
    assert_eq!(a.local, SocketAddress { ip: IpAddress::V4(Ipv4Address(10, 200, 0, 2)), port: 0 });
    assert_eq!(a.peer, target);
}

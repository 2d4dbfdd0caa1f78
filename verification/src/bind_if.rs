//! Binding a socket to a network interface.
//!
//! A socket is bound to an interface by setting one socket option whose
//! value is the interface's index. Which option, at which level, and in which
//! byte order the index is written depends on the platform and on the IP
//! version. This module decides all three; setting the option on the socket
//! is left to the caller.
use vstd::prelude::*;

verus! {

/// The platforms on which a socket can be bound to an interface.
pub enum Platform {
    /// macOS: the `IP_BOUND_IF` and `IPV6_BOUND_IF` options.
    MacOs,
    /// Windows: the `IP_UNICAST_IF` and `IPV6_UNICAST_IF` options.
    Windows,
}

/// The IP version of the socket.
pub enum IpVersion {
    V4,
    V6,
}

/// The option level of IPv4 options.
pub const IPPROTO_IP: i32 = 0;

/// The option level of IPv6 options.
pub const IPPROTO_IPV6: i32 = 41;

/// macOS: bind an IPv4 socket to an interface (`<netinet/in.h>`).
pub const IP_BOUND_IF: i32 = 25;

/// macOS: bind an IPv6 socket to an interface (`<netinet/in.h>`).
pub const IPV6_BOUND_IF: i32 = 125;

/// Windows: send IPv6 unicast traffic through an interface (`ws2ipdef.h`).
pub const IPV6_UNICAST_IF: i32 = 31;

/// Windows: send IPv4 unicast traffic through an interface; it has the same
/// value as its IPv6 counterpart.
pub const IP_UNICAST_IF: i32 = IPV6_UNICAST_IF;

/// A socket option to set: `setsockopt(socket, level, name, value, 4)`.
pub struct InterfaceOption {
    pub level: i32,
    pub name: i32,
    /// The option's value as it lies in memory.
    pub value: [u8; 4],
}

/// An operating system error, by its code.
pub struct OsError {
    pub code: i32,
}

/// The four bytes of `x`, most significant first (network byte order).
pub open spec fn be_bytes(x: u32) -> Seq<u8> {
    seq![
        (x / 0x100_0000) as u8,
        ((x / 0x1_0000) % 0x100) as u8,
        ((x / 0x100) % 0x100) as u8,
        (x % 0x100) as u8,
    ]
}

/// The four bytes of `x`, least significant first.
pub open spec fn le_bytes(x: u32) -> Seq<u8> {
    be_bytes(x).reverse()
}

/// The four bytes of `x` as the host lays out a `u32` in memory.
pub open spec fn host_bytes(x: u32, host_big_endian: bool) -> Seq<u8> {
    if host_big_endian {
        be_bytes(x)
    } else {
        le_bytes(x)
    }
}

/// The number that four bytes, most significant first, stand for.
pub open spec fn from_be_bytes(b: Seq<u8>) -> int {
    b[0] * 0x100_0000 + b[1] * 0x1_0000 + b[2] * 0x100 + b[3]
}

/// The number that four bytes stand for when the host reads them as a `u32`.
pub open spec fn from_host_bytes(b: Seq<u8>, host_big_endian: bool) -> int {
    if host_big_endian {
        from_be_bytes(b)
    } else {
        from_be_bytes(b.reverse())
    }
}

/// Whether the platform wants the interface index in network byte order for
/// sockets of the version; otherwise it wants it in host byte order. Only
/// Windows' IPv4 option wants network byte order: there the index is read
/// like an IPv4 address with leading zeros.
pub open spec fn wants_network_order(platform: Platform, version: IpVersion) -> bool {
    platform is Windows && version is V4
}

/// The option level for sockets of the version.
pub open spec fn option_level(version: IpVersion) -> i32 {
    match version {
        IpVersion::V4 => IPPROTO_IP,
        IpVersion::V6 => IPPROTO_IPV6,
    }
}

/// The option that binds sockets of the version on the platform.
pub open spec fn option_name(platform: Platform, version: IpVersion) -> i32 {
    match (platform, version) {
        (Platform::MacOs, IpVersion::V4) => IP_BOUND_IF,
        (Platform::MacOs, IpVersion::V6) => IPV6_BOUND_IF,
        (Platform::Windows, IpVersion::V4) => IP_UNICAST_IF,
        (Platform::Windows, IpVersion::V6) => IPV6_UNICAST_IF,
    }
}

/// The option value's bytes for the interface index.
pub open spec fn option_value(
    platform: Platform,
    version: IpVersion,
    if_index: u32,
    host_big_endian: bool,
) -> Seq<u8> {
    if wants_network_order(platform, version) {
        be_bytes(if_index)
    } else {
        host_bytes(if_index, host_big_endian)
    }
}

/// The bytes of `x`, most significant first.
fn u32_to_be_bytes(x: u32) -> (b: [u8; 4])
    ensures
        b@ == be_bytes(x),
{
    let b: [u8; 4] = [
        (x / 0x100_0000) as u8,
        ((x / 0x1_0000) % 0x100) as u8,
        ((x / 0x100) % 0x100) as u8,
        (x % 0x100) as u8,
    ];
    assert(b@ =~= be_bytes(x));
    b
}

/// The bytes of `x`, least significant first.
fn u32_to_le_bytes(x: u32) -> (b: [u8; 4])
    ensures
        b@ == le_bytes(x),
{
    let b: [u8; 4] = [
        (x % 0x100) as u8,
        ((x / 0x100) % 0x100) as u8,
        ((x / 0x1_0000) % 0x100) as u8,
        (x / 0x100_0000) as u8,
    ];
    assert(b@ =~= le_bytes(x));
    b
}

/// The socket option that binds a socket of the IP version to the interface
/// with index `bind_if` on the platform, for a host of the given byte order.
pub fn bind_if_option(platform: Platform, version: IpVersion, bind_if: u32, host_big_endian: bool) -> (opt: InterfaceOption)
    ensures
        opt.level == option_level(version),
        opt.name == option_name(platform, version),
        opt.value@ == option_value(platform, version, bind_if, host_big_endian),
{
    let level = match version {
        IpVersion::V4 => IPPROTO_IP,
        IpVersion::V6 => IPPROTO_IPV6,
    };
    let (name, network_order) = match (&platform, &version) {
        (Platform::MacOs, IpVersion::V4) => (IP_BOUND_IF, false),
        (Platform::MacOs, IpVersion::V6) => (IPV6_BOUND_IF, false),
        (Platform::Windows, IpVersion::V4) => (IP_UNICAST_IF, true),
        (Platform::Windows, IpVersion::V6) => (IPV6_UNICAST_IF, false),
    };
    let value = if network_order || host_big_endian {
        u32_to_be_bytes(bind_if)
    } else {
        u32_to_le_bytes(bind_if)
    };
    InterfaceOption { level, name, value }
}

/// The socket option that binds an IPv4 socket to the interface on the
/// platform.
pub fn bind_if4_option(platform: Platform, bind_if: u32, host_big_endian: bool) -> (opt: InterfaceOption)
    ensures
        opt.level == IPPROTO_IP,
        opt.name == option_name(platform, IpVersion::V4),
        opt.value@ == option_value(platform, IpVersion::V4, bind_if, host_big_endian),
{
    bind_if_option(platform, IpVersion::V4, bind_if, host_big_endian)
}

/// The socket option that binds an IPv6 socket to the interface on the
/// platform.
pub fn bind_if6_option(platform: Platform, bind_if: u32, host_big_endian: bool) -> (opt: InterfaceOption)
    ensures
        opt.level == IPPROTO_IPV6,
        opt.name == option_name(platform, IpVersion::V6),
        opt.value@ == host_bytes(bind_if, host_big_endian),
{
    bind_if_option(platform, IpVersion::V6, bind_if, host_big_endian)
}

/// What setting the option amounts to: success when the call returned 0,
/// else the operating system's last error.
pub fn bind_result(ret: i32, last_error: i32) -> (r: Result<(), OsError>)
    ensures
        r is Ok <==> ret == 0,
        r matches Err(e) ==> e.code == last_error,
{
    if ret == 0 {
        Ok(())
    } else {
        Err(OsError { code: last_error })
    }
}

/// Read back in the byte order that the platform wants, the option value
/// is the interface index: the platform binds the interface that was asked
/// for, whatever the host's byte order. Windows reads the IPv4 index in
/// network byte order, the same bytes on every host; the other options are
/// read in host byte order.
pub proof fn law_option_value_reads_back(
    platform: Platform,
    version: IpVersion,
    if_index: u32,
    host_big_endian: bool,
)
    ensures
        (platform is Windows && version is V4) ==> from_be_bytes(
            option_value(platform, version, if_index, host_big_endian),
        ) == if_index,
        (platform is Windows && version is V4) ==> option_value(
            platform,
            version,
            if_index,
            host_big_endian,
        ) == option_value(platform, version, if_index, !host_big_endian),
        !(platform is Windows && version is V4) ==> from_host_bytes(
            option_value(platform, version, if_index, host_big_endian),
            host_big_endian,
        ) == if_index,
{
    let b = be_bytes(if_index);
    assert(b.reverse().reverse() =~= b);
    let x = if_index as int;
    assert(from_be_bytes(b) == x) by (nonlinear_arith)
        requires
            b[0] == x / 0x100_0000,
            b[1] == (x / 0x1_0000) % 0x100,
            b[2] == (x / 0x100) % 0x100,
            b[3] == x % 0x100,
            0 <= x < 0x1_0000_0000,
    ;
}


/// The option that binds an interface, by its numbers: on macOS `IP_BOUND_IF`
/// (25) at level `IPPROTO_IP` (0) for IPv4 and `IPV6_BOUND_IF` (125) at level
/// `IPPROTO_IPV6` (41) for IPv6; on Windows `IP_UNICAST_IF`, which has the
/// value of `IPV6_UNICAST_IF` (31), at the same levels.
pub proof fn law_bind_if_option_numbers(platform: Platform, version: IpVersion)
    ensures
        option_level(version) == (if version is V4 {
            0i32
        } else {
            41i32
        }),
        option_name(platform, version) == (match (platform, version) {
            (Platform::MacOs, IpVersion::V4) => 25i32,
            (Platform::MacOs, IpVersion::V6) => 125i32,
            (Platform::Windows, _) => 31i32,
        }),
{
}

} // verus!

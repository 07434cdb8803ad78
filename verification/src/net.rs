use vstd::prelude::*;

verus! {

/// An IP address: four octets, or eight 16-bit segments, most significant first.
#[derive(Clone, Copy, Debug, PartialEq, Eq, Structural)]
pub enum IpAddress {
    V4(u8, u8, u8, u8),
    V6(u16, u16, u16, u16, u16, u16, u16, u16),
}

/// An IP address and a port. An IPv6 socket address also carries its flow
/// label and scope id; an IPv4 one has both zero.
#[derive(Clone, Copy, Debug, PartialEq, Eq, Structural)]
pub struct SocketAddress {
    pub ip: IpAddress,
    pub port: u16,
    pub flowinfo: u32,
    pub scope_id: u32,
}

impl IpAddress {
    /// `0.0.0.0` or `::`.
    pub open spec fn spec_is_unspecified(self) -> bool {
        match self {
            IpAddress::V4(a, b, c, d) => a == 0 && b == 0 && c == 0 && d == 0,
            IpAddress::V6(s0, s1, s2, s3, s4, s5, s6, s7) => s0 == 0 && s1 == 0 && s2 == 0 && s3 == 0
                && s4 == 0 && s5 == 0 && s6 == 0 && s7 == 0,
        }
    }

    /// `127.0.0.0/8` or `::1`.
    pub open spec fn spec_is_loopback(self) -> bool {
        match self {
            IpAddress::V4(a, _, _, _) => a == 127,
            IpAddress::V6(s0, s1, s2, s3, s4, s5, s6, s7) => s0 == 0 && s1 == 0 && s2 == 0 && s3 == 0
                && s4 == 0 && s5 == 0 && s6 == 0 && s7 == 1,
        }
    }

    pub fn is_unspecified(&self) -> (r: bool)
        ensures
            r == self.spec_is_unspecified(),
    {
        match *self {
            IpAddress::V4(a, b, c, d) => a == 0 && b == 0 && c == 0 && d == 0,
            IpAddress::V6(s0, s1, s2, s3, s4, s5, s6, s7) => s0 == 0 && s1 == 0 && s2 == 0 && s3 == 0
                && s4 == 0 && s5 == 0 && s6 == 0 && s7 == 0,
        }
    }

    pub fn is_loopback(&self) -> (r: bool)
        ensures
            r == self.spec_is_loopback(),
    {
        match *self {
            IpAddress::V4(a, _, _, _) => a == 127,
            IpAddress::V6(s0, s1, s2, s3, s4, s5, s6, s7) => s0 == 0 && s1 == 0 && s2 == 0 && s3 == 0
                && s4 == 0 && s5 == 0 && s6 == 0 && s7 == 1,
        }
    }

    pub fn is_ipv4(&self) -> (r: bool)
        ensures
            r == (*self is V4),
    {
        match *self {
            IpAddress::V4(..) => true,
            IpAddress::V6(..) => false,
        }
    }
}

impl SocketAddress {
    /// The address with no flow label and no scope.
    pub fn new(ip: IpAddress, port: u16) -> (addr: SocketAddress)
        ensures
            addr.ip == ip,
            addr.port == port,
            addr.flowinfo == 0,
            addr.scope_id == 0,
    {
        SocketAddress { ip, port, flowinfo: 0, scope_id: 0 }
    }

    /// A peer address that can be dialled: a nonzero port and a specified IP.
    pub open spec fn spec_is_dialable(self) -> bool {
        self.port != 0 && !self.ip.spec_is_unspecified()
    }

    pub fn is_dialable(&self) -> (r: bool)
        ensures
            r == self.spec_is_dialable(),
    {
        self.port != 0 && !self.ip.is_unspecified()
    }
}

/// An IPv4 address that may be gossiped to other peers: none of the
/// unspecified, loopback, private, link-local, broadcast, multicast or
/// documentation addresses, nor `0.0.0.0/8`, the shared space
/// `100.64.0.0/10`, the benchmarking space `198.18.0.0/15` or `240.0.0.0/4`.
pub open spec fn spec_is_public_ipv4(a: u8, b: u8, c: u8, d: u8) -> bool {
    !((a == 0 && b == 0 && c == 0 && d == 0)
        || a == 127
        || a == 10
        || (a == 172 && 16 <= b <= 31)
        || (a == 192 && b == 168)
        || (a == 169 && b == 254)
        || (a == 255 && b == 255 && c == 255 && d == 255)
        || (224 <= a <= 239)
        || (a == 192 && b == 0 && c == 2)
        || (a == 198 && b == 51 && c == 100)
        || (a == 203 && b == 0 && c == 113)
        || a == 0
        || (a == 100 && 64 <= b <= 127)
        || (a == 198 && 18 <= b <= 19)
        || a >= 240)
}

/// An IPv6 address that may be gossiped to other peers: none of `::`,
/// `::1`, multicast `ff00::/8`, unique local `fc00::/7`, link-local
/// `fe80::/10` or documentation `2001:db8::/32`.
pub open spec fn spec_is_public_ipv6(s0: u16, s1: u16, s2: u16, s3: u16, s4: u16, s5: u16, s6: u16, s7: u16) -> bool {
    !((s0 == 0 && s1 == 0 && s2 == 0 && s3 == 0 && s4 == 0 && s5 == 0 && s6 == 0 && s7 == 0)
        || (s0 == 0 && s1 == 0 && s2 == 0 && s3 == 0 && s4 == 0 && s5 == 0 && s6 == 0 && s7 == 1)
        || s0 >= 0xff00
        || (0xfc00 <= s0 <= 0xfdff)
        || (0xfe80 <= s0 <= 0xfebf)
        || (s0 == 0x2001 && s1 == 0x0db8))
}

impl SocketAddress {
    /// A peer address learned by peer exchange that is worth dialling: a
    /// nonzero port and a publicly routable address.
    pub open spec fn spec_is_public_pex_endpoint(self) -> bool {
        self.port != 0 && match self.ip {
            IpAddress::V4(a, b, c, d) => spec_is_public_ipv4(a, b, c, d),
            IpAddress::V6(s0, s1, s2, s3, s4, s5, s6, s7) => spec_is_public_ipv6(s0, s1, s2, s3, s4, s5, s6, s7),
        }
    }
}

/// Whether a peer-exchange contact is worth dialling.
pub fn is_public_pex_endpoint(endpoint: SocketAddress) -> (public: bool)
    ensures
        public == endpoint.spec_is_public_pex_endpoint(),
{
    if endpoint.port == 0 {
        return false;
    }
    match endpoint.ip {
        IpAddress::V4(a, b, c, d) => !((a == 0 && b == 0 && c == 0 && d == 0)
            || a == 127
            || a == 10
            || (a == 172 && 16 <= b && b <= 31)
            || (a == 192 && b == 168)
            || (a == 169 && b == 254)
            || (a == 255 && b == 255 && c == 255 && d == 255)
            || (224 <= a && a <= 239)
            || (a == 192 && b == 0 && c == 2)
            || (a == 198 && b == 51 && c == 100)
            || (a == 203 && b == 0 && c == 113)
            || a == 0
            || (a == 100 && 64 <= b && b <= 127)
            || (a == 198 && 18 <= b && b <= 19)
            || a >= 240),
        IpAddress::V6(s0, s1, s2, s3, s4, s5, s6, s7) => !((s0 == 0 && s1 == 0 && s2 == 0 && s3 == 0
            && s4 == 0 && s5 == 0 && s6 == 0 && s7 == 0)
            || (s0 == 0 && s1 == 0 && s2 == 0 && s3 == 0 && s4 == 0 && s5 == 0 && s6 == 0 && s7 == 1)
            || s0 >= 0xff00
            || (0xfc00 <= s0 && s0 <= 0xfdff)
            || (0xfe80 <= s0 && s0 <= 0xfebf)
            || (s0 == 0x2001 && s1 == 0x0db8)),
    }
}

} // verus!

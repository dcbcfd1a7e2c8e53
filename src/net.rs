use vstd::prelude::*;

use crate::types::Config;

verus! {

/// A destination address; IPv4 as its 32-bit big-endian value.
#[derive(Clone, Copy, Debug, PartialEq, Eq, Structural)]
pub enum IpAddress {
    V4(u32),
    V6(u128),
}

/// An IPv4 network given by its first address and prefix length.
#[derive(Clone, Copy, Debug, PartialEq, Eq, Structural)]
pub struct Ipv4Block {
    pub base: u32,
    pub prefix: u32,
}

/// Number of addresses covered by `host_bits` free bits.
pub open spec fn span(host_bits: nat) -> nat
    decreases host_bits,
{
    if host_bits == 0 {
        1
    } else {
        2 * span((host_bits - 1) as nat)
    }
}

pub open spec fn ipv4(a: u8, b: u8, c: u8, d: u8) -> u32 {
    (a * 16777216 + b * 65536 + c * 256 + d) as u32
}

impl Ipv4Block {
    pub open spec fn wf(&self) -> bool {
        self.prefix <= 32
    }

    /// The addresses of the block form the range starting at `base`.
    pub open spec fn holds(&self, addr: u32) -> bool {
        self.base <= addr && addr < self.base + span((32 - self.prefix) as nat)
    }

    pub fn contains(&self, addr: u32) -> (r: bool)
        requires
            self.wf(),
        ensures
            r == self.holds(addr),
    {
        let host_bits = 32 - self.prefix;
        let mut size: u64 = 1;
        let mut k: u32 = 0;
        while k < host_bits
            invariant
                host_bits <= 32,
                k <= host_bits,
                size == span(k as nat),
                size <= 4294967296,
            decreases host_bits - k,
        {
            proof {
                lemma_span_bound(k as nat + 1);
            }
            size = size * 2;
            k += 1;
        }
        (self.base as u64) <= (addr as u64) && (addr as u64) < (self.base as u64) + size
    }
}

proof fn lemma_span_bound(k: nat)
    requires
        k <= 32,
    ensures
        1 <= span(k) <= 4294967296,
    decreases 32 - k,
{
    if k == 32 {
        reveal_with_fuel(span, 33);
    } else {
        lemma_span_bound(k + 1);
        assert(span(k + 1) == 2 * span(k));
        lemma_span_positive(k);
    }
}

proof fn lemma_span_positive(k: nat)
    ensures
        1 <= span(k),
    decreases k,
{
    if k > 0 {
        lemma_span_positive((k - 1) as nat);
    }
}

/// The reserved and private-use IPv4 networks: this network, private-use,
/// shared address space, loopback, link-local, IETF protocol assignments,
/// documentation, 6to4 relay, benchmarking, multicast, future use and the
/// limited broadcast address.
pub open spec fn reserved_spec() -> Seq<Ipv4Block> {
    seq![
        Ipv4Block { base: ipv4(0, 0, 0, 0), prefix: 8 },
        Ipv4Block { base: ipv4(10, 0, 0, 0), prefix: 8 },
        Ipv4Block { base: ipv4(100, 64, 0, 0), prefix: 10 },
        Ipv4Block { base: ipv4(127, 0, 0, 0), prefix: 8 },
        Ipv4Block { base: ipv4(169, 254, 0, 0), prefix: 16 },
        Ipv4Block { base: ipv4(172, 16, 0, 0), prefix: 12 },
        Ipv4Block { base: ipv4(192, 0, 0, 0), prefix: 29 },
        Ipv4Block { base: ipv4(192, 0, 2, 0), prefix: 24 },
        Ipv4Block { base: ipv4(192, 88, 99, 0), prefix: 24 },
        Ipv4Block { base: ipv4(192, 168, 0, 0), prefix: 16 },
        Ipv4Block { base: ipv4(198, 18, 0, 0), prefix: 15 },
        Ipv4Block { base: ipv4(198, 51, 100, 0), prefix: 24 },
        Ipv4Block { base: ipv4(224, 0, 0, 0), prefix: 4 },
        Ipv4Block { base: ipv4(240, 0, 0, 0), prefix: 4 },
        Ipv4Block { base: ipv4(255, 255, 255, 255), prefix: 32 },
    ]
}

pub open spec fn is_reserved_spec(addr: u32) -> bool {
    exists|i: int| 0 <= i < reserved_spec().len() && #[trigger] reserved_spec()[i].holds(addr)
}

/// IPv6 is never external: the table covers IPv4 only.
pub open spec fn is_external_spec(ip: IpAddress) -> bool {
    match ip {
        IpAddress::V4(a) => !is_reserved_spec(a),
        IpAddress::V6(_) => false,
    }
}

/// Whether clients built under `config` with this trust level filter their
/// destinations.
pub open spec fn filtered_spec(config: Config, trusted: bool) -> bool {
    !(trusted || config.connect_to_reserved_ips)
}

pub open spec fn permitted_spec(config: Config, trusted: bool, ip: IpAddress) -> bool {
    !filtered_spec(config, trusted) || is_external_spec(ip)
}

/// The reserved networks as a table.
pub fn reserved_blocks() -> (r: Vec<Ipv4Block>)
    ensures
        r@ == reserved_spec(),
        forall|i: int| 0 <= i < r@.len() ==> #[trigger] r@[i].wf(),
{
    let r = vec![
        Ipv4Block { base: 0x0000_0000, prefix: 8 },
        Ipv4Block { base: 0x0A00_0000, prefix: 8 },
        Ipv4Block { base: 0x6440_0000, prefix: 10 },
        Ipv4Block { base: 0x7F00_0000, prefix: 8 },
        Ipv4Block { base: 0xA9FE_0000, prefix: 16 },
        Ipv4Block { base: 0xAC10_0000, prefix: 12 },
        Ipv4Block { base: 0xC000_0000, prefix: 29 },
        Ipv4Block { base: 0xC000_0200, prefix: 24 },
        Ipv4Block { base: 0xC058_6300, prefix: 24 },
        Ipv4Block { base: 0xC0A8_0000, prefix: 16 },
        Ipv4Block { base: 0xC612_0000, prefix: 15 },
        Ipv4Block { base: 0xC633_6400, prefix: 24 },
        Ipv4Block { base: 0xE000_0000, prefix: 4 },
        Ipv4Block { base: 0xF000_0000, prefix: 4 },
        Ipv4Block { base: 0xFFFF_FFFF, prefix: 32 },
    ];
    assert(r@ =~= reserved_spec());
    r
}

/// Whether `addr` lies in a reserved network.
pub fn is_reserved(addr: u32) -> (r: bool)
    ensures
        r == is_reserved_spec(addr),
{
    let blocks = reserved_blocks();
    let mut i: usize = 0;
    while i < blocks.len()
        invariant
            blocks@ == reserved_spec(),
            i <= blocks@.len(),
            forall|j: int| 0 <= j < i ==> !(#[trigger] reserved_spec()[j]).holds(addr),
        decreases blocks@.len() - i,
    {
        assert(blocks@[i as int] == reserved_spec()[i as int]);
        if blocks[i].contains(addr) {
            return true;
        }
        i += 1;
    }
    false
}

/// Whether an untrusted client may connect to `ip`.
pub fn is_external_ip(ip: IpAddress) -> (r: bool)
    ensures
        r == is_external_spec(ip),
{
    match ip {
        IpAddress::V4(a) => !is_reserved(a),
        IpAddress::V6(_) => false,
    }
}

/// Whether a client built under `config` checks each destination.
pub fn uses_ip_filter(config: &Config, trusted: bool) -> (r: bool)
    ensures
        r == filtered_spec(*config, trusted),
{
    !(trusted || config.connect_to_reserved_ips)
}

/// Whether a client built under `config` may open a connection to `ip`.
pub fn connection_permitted(config: &Config, trusted: bool, ip: IpAddress) -> (r: bool)
    ensures
        r == permitted_spec(*config, trusted, ip),
{
    !uses_ip_filter(config, trusted) || is_external_ip(ip)
}

/// Connections of an untrusted client to loopback (127.0.0.0/8) and to the
/// private networks 10.0.0.0/8 and 192.168.0.0/16 are refused; a trusted
/// client, or one configured to allow reserved ranges, makes them.
pub proof fn lemma_reserved_destinations_refused(config: Config, trusted: bool, addr: u32)
    requires
        ipv4(127, 0, 0, 0) <= addr <= ipv4(127, 255, 255, 255) || ipv4(10, 0, 0, 0) <= addr
            <= ipv4(10, 255, 255, 255) || ipv4(192, 168, 0, 0) <= addr <= ipv4(192, 168, 255, 255),
    ensures
        !config.connect_to_reserved_ips ==> !permitted_spec(config, false, IpAddress::V4(addr)),
        permitted_spec(config, true, IpAddress::V4(addr)),
        config.connect_to_reserved_ips ==> permitted_spec(config, trusted, IpAddress::V4(addr)),
{
    reveal_with_fuel(span, 25);
    let t = reserved_spec();
    if ipv4(127, 0, 0, 0) <= addr <= ipv4(127, 255, 255, 255) {
        assert(t[3].holds(addr));
    } else if ipv4(10, 0, 0, 0) <= addr <= ipv4(10, 255, 255, 255) {
        assert(t[1].holds(addr));
    } else {
        assert(t[9].holds(addr));
    }
}

} // verus!

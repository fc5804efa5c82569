//! Network locations and masks: a location is a host (IP address or DNS
//! name) with a port; a mask is a CIDR-style address prefix with an
//! optional port, used by routing rules to match target locations.

use vstd::prelude::*;
use vstd::string::{StrSliceExecFns, StringExecFns};

use crate::clone_util::DeepClone;
use crate::groups::ConfigError;
use crate::numfmt::{
    all_dec_digits, all_hex_digits, dec_group_ok, dec_repr, dec_value, hex_group_ok, hex_repr4,
    hex_value, is_dec_digit, is_hex_digit, lemma_dec_repr_digits, lemma_dec_roundtrip,
    lemma_hex4_roundtrip, parse_dec_range, parse_hex_range,
};

verus! {

/// The first position of a character at or after `from`, or the
/// sequence's length when it does not occur there.
pub open spec fn find_char(s: Seq<char>, c: char, from: int) -> int
    decreases s.len() - from,
{
    if from < 0 || from >= s.len() {
        s.len() as int
    } else if s[from] == c {
        from
    } else {
        find_char(s, c, from + 1)
    }
}

/// Where `find_char` lands: at or after `from`, at the character if
/// inside the sequence, with no earlier occurrence.
pub proof fn lemma_find_char_props(s: Seq<char>, c: char, from: int)
    requires
        0 <= from <= s.len(),
    ensures
        from <= find_char(s, c, from) <= s.len(),
        find_char(s, c, from) < s.len() ==> s[find_char(s, c, from)] == c,
        forall|j: int| from <= j < find_char(s, c, from) ==> s[j] != c,
    decreases s.len() - from,
{
    if from < s.len() && s[from] != c {
        lemma_find_char_props(s, c, from + 1);
    }
}

/// `find_char` lands exactly on the first occurrence.
pub proof fn lemma_find_char_at(s: Seq<char>, c: char, from: int, k: int)
    requires
        0 <= from <= k < s.len(),
        s[k] == c,
        forall|j: int| from <= j < k ==> s[j] != c,
    ensures
        find_char(s, c, from) == k,
    decreases k - from,
{
    if from < k {
        lemma_find_char_at(s, c, from + 1, k);
    }
}

/// Without an occurrence, `find_char` lands on the length.
pub proof fn lemma_find_char_none(s: Seq<char>, c: char, from: int)
    requires
        0 <= from <= s.len(),
        forall|j: int| from <= j < s.len() ==> s[j] != c,
    ensures
        find_char(s, c, from) == s.len(),
    decreases s.len() - from,
{
    if from < s.len() {
        lemma_find_char_none(s, c, from + 1);
    }
}

/// A host: a literal IPv4 or IPv6 address, or a DNS name.
#[derive(Debug, Clone)]
pub enum Address {
    Ipv4(u32),
    Ipv6(u128),
    Hostname(String),
}

/// Mathematical model of an [`Address`].
#[verifier::ext_equal]
pub enum AddressV {
    Ipv4(u32),
    Ipv6(u128),
    Hostname(Seq<char>),
}

impl DeepView for Address {
    type V = AddressV;

    open spec fn deep_view(&self) -> AddressV {
        match self {
            Address::Ipv4(a) => AddressV::Ipv4(*a),
            Address::Ipv6(a) => AddressV::Ipv6(*a),
            Address::Hostname(h) => AddressV::Hostname(h@),
        }
    }
}

impl DeepClone for Address {
    fn deep_clone(&self) -> (r: Self) {
        match self {
            Address::Ipv4(a) => Address::Ipv4(*a),
            Address::Ipv6(a) => Address::Ipv6(*a),
            Address::Hostname(h) => Address::Hostname(h.clone()),
        }
    }
}

/// A target or bind endpoint: a host together with a 16-bit port.
#[derive(Debug, Clone)]
pub struct NetLocation {
    pub address: Address,
    pub port: u16,
}

/// Mathematical model of a [`NetLocation`].
#[verifier::ext_equal]
pub struct NetLocationV {
    pub address: AddressV,
    pub port: u16,
}

impl DeepView for NetLocation {
    type V = NetLocationV;

    open spec fn deep_view(&self) -> NetLocationV {
        NetLocationV { address: self.address.deep_view(), port: self.port }
    }
}

impl DeepClone for NetLocation {
    fn deep_clone(&self) -> (r: Self) {
        NetLocation { address: self.address.deep_clone(), port: self.port }
    }
}

impl NetLocationV {
    /// The sentinel "0.0.0.0:0", used as the default egress bind.
    pub open spec fn unspecified() -> NetLocationV {
        NetLocationV { address: AddressV::Ipv4(0), port: 0 }
    }
}

impl NetLocation {
    /// The sentinel "0.0.0.0:0", used as the default egress bind.
    pub fn unspecified() -> (r: NetLocation)
        ensures
            r.deep_view() == NetLocationV::unspecified(),
    {
        NetLocation { address: Address::Ipv4(0), port: 0 }
    }
}

/// The address part of a mask: a wildcard, or an IPv4/IPv6 prefix with
/// its length in bits.
#[derive(Debug, Clone, Copy, PartialEq, Eq, Structural)]
pub enum MaskAddress {
    Any,
    V4(u32, u8),
    V6(u128, u8),
}

/// A location mask: an address prefix and a port, where port 0 means
/// "any port". The wildcard mask matches every location.
#[derive(Debug, Clone, Copy, PartialEq, Eq, Structural)]
pub struct NetLocationMask {
    pub address: MaskAddress,
    pub port: u16,
}

impl DeepView for NetLocationMask {
    type V = NetLocationMask;

    open spec fn deep_view(&self) -> NetLocationMask {
        *self
    }
}

impl DeepClone for NetLocationMask {
    fn deep_clone(&self) -> (r: Self) {
        *self
    }
}

/// True when the top `len` bits of `a` and `p` agree (`len <= 32`).
pub open spec fn spec_prefix4_matches(a: u32, p: u32, len: u8) -> bool {
    (a as u64) >> ((32 - len) as u64) == (p as u64) >> ((32 - len) as u64)
}

/// True when the top `len` bits of `a` and `p` agree (`len <= 128`).
pub open spec fn spec_prefix6_matches(a: u128, p: u128, len: u8) -> bool {
    if len == 0 {
        true
    } else {
        a >> ((128 - len) as u128) == p >> ((128 - len) as u128)
    }
}

impl NetLocationMask {
    /// Well-formed: prefix lengths fit the address family, and the
    /// wildcard carries no port of its own.
    pub open spec fn wf(self) -> bool {
        match self.address {
            MaskAddress::Any => self.port == 0,
            MaskAddress::V4(_, len) => len <= 32,
            MaskAddress::V6(_, len) => len <= 128,
        }
    }

    /// The wildcard mask, matching every location.
    pub open spec fn spec_any() -> NetLocationMask {
        NetLocationMask { address: MaskAddress::Any, port: 0 }
    }

    /// The wildcard mask, matching every location.
    pub fn any() -> (r: NetLocationMask)
        ensures
            r == NetLocationMask::spec_any(),
    {
        NetLocationMask { address: MaskAddress::Any, port: 0 }
    }

    /// What [`NetLocationMask::matches`] returns: the port matches
    /// exactly (or the mask's port is 0), and the location's address
    /// falls under the mask's prefix. DNS-name locations match only the
    /// wildcard.
    pub open spec fn spec_matches(self, location: NetLocationV) -> bool {
        &&& (self.port == 0 || self.port == location.port)
        &&& match self.address {
            MaskAddress::Any => true,
            MaskAddress::V4(p, len) => match location.address {
                AddressV::Ipv4(a) => spec_prefix4_matches(a, p, len),
                _ => false,
            },
            MaskAddress::V6(p, len) => match location.address {
                AddressV::Ipv6(a) => spec_prefix6_matches(a, p, len),
                _ => false,
            },
        }
    }

    /// Whether a location falls under this mask.
    pub fn matches(&self, location: &NetLocation) -> (r: bool)
        requires
            self.wf(),
        ensures
            r == self.spec_matches(location.deep_view()),
    {
        let port_ok = self.port == 0 || self.port == location.port;
        if !port_ok {
            return false;
        }
        match self.address {
            MaskAddress::Any => true,
            MaskAddress::V4(p, len) => match &location.address {
                Address::Ipv4(a) => {
                    let shift: u64 = (32 - len) as u64;
                    ((*a as u64) >> shift) == ((p as u64) >> shift)
                },
                _ => false,
            },
            MaskAddress::V6(p, len) => match &location.address {
                Address::Ipv6(a) => {
                    if len == 0 {
                        true
                    } else {
                        let shift: u128 = (128 - len) as u128;
                        (*a >> shift) == (p >> shift)
                    }
                },
                _ => false,
            },
        }
    }
}

/// A character a DNS name may hold: a letter, a digit, or one of
/// `-` `.` `_`.
pub open spec fn is_hostname_char(c: char) -> bool {
    ||| is_dec_digit(c)
    ||| 65 <= c as u32 <= 90
    ||| 97 <= c as u32 <= 122
    ||| c == '-'
    ||| c == '.'
    ||| c == '_'
}

/// A usable DNS name: non-empty, hostname characters only.
pub open spec fn valid_hostname(s: Seq<char>) -> bool {
    s.len() >= 1 && forall|i: int| 0 <= i < s.len() ==> is_hostname_char(s[i])
}

/// A usable dotted-quad octet: one to three digits, value at most 255.
pub open spec fn octet_ok(p: Seq<char>) -> bool {
    dec_group_ok(p, 3) && dec_value(p) <= 255
}

/// Reads a dotted-quad IPv4 address: four octets separated by dots.
pub open spec fn parse_ipv4(s: Seq<char>) -> Option<int> {
    let i1 = find_char(s, '.', 0);
    let i2 = find_char(s, '.', i1 + 1);
    let i3 = find_char(s, '.', i2 + 1);
    if i3 >= s.len() {
        Option::None
    } else if find_char(s, '.', i3 + 1) != s.len() {
        Option::None
    } else {
        let p1 = s.subrange(0, i1);
        let p2 = s.subrange(i1 + 1, i2);
        let p3 = s.subrange(i2 + 1, i3);
        let p4 = s.subrange(i3 + 1, s.len() as int);
        if octet_ok(p1) && octet_ok(p2) && octet_ok(p3) && octet_ok(p4) {
            Option::Some(
                dec_value(p1) * 16777216 + dec_value(p2) * 65536 + dec_value(p3) * 256 + dec_value(
                    p4,
                ),
            )
        } else {
            Option::None
        }
    }
}

/// The dotted-quad form of an IPv4 address.
pub open spec fn ipv4_repr(a: int) -> Seq<char> {
    dec_repr(a / 16777216) + seq!['.'] + dec_repr(a / 65536 % 256) + seq!['.'] + dec_repr(
        a / 256 % 256,
    ) + seq!['.'] + dec_repr(a % 256)
}

/// One sixteen-bit group of an IPv6 address, leftmost first.
pub open spec fn v6_group(a: int, k: int) -> int {
    if k == 0 {
        a / 0x1_0000_0000_0000_0000_0000_0000_0000 % 65536
    } else if k == 1 {
        a / 0x1_0000_0000_0000_0000_0000_0000 % 65536
    } else if k == 2 {
        a / 0x1_0000_0000_0000_0000_0000 % 65536
    } else if k == 3 {
        a / 0x1_0000_0000_0000_0000 % 65536
    } else if k == 4 {
        a / 0x1_0000_0000_0000 % 65536
    } else if k == 5 {
        a / 0x1_0000_0000 % 65536
    } else if k == 6 {
        a / 0x1_0000 % 65536
    } else {
        a % 65536
    }
}

/// The fixed-width form of an IPv6 address: eight four-digit
/// hexadecimal groups separated by colons.
pub open spec fn ipv6_repr(a: int) -> Seq<char> {
    hex_repr4(v6_group(a, 0)) + seq![':'] + hex_repr4(v6_group(a, 1)) + seq![':'] + hex_repr4(
        v6_group(a, 2),
    ) + seq![':'] + hex_repr4(v6_group(a, 3)) + seq![':'] + hex_repr4(v6_group(a, 4)) + seq![':']
        + hex_repr4(v6_group(a, 5)) + seq![':'] + hex_repr4(v6_group(a, 6)) + seq![':'] + hex_repr4(
        v6_group(a, 7),
    )
}

/// Reads the fixed-width IPv6 form: exactly eight four-digit
/// hexadecimal groups separated by colons.
pub open spec fn parse_ipv6(s: Seq<char>) -> Option<int> {
    if s.len() != 39 {
        Option::None
    } else if !(s[4] == ':' && s[9] == ':' && s[14] == ':' && s[19] == ':' && s[24] == ':' && s[29]
        == ':' && s[34] == ':') {
        Option::None
    } else if all_hex_digits(s.subrange(0, 4)) && all_hex_digits(s.subrange(5, 9))
        && all_hex_digits(s.subrange(10, 14)) && all_hex_digits(s.subrange(15, 19))
        && all_hex_digits(s.subrange(20, 24)) && all_hex_digits(s.subrange(25, 29))
        && all_hex_digits(s.subrange(30, 34)) && all_hex_digits(s.subrange(35, 39)) {
        Option::Some(
            hex_value(s.subrange(0, 4)) * 0x1_0000_0000_0000_0000_0000_0000_0000 + hex_value(
                s.subrange(5, 9),
            ) * 0x1_0000_0000_0000_0000_0000_0000 + hex_value(s.subrange(10, 14))
                * 0x1_0000_0000_0000_0000_0000 + hex_value(s.subrange(15, 19))
                * 0x1_0000_0000_0000_0000 + hex_value(s.subrange(20, 24)) * 0x1_0000_0000_0000
                + hex_value(s.subrange(25, 29)) * 0x1_0000_0000 + hex_value(s.subrange(30, 34))
                * 0x1_0000 + hex_value(s.subrange(35, 39)),
        )
    } else {
        Option::None
    }
}

/// Reads a host: a dotted-quad IPv4 address, else a DNS name.
pub open spec fn parse_host(s: Seq<char>) -> Option<AddressV> {
    if parse_ipv4(s) is Some {
        Option::Some(AddressV::Ipv4(parse_ipv4(s)->Some_0 as u32))
    } else if valid_hostname(s) {
        Option::Some(AddressV::Hostname(s))
    } else {
        Option::None
    }
}

/// Reads a port: one to five digits, value at most 65535.
pub open spec fn parse_port_value(s: Seq<char>) -> Option<int> {
    if dec_group_ok(s, 5) && dec_value(s) <= 65535 {
        Option::Some(dec_value(s))
    } else {
        Option::None
    }
}

/// Reads what follows a host: nothing (the default port applies, when
/// there is one), or a colon and a port.
pub open spec fn parse_port_suffix(s: Seq<char>, default_port: Option<u16>) -> Option<int> {
    if s.len() == 0 {
        match default_port {
            Option::Some(p) => Option::Some(p as int),
            Option::None => Option::None,
        }
    } else if s[0] == ':' {
        parse_port_value(s.subrange(1, s.len() as int))
    } else {
        Option::None
    }
}

/// Reads a location: a bracketed IPv6 address, an IPv4 address, or a
/// DNS name, each followed by an optional `:port`.
pub open spec fn parse_location(s: Seq<char>, default_port: Option<u16>) -> Option<NetLocationV> {
    if s.len() == 0 {
        Option::None
    } else if s[0] == '[' {
        if s.len() < 41 || s[40] != ']' {
            Option::None
        } else {
            match parse_ipv6(s.subrange(1, 40)) {
                Option::None => Option::None,
                Option::Some(a) => match parse_port_suffix(
                    s.subrange(41, s.len() as int),
                    default_port,
                ) {
                    Option::None => Option::None,
                    Option::Some(p) => Option::Some(
                        NetLocationV { address: AddressV::Ipv6(a as u128), port: p as u16 },
                    ),
                },
            }
        }
    } else {
        let c1 = find_char(s, ':', 0);
        if c1 == s.len() {
            match default_port {
                Option::None => Option::None,
                Option::Some(p) => match parse_host(s) {
                    Option::None => Option::None,
                    Option::Some(a) => Option::Some(NetLocationV { address: a, port: p }),
                },
            }
        } else if find_char(s, ':', c1 + 1) == s.len() {
            match parse_host(s.subrange(0, c1)) {
                Option::None => Option::None,
                Option::Some(a) => match parse_port_value(s.subrange(c1 + 1, s.len() as int)) {
                    Option::None => Option::None,
                    Option::Some(p) => Option::Some(
                        NetLocationV { address: a, port: p as u16 },
                    ),
                },
            }
        } else {
            Option::None
        }
    }
}

/// The textual form of a location: `host:port`, the host bracketed for
/// IPv6.
pub open spec fn location_repr(l: NetLocationV) -> Seq<char> {
    match l.address {
        AddressV::Ipv4(a) => ipv4_repr(a as int) + seq![':'] + dec_repr(l.port as int),
        AddressV::Ipv6(a) => seq!['['] + ipv6_repr(a as int) + seq![']'] + seq![':'] + dec_repr(
            l.port as int,
        ),
        AddressV::Hostname(h) => h + seq![':'] + dec_repr(l.port as int),
    }
}

/// Reads a prefix length and an optional `:port` after it.
pub open spec fn parse_prefix_port(s: Seq<char>, maxbits: int) -> Option<(int, int)> {
    let colon = find_char(s, ':', 0);
    let lenpart = s.subrange(0, colon);
    if !(dec_group_ok(lenpart, 3) && dec_value(lenpart) <= maxbits) {
        Option::None
    } else if colon == s.len() {
        Option::Some((dec_value(lenpart), 0))
    } else {
        match parse_port_value(s.subrange(colon + 1, s.len() as int)) {
            Option::None => Option::None,
            Option::Some(p) => Option::Some((dec_value(lenpart), p)),
        }
    }
}

/// Reads a mask: the wildcard `any`, or `address/prefix[:port]` with
/// the address bracketed for IPv6.
pub open spec fn parse_mask(s: Seq<char>) -> Option<NetLocationMask> {
    if s == seq!['a', 'n', 'y'] {
        Option::Some(NetLocationMask::spec_any())
    } else if s.len() > 0 && s[0] == '[' {
        if s.len() < 42 || s[40] != ']' || s[41] != '/' {
            Option::None
        } else {
            match parse_ipv6(s.subrange(1, 40)) {
                Option::None => Option::None,
                Option::Some(p) => match parse_prefix_port(s.subrange(42, s.len() as int), 128) {
                    Option::None => Option::None,
                    Option::Some(bp) => Option::Some(
                        NetLocationMask {
                            address: MaskAddress::V6(p as u128, bp.0 as u8),
                            port: bp.1 as u16,
                        },
                    ),
                },
            }
        }
    } else {
        let sl = find_char(s, '/', 0);
        if sl == s.len() {
            Option::None
        } else {
            match parse_ipv4(s.subrange(0, sl)) {
                Option::None => Option::None,
                Option::Some(p) => match parse_prefix_port(s.subrange(sl + 1, s.len() as int), 32) {
                    Option::None => Option::None,
                    Option::Some(bp) => Option::Some(
                        NetLocationMask {
                            address: MaskAddress::V4(p as u32, bp.0 as u8),
                            port: bp.1 as u16,
                        },
                    ),
                },
            }
        }
    }
}

/// The textual form of a mask's optional port.
pub open spec fn port_suffix_repr(port: u16) -> Seq<char> {
    if port == 0 {
        Seq::empty()
    } else {
        seq![':'] + dec_repr(port as int)
    }
}

/// The textual form of a mask: `any`, or `address/prefix[:port]`.
pub open spec fn mask_repr(m: NetLocationMask) -> Seq<char> {
    match m.address {
        MaskAddress::Any => seq!['a', 'n', 'y'],
        MaskAddress::V4(p, len) => ipv4_repr(p as int) + seq!['/'] + dec_repr(len as int)
            + port_suffix_repr(m.port),
        MaskAddress::V6(p, len) => seq!['['] + ipv6_repr(p as int) + seq![']'] + seq!['/']
            + dec_repr(len as int) + port_suffix_repr(m.port),
    }
}

/// The dotted-quad form of an IPv4 address consists of digits and
/// dots, starts with a digit, and parses back to the address.
#[verifier::rlimit(100)]
pub proof fn lemma_ipv4_roundtrip(a: u32)
    ensures
        parse_ipv4(ipv4_repr(a as int)) == Option::Some(a as int),
        forall|j: int|
            0 <= j < ipv4_repr(a as int).len() ==> is_dec_digit(#[trigger] ipv4_repr(a as int)[j])
                || ipv4_repr(a as int)[j] == '.',
        ipv4_repr(a as int).len() >= 1,
        is_dec_digit(ipv4_repr(a as int)[0]),
{
    let o1 = a as int / 16777216;
    let o2 = a as int / 65536 % 256;
    let o3 = a as int / 256 % 256;
    let o4 = a as int % 256;
    lemma_dec_repr_digits(o1);
    lemma_dec_repr_digits(o2);
    lemma_dec_repr_digits(o3);
    lemma_dec_repr_digits(o4);
    lemma_dec_roundtrip(o1);
    lemma_dec_roundtrip(o2);
    lemma_dec_roundtrip(o3);
    lemma_dec_roundtrip(o4);
    let d1 = dec_repr(o1);
    let d2 = dec_repr(o2);
    let d3 = dec_repr(o3);
    let d4 = dec_repr(o4);
    let s = ipv4_repr(a as int);
    let i1 = d1.len() as int;
    let i2 = i1 + 1 + d2.len();
    let i3 = i2 + 1 + d3.len();
    assert(s.subrange(0, i1) =~= d1);
    assert(s[i1] == '.');
    assert(s.subrange(i1 + 1, i2) =~= d2);
    assert(s[i2] == '.');
    assert(s.subrange(i2 + 1, i3) =~= d3);
    assert(s[i3] == '.');
    assert(s.subrange(i3 + 1, s.len() as int) =~= d4);
    lemma_find_char_at(s, '.', 0, i1);
    lemma_find_char_at(s, '.', i1 + 1, i2);
    lemma_find_char_at(s, '.', i2 + 1, i3);
    lemma_find_char_none(s, '.', i3 + 1);
    assert(a as int == o1 * 16777216 + o2 * 65536 + o3 * 256 + o4);
}

/// The fixed-width form of an IPv6 address is 39 characters of
/// hexadecimal digits and colons and parses back to the address.
#[verifier::rlimit(100)]
pub proof fn lemma_ipv6_roundtrip(a: u128)
    ensures
        parse_ipv6(ipv6_repr(a as int)) == Option::Some(a as int),
        ipv6_repr(a as int).len() == 39,
        forall|j: int|
            0 <= j < 39 ==> is_hex_digit(#[trigger] ipv6_repr(a as int)[j]) || ipv6_repr(
                a as int,
            )[j] == ':',
{
    let g0 = v6_group(a as int, 0);
    let g1 = v6_group(a as int, 1);
    let g2 = v6_group(a as int, 2);
    let g3 = v6_group(a as int, 3);
    let g4 = v6_group(a as int, 4);
    let g5 = v6_group(a as int, 5);
    let g6 = v6_group(a as int, 6);
    let g7 = v6_group(a as int, 7);
    lemma_hex4_roundtrip(g0);
    lemma_hex4_roundtrip(g1);
    lemma_hex4_roundtrip(g2);
    lemma_hex4_roundtrip(g3);
    lemma_hex4_roundtrip(g4);
    lemma_hex4_roundtrip(g5);
    lemma_hex4_roundtrip(g6);
    lemma_hex4_roundtrip(g7);
    let s = ipv6_repr(a as int);
    assert(s.subrange(0, 4) =~= hex_repr4(g0));
    assert(s.subrange(5, 9) =~= hex_repr4(g1));
    assert(s.subrange(10, 14) =~= hex_repr4(g2));
    assert(s.subrange(15, 19) =~= hex_repr4(g3));
    assert(s.subrange(20, 24) =~= hex_repr4(g4));
    assert(s.subrange(25, 29) =~= hex_repr4(g5));
    assert(s.subrange(30, 34) =~= hex_repr4(g6));
    assert(s.subrange(35, 39) =~= hex_repr4(g7));
    assert(s[4] == ':' && s[9] == ':' && s[14] == ':' && s[19] == ':' && s[24] == ':' && s[29]
        == ':' && s[34] == ':');
    lemma_v6_value(a);
}

/// An IPv6 address is the weighted sum of its eight groups.
proof fn lemma_v6_value(a: u128)
    ensures
        a as int == v6_group(a as int, 0) * 0x1_0000_0000_0000_0000_0000_0000_0000 + v6_group(
            a as int,
            1,
        ) * 0x1_0000_0000_0000_0000_0000_0000 + v6_group(a as int, 2)
            * 0x1_0000_0000_0000_0000_0000 + v6_group(a as int, 3) * 0x1_0000_0000_0000_0000
            + v6_group(a as int, 4) * 0x1_0000_0000_0000 + v6_group(a as int, 5) * 0x1_0000_0000
            + v6_group(a as int, 6) * 0x1_0000 + v6_group(a as int, 7),
{
    let x = a as int;
    let q1 = x / 0x1_0000;
    let q2 = x / 0x1_0000_0000;
    let q3 = x / 0x1_0000_0000_0000;
    let q4 = x / 0x1_0000_0000_0000_0000;
    let q5 = x / 0x1_0000_0000_0000_0000_0000;
    let q6 = x / 0x1_0000_0000_0000_0000_0000_0000;
    let q7 = x / 0x1_0000_0000_0000_0000_0000_0000_0000;
    vstd::arithmetic::div_mod::lemma_div_denominator(x, 0x1_0000, 0x1_0000);
    vstd::arithmetic::div_mod::lemma_div_denominator(x, 0x1_0000_0000, 0x1_0000);
    vstd::arithmetic::div_mod::lemma_div_denominator(x, 0x1_0000_0000_0000, 0x1_0000);
    vstd::arithmetic::div_mod::lemma_div_denominator(x, 0x1_0000_0000_0000_0000, 0x1_0000);
    vstd::arithmetic::div_mod::lemma_div_denominator(x, 0x1_0000_0000_0000_0000_0000, 0x1_0000);
    vstd::arithmetic::div_mod::lemma_div_denominator(
        x,
        0x1_0000_0000_0000_0000_0000_0000,
        0x1_0000,
    );
    assert(q2 == q1 / 0x1_0000);
    assert(q3 == q2 / 0x1_0000);
    assert(q4 == q3 / 0x1_0000);
    assert(q5 == q4 / 0x1_0000);
    assert(q6 == q5 / 0x1_0000);
    assert(q7 == q6 / 0x1_0000);
    vstd::arithmetic::div_mod::lemma_fundamental_div_mod(x, 0x1_0000);
    vstd::arithmetic::div_mod::lemma_fundamental_div_mod(q1, 0x1_0000);
    vstd::arithmetic::div_mod::lemma_fundamental_div_mod(q2, 0x1_0000);
    vstd::arithmetic::div_mod::lemma_fundamental_div_mod(q3, 0x1_0000);
    vstd::arithmetic::div_mod::lemma_fundamental_div_mod(q4, 0x1_0000);
    vstd::arithmetic::div_mod::lemma_fundamental_div_mod(q5, 0x1_0000);
    vstd::arithmetic::div_mod::lemma_fundamental_div_mod(q6, 0x1_0000);
    assert(0 <= q7 < 0x1_0000) by (nonlinear_arith)
        requires
            0 <= x < 0x1_0000_0000_0000_0000_0000_0000_0000 * 0x1_0000,
            q7 == x / 0x1_0000_0000_0000_0000_0000_0000_0000,
    ;
    assert(q7 % 0x1_0000 == q7) by (nonlinear_arith)
        requires
            0 <= q7 < 0x1_0000,
    ;
    assert(x == 0x1_0000_0000 * q2 + 0x1_0000 * (q1 % 0x1_0000) + x % 0x1_0000);
    assert(x == 0x1_0000_0000_0000 * q3 + 0x1_0000_0000 * (q2 % 0x1_0000) + 0x1_0000 * (q1
        % 0x1_0000) + x % 0x1_0000);
    assert(x == 0x1_0000_0000_0000_0000 * q4 + 0x1_0000_0000_0000 * (q3 % 0x1_0000)
        + 0x1_0000_0000 * (q2 % 0x1_0000) + 0x1_0000 * (q1 % 0x1_0000) + x % 0x1_0000);
    assert(x == 0x1_0000_0000_0000_0000_0000 * q5 + 0x1_0000_0000_0000_0000 * (q4 % 0x1_0000)
        + 0x1_0000_0000_0000 * (q3 % 0x1_0000) + 0x1_0000_0000 * (q2 % 0x1_0000) + 0x1_0000 * (q1
        % 0x1_0000) + x % 0x1_0000);
    assert(x == 0x1_0000_0000_0000_0000_0000_0000 * q6 + 0x1_0000_0000_0000_0000_0000 * (q5
        % 0x1_0000) + 0x1_0000_0000_0000_0000 * (q4 % 0x1_0000) + 0x1_0000_0000_0000 * (q3
        % 0x1_0000) + 0x1_0000_0000 * (q2 % 0x1_0000) + 0x1_0000 * (q1 % 0x1_0000) + x % 0x1_0000);
    assert(x == 0x1_0000_0000_0000_0000_0000_0000_0000 * q7 + 0x1_0000_0000_0000_0000_0000_0000 * (
    q6 % 0x1_0000) + 0x1_0000_0000_0000_0000_0000 * (q5 % 0x1_0000) + 0x1_0000_0000_0000_0000 * (q4
        % 0x1_0000) + 0x1_0000_0000_0000 * (q3 % 0x1_0000) + 0x1_0000_0000 * (q2 % 0x1_0000)
        + 0x1_0000 * (q1 % 0x1_0000) + x % 0x1_0000);
}

/// Writing a location out and reading it back gives the location, for
/// every IP-addressed location with a non-zero port.
#[verifier::rlimit(100)]
pub proof fn lemma_location_roundtrip(l: NetLocationV)
    requires
        l.address is Ipv4 || l.address is Ipv6,
        l.port != 0,
    ensures
        parse_location(location_repr(l), Option::None) == Option::Some(l),
{
    let s = location_repr(l);
    lemma_dec_repr_digits(l.port as int);
    lemma_dec_roundtrip(l.port as int);
    let dp = dec_repr(l.port as int);
    match l.address {
        AddressV::Ipv4(a) => {
            lemma_ipv4_roundtrip(a);
            let h = ipv4_repr(a as int);
            let c1 = h.len() as int;
            assert(s.subrange(0, c1) =~= h);
            assert(s[c1] == ':');
            assert(s.subrange(c1 + 1, s.len() as int) =~= dp);
            lemma_find_char_at(s, ':', 0, c1);
            lemma_find_char_none(s, ':', c1 + 1);
            assert(parse_port_value(s.subrange(c1 + 1, s.len() as int)) == Option::Some(
                l.port as int,
            ));
        },
        AddressV::Ipv6(a) => {
            lemma_ipv6_roundtrip(a);
            let h = ipv6_repr(a as int);
            assert(s[0] == '[');
            assert(s.len() == 42 + dp.len());
            assert(s.subrange(1, 40) =~= h);
            assert(s[40] == ']');
            let rest = s.subrange(41, s.len() as int);
            assert(rest[0] == ':');
            assert(rest.subrange(1, rest.len() as int) =~= dp);
        },
        AddressV::Hostname(_) => {},
    }
}

/// Writing a mask out and reading it back gives the mask, so what a
/// mask matches is stable under that round trip.
#[verifier::rlimit(100)]
pub proof fn lemma_mask_roundtrip(m: NetLocationMask)
    requires
        m.wf(),
    ensures
        parse_mask(mask_repr(m)) == Option::Some(m),
        forall|l: NetLocationV|
            parse_mask(mask_repr(m))->Some_0.spec_matches(l) == m.spec_matches(l),
{
    let s = mask_repr(m);
    match m.address {
        MaskAddress::Any => {
            assert(m == NetLocationMask::spec_any());
        },
        MaskAddress::V4(p, len) => {
            lemma_ipv4_roundtrip(p);
            lemma_dec_repr_digits(len as int);
            lemma_dec_roundtrip(len as int);
            let h = ipv4_repr(p as int);
            let dl = dec_repr(len as int);
            let sl = h.len() as int;
            assert(s != seq!['a', 'n', 'y']) by {
                assert(s[0] == h[0]);
            }
            assert(s[0] != '[');
            assert(s.subrange(0, sl) =~= h);
            assert(s[sl] == '/');
            lemma_find_char_at(s, '/', 0, sl);
            let rest = s.subrange(sl + 1, s.len() as int);
            if m.port == 0 {
                assert(rest =~= dl);
                lemma_find_char_none(rest, ':', 0);
                assert(rest.subrange(0, rest.len() as int) =~= dl);
            } else {
                lemma_dec_repr_digits(m.port as int);
                lemma_dec_roundtrip(m.port as int);
                let dpt = dec_repr(m.port as int);
                assert(rest.subrange(0, dl.len() as int) =~= dl);
                assert(rest[dl.len() as int] == ':');
                lemma_find_char_at(rest, ':', 0, dl.len() as int);
                assert(rest.subrange(dl.len() as int + 1, rest.len() as int) =~= dpt);
            }
        },
        MaskAddress::V6(p, len) => {
            lemma_ipv6_roundtrip(p);
            lemma_dec_repr_digits(len as int);
            lemma_dec_roundtrip(len as int);
            let h = ipv6_repr(p as int);
            let dl = dec_repr(len as int);
            assert(s != seq!['a', 'n', 'y']) by {
                assert(s[0] == '[');
            }
            assert(s.subrange(1, 40) =~= h);
            assert(s[40] == ']');
            assert(s[41] == '/');
            let rest = s.subrange(42, s.len() as int);
            if m.port == 0 {
                assert(rest =~= dl);
                lemma_find_char_none(rest, ':', 0);
                assert(rest.subrange(0, rest.len() as int) =~= dl);
            } else {
                lemma_dec_repr_digits(m.port as int);
                lemma_dec_roundtrip(m.port as int);
                let dpt = dec_repr(m.port as int);
                assert(rest.subrange(0, dl.len() as int) =~= dl);
                assert(rest[dl.len() as int] == ':');
                lemma_find_char_at(rest, ':', 0, dl.len() as int);
                assert(rest.subrange(dl.len() as int + 1, rest.len() as int) =~= dpt);
            }
        },
    }
}

/// The characters of a string slice, in order.
fn chars_of(s: &str) -> (r: Vec<char>)
    ensures
        r@ == s@,
{
    let n = s.unicode_len();
    let mut r: Vec<char> = Vec::new();
    let mut i: usize = 0;
    while i < n
        invariant
            n == s@.len(),
            i <= n,
            r@ =~= s@.subrange(0, i as int),
        decreases n - i,
    {
        r.push(s.get_char(i));
        proof {
            assert(r@ =~= s@.subrange(0, i + 1));
        }
        i = i + 1;
    }
    proof {
        assert(s@.subrange(0, s@.len() as int) =~= s@);
    }
    r
}

/// The first position of a character at or after `from`.
fn find_from(v: &Vec<char>, c: char, from: usize) -> (r: usize)
    requires
        from <= v@.len(),
    ensures
        r == find_char(v@, c, from as int),
{
    let mut i: usize = from;
    while i < v.len()
        invariant
            from <= i <= v@.len(),
            forall|j: int| from <= j < i ==> v@[j] != c,
        decreases v@.len() - i,
    {
        if v[i] == c {
            proof {
                lemma_find_char_at(v@, c, from as int, i as int);
            }
            return i;
        }
        i = i + 1;
    }
    proof {
        lemma_find_char_none(v@, c, from as int);
    }
    v.len()
}

/// A copy of a character range.
fn copy_range(v: &Vec<char>, lo: usize, hi: usize) -> (r: Vec<char>)
    requires
        lo <= hi <= v@.len(),
    ensures
        r@ == v@.subrange(lo as int, hi as int),
{
    let mut r: Vec<char> = Vec::new();
    let mut i: usize = lo;
    while i < hi
        invariant
            lo <= i <= hi <= v@.len(),
            r@ =~= v@.subrange(lo as int, i as int),
        decreases hi - i,
    {
        r.push(v[i]);
        proof {
            assert(r@ =~= v@.subrange(lo as int, i + 1));
        }
        i = i + 1;
    }
    r
}

/// Reads a dotted-quad IPv4 address from the whole character list.
fn parse_ipv4_vec(v: &Vec<char>) -> (r: Option<u32>)
    ensures
        (r is Some) == (parse_ipv4(v@) is Some),
        r is Some ==> r->0 as int == parse_ipv4(v@)->Some_0,
{
    let n = v.len();
    let i1 = find_from(v, '.', 0);
    if i1 >= n {
        return Option::None;
    }
    let i2 = find_from(v, '.', i1 + 1);
    if i2 >= n {
        return Option::None;
    }
    let i3 = find_from(v, '.', i2 + 1);
    if i3 >= n {
        return Option::None;
    }
    if find_from(v, '.', i3 + 1) != n {
        return Option::None;
    }
    proof {
        lemma_find_char_props(v@, '.', 0);
        lemma_find_char_props(v@, '.', i1 + 1);
        lemma_find_char_props(v@, '.', i2 + 1);
    }
    let o1 = match parse_dec_range(v, 0, i1, 3) {
        Option::Some(o) => o,
        Option::None => {
            return Option::None;
        },
    };
    let o2 = match parse_dec_range(v, i1 + 1, i2, 3) {
        Option::Some(o) => o,
        Option::None => {
            return Option::None;
        },
    };
    let o3 = match parse_dec_range(v, i2 + 1, i3, 3) {
        Option::Some(o) => o,
        Option::None => {
            return Option::None;
        },
    };
    let o4 = match parse_dec_range(v, i3 + 1, n, 3) {
        Option::Some(o) => o,
        Option::None => {
            return Option::None;
        },
    };
    if o1 > 255 || o2 > 255 || o3 > 255 || o4 > 255 {
        return Option::None;
    }
    Option::Some(o1 * 16777216 + o2 * 65536 + o3 * 256 + o4)
}

/// Reads the fixed-width IPv6 form from the whole character list.
fn parse_ipv6_vec(v: &Vec<char>) -> (r: Option<u128>)
    ensures
        (r is Some) == (parse_ipv6(v@) is Some),
        r is Some ==> r->0 as int == parse_ipv6(v@)->Some_0,
{
    if v.len() != 39 {
        return Option::None;
    }
    if !(v[4] == ':' && v[9] == ':' && v[14] == ':' && v[19] == ':' && v[24] == ':' && v[29] == ':'
        && v[34] == ':') {
        return Option::None;
    }
    let g0 = match parse_hex_range(v, 0, 4) {
        Option::Some(g) => g,
        Option::None => {
            return Option::None;
        },
    };
    let g1 = match parse_hex_range(v, 5, 9) {
        Option::Some(g) => g,
        Option::None => {
            return Option::None;
        },
    };
    let g2 = match parse_hex_range(v, 10, 14) {
        Option::Some(g) => g,
        Option::None => {
            return Option::None;
        },
    };
    let g3 = match parse_hex_range(v, 15, 19) {
        Option::Some(g) => g,
        Option::None => {
            return Option::None;
        },
    };
    let g4 = match parse_hex_range(v, 20, 24) {
        Option::Some(g) => g,
        Option::None => {
            return Option::None;
        },
    };
    let g5 = match parse_hex_range(v, 25, 29) {
        Option::Some(g) => g,
        Option::None => {
            return Option::None;
        },
    };
    let g6 = match parse_hex_range(v, 30, 34) {
        Option::Some(g) => g,
        Option::None => {
            return Option::None;
        },
    };
    let g7 = match parse_hex_range(v, 35, 39) {
        Option::Some(g) => g,
        Option::None => {
            return Option::None;
        },
    };
    proof {
        reveal_with_fuel(crate::numfmt::pow16, 5);
        crate::numfmt::lemma_hex_value_bound(v@.subrange(0, 4));
        crate::numfmt::lemma_hex_value_bound(v@.subrange(5, 9));
        crate::numfmt::lemma_hex_value_bound(v@.subrange(10, 14));
        crate::numfmt::lemma_hex_value_bound(v@.subrange(15, 19));
        crate::numfmt::lemma_hex_value_bound(v@.subrange(20, 24));
        crate::numfmt::lemma_hex_value_bound(v@.subrange(25, 29));
        crate::numfmt::lemma_hex_value_bound(v@.subrange(30, 34));
        crate::numfmt::lemma_hex_value_bound(v@.subrange(35, 39));
    }
    Option::Some(
        (g0 as u128) * 0x1_0000_0000_0000_0000_0000_0000_0000 + (g1 as u128)
            * 0x1_0000_0000_0000_0000_0000_0000 + (g2 as u128) * 0x1_0000_0000_0000_0000_0000 + (
        g3 as u128) * 0x1_0000_0000_0000_0000 + (g4 as u128) * 0x1_0000_0000_0000 + (g5 as u128)
            * 0x1_0000_0000 + (g6 as u128) * 0x1_0000 + (g7 as u128),
    )
}

/// Reads a port of one to five digits, at most 65535.
fn parse_port_vec(v: &Vec<char>, lo: usize, hi: usize) -> (r: Option<u16>)
    requires
        lo <= hi <= v@.len(),
    ensures
        (r is Some) == (parse_port_value(v@.subrange(lo as int, hi as int)) is Some),
        r is Some ==> r->0 as int == parse_port_value(v@.subrange(lo as int, hi as int))->Some_0,
{
    match parse_dec_range(v, lo, hi, 5) {
        Option::Some(p) => if p <= 65535 {
            Option::Some(p as u16)
        } else {
            Option::None
        },
        Option::None => Option::None,
    }
}

/// Reads a host from a range: a dotted-quad IPv4 address, else a DNS
/// name.
#[verifier::loop_isolation(false)]
fn parse_host_range(s: &str, v: &Vec<char>, lo: usize, hi: usize) -> (r: Option<Address>)
    requires
        v@ == s@,
        lo <= hi <= v@.len(),
    ensures
        (r is Some) == (parse_host(v@.subrange(lo as int, hi as int)) is Some),
        r is Some ==> r->0.deep_view() == parse_host(v@.subrange(lo as int, hi as int))->Some_0,
{
    let w = copy_range(v, lo, hi);
    match parse_ipv4_vec(&w) {
        Option::Some(a) => Option::Some(Address::Ipv4(a)),
        Option::None => {
            if hi - lo < 1 {
                proof {
                    assert(!valid_hostname(v@.subrange(lo as int, hi as int)));
                }
                return Option::None;
            }
            let mut i: usize = lo;
            while i < hi
                invariant
                    lo <= i <= hi <= v@.len(),
                    forall|j: int| lo <= j < i ==> is_hostname_char(v@[j]),
                decreases hi - i,
            {
                let c = v[i];
                let u = c as u32;
                let ok = (48 <= u && u <= 57) || (65 <= u && u <= 90) || (97 <= u && u <= 122) || c
                    == '-' || c == '.' || c == '_';
                if !ok {
                    proof {
                        assert(v@.subrange(lo as int, hi as int)[i - lo] == c);
                        assert(!valid_hostname(v@.subrange(lo as int, hi as int)));
                    }
                    return Option::None;
                }
                i = i + 1;
            }
            proof {
                assert(forall|j: int|
                    0 <= j < hi - lo ==> is_hostname_char(
                        #[trigger] v@.subrange(lo as int, hi as int)[j],
                    ));
            }
            Option::Some(Address::Hostname(s.substring_char(lo, hi).to_owned()))
        },
    }
}

impl NetLocation {
    /// Reads `host[:port]`: a bracketed IPv6 address, an IPv4 address,
    /// or a DNS name; without a port, the default port applies, and
    /// without either the input is rejected.
    pub fn from_str(s: &str, default_port: Option<u16>) -> (r: Result<NetLocation, ConfigError>)
        ensures
            (r is Ok) == (parse_location(s@, default_port) is Some),
            r is Ok ==> r->Ok_0.deep_view() == parse_location(s@, default_port)->Some_0,
    {
        let v = chars_of(s);
        let n = v.len();
        if n == 0 {
            return Result::Err(ConfigError::new("empty location"));
        }
        if v[0] == '[' {
            if n < 41 || v[40] != ']' {
                return Result::Err(ConfigError::new("malformed bracketed address"));
            }
            let w = copy_range(&v, 1, 40);
            let a = match parse_ipv6_vec(&w) {
                Option::Some(a) => a,
                Option::None => {
                    return Result::Err(ConfigError::new("malformed bracketed address"));
                },
            };
            let rest_lo: usize = 41;
            let p: u16;
            if n == rest_lo {
                match default_port {
                    Option::Some(dp) => {
                        p = dp;
                    },
                    Option::None => {
                        return Result::Err(ConfigError::new("location has no port"));
                    },
                }
            } else if v[rest_lo] == ':' {
                proof {
                    assert(v@.subrange(41, n as int)[0] == v@[41]);
                    assert(v@.subrange(41, n as int).subrange(1, n - 41) =~= v@.subrange(
                        42,
                        n as int,
                    ));
                }
                match parse_port_vec(&v, rest_lo + 1, n) {
                    Option::Some(pv) => {
                        p = pv;
                    },
                    Option::None => {
                        return Result::Err(ConfigError::new("malformed port"));
                    },
                }
            } else {
                proof {
                    assert(v@.subrange(41, n as int)[0] == v@[41]);
                }
                return Result::Err(ConfigError::new("malformed port"));
            }
            return Result::Ok(NetLocation { address: Address::Ipv6(a), port: p });
        }
        let c1 = find_from(&v, ':', 0);
        proof {
            lemma_find_char_props(v@, ':', 0);
        }
        if c1 == n {
            let dp = match default_port {
                Option::Some(dp) => dp,
                Option::None => {
                    return Result::Err(ConfigError::new("location has no port"));
                },
            };
            proof {
                assert(v@.subrange(0, n as int) =~= v@);
            }
            match parse_host_range(s, &v, 0, n) {
                Option::Some(a) => Result::Ok(NetLocation { address: a, port: dp }),
                Option::None => Result::Err(ConfigError::new("malformed host")),
            }
        } else if find_from(&v, ':', c1 + 1) == n {
            proof {
                lemma_find_char_props(v@, ':', 0);
            }
            let a = match parse_host_range(s, &v, 0, c1) {
                Option::Some(a) => a,
                Option::None => {
                    return Result::Err(ConfigError::new("malformed host"));
                },
            };
            match parse_port_vec(&v, c1 + 1, n) {
                Option::Some(p) => Result::Ok(NetLocation { address: a, port: p }),
                Option::None => Result::Err(ConfigError::new("malformed port")),
            }
        } else {
            Result::Err(ConfigError::new("malformed location"))
        }
    }
}

impl NetLocationMask {
    /// Reads a mask: the wildcard `any`, or `address/prefix[:port]`
    /// with the address bracketed for IPv6.
    pub fn from(s: &str) -> (r: Result<NetLocationMask, ConfigError>)
        ensures
            (r is Ok) == (parse_mask(s@) is Some),
            r is Ok ==> r->Ok_0 == parse_mask(s@)->Some_0,
            r is Ok ==> r->Ok_0.wf(),
    {
        let v = chars_of(s);
        let n = v.len();
        if n == 3 && v[0] == 'a' && v[1] == 'n' && v[2] == 'y' {
            proof {
                assert(v@ =~= seq!['a', 'n', 'y']);
            }
            return Result::Ok(NetLocationMask::any());
        }
        proof {
            assert(v@ != seq!['a', 'n', 'y']) by {
                if v@ == seq!['a', 'n', 'y'] {
                    assert(v@.len() == 3 && v@[0] == 'a' && v@[1] == 'n' && v@[2] == 'y');
                }
            }
        }
        if n == 0 {
            return Result::Err(ConfigError::new("empty mask"));
        }
        if v[0] == '[' {
            if n < 42 || v[40] != ']' || v[41] != '/' {
                return Result::Err(ConfigError::new("malformed mask"));
            }
            let w = copy_range(&v, 1, 40);
            let p = match parse_ipv6_vec(&w) {
                Option::Some(p) => p,
                Option::None => {
                    return Result::Err(ConfigError::new("malformed mask address"));
                },
            };
            match parse_prefix_port_range(&v, 42, 128) {
                Option::Some((bits, port)) => Result::Ok(
                    NetLocationMask { address: MaskAddress::V6(p, bits), port },
                ),
                Option::None => Result::Err(ConfigError::new("malformed mask prefix")),
            }
        } else {
            let sl = find_from(&v, '/', 0);
            if sl == n {
                return Result::Err(ConfigError::new("mask has no prefix length"));
            }
            proof {
                lemma_find_char_props(v@, '/', 0);
            }
            let w = copy_range(&v, 0, sl);
            let p = match parse_ipv4_vec(&w) {
                Option::Some(p) => p,
                Option::None => {
                    return Result::Err(ConfigError::new("malformed mask address"));
                },
            };
            match parse_prefix_port_range(&v, sl + 1, 32) {
                Option::Some((bits, port)) => Result::Ok(
                    NetLocationMask { address: MaskAddress::V4(p, bits), port },
                ),
                Option::None => Result::Err(ConfigError::new("malformed mask prefix")),
            }
        }
    }
}

/// Reads a prefix length and an optional `:port` from a tail range.
fn parse_prefix_port_range(v: &Vec<char>, lo: usize, maxbits: u32) -> (r: Option<(u8, u16)>)
    requires
        lo <= v@.len(),
        maxbits <= 128,
    ensures
        (r is Some) == (parse_prefix_port(v@.subrange(lo as int, v@.len() as int), maxbits as int)
            is Some),
        r is Some ==> {
            let bp = parse_prefix_port(v@.subrange(lo as int, v@.len() as int), maxbits as int)
                ->Some_0;
            (r->0).0 as int == bp.0 && (r->0).1 as int == bp.1
        },
{
    let ghost t = v@.subrange(lo as int, v@.len() as int);
    let n = v.len();
    let colon = find_from(v, ':', lo);
    proof {
        lemma_find_char_props(v@, ':', lo as int);
        lemma_find_char_shift(v@, ':', lo as int);
        assert(t.subrange(0, colon - lo) =~= v@.subrange(lo as int, colon as int));
    }
    let bits = match parse_dec_range(v, lo, colon, 3) {
        Option::Some(b) => b,
        Option::None => {
            return Option::None;
        },
    };
    if bits > maxbits {
        return Option::None;
    }
    if colon == n {
        return Option::Some((bits as u8, 0));
    }
    proof {
        assert(t.subrange(colon - lo + 1, t.len() as int) =~= v@.subrange(
            colon + 1,
            v@.len() as int,
        ));
    }
    match parse_port_vec(v, colon + 1, n) {
        Option::Some(p) => Option::Some((bits as u8, p)),
        Option::None => Option::None,
    }
}

/// Appends one decimal digit.
fn append_dec_digit(out: &mut String, d: u32)
    requires
        d < 10,
    ensures
        final(out)@ == old(out)@ + seq![crate::numfmt::dec_digit_char(d as int)],
{
    proof {
        reveal_strlit("0");
        reveal_strlit("1");
        reveal_strlit("2");
        reveal_strlit("3");
        reveal_strlit("4");
        reveal_strlit("5");
        reveal_strlit("6");
        reveal_strlit("7");
        reveal_strlit("8");
        reveal_strlit("9");
    }
    match d {
        0 => out.append("0"),
        1 => out.append("1"),
        2 => out.append("2"),
        3 => out.append("3"),
        4 => out.append("4"),
        5 => out.append("5"),
        6 => out.append("6"),
        7 => out.append("7"),
        8 => out.append("8"),
        _ => out.append("9"),
    }
    proof {
        assert(out@ =~= old(out)@ + seq![crate::numfmt::dec_digit_char(d as int)]);
    }
}

/// Appends one hexadecimal digit, lower case.
fn append_hex_digit(out: &mut String, d: u32)
    requires
        d < 16,
    ensures
        final(out)@ == old(out)@ + seq![crate::numfmt::hex_digit_char(d as int)],
{
    if d < 10 {
        append_dec_digit(out, d);
    } else {
        proof {
            reveal_strlit("a");
            reveal_strlit("b");
            reveal_strlit("c");
            reveal_strlit("d");
            reveal_strlit("e");
            reveal_strlit("f");
        }
        match d {
            10 => out.append("a"),
            11 => out.append("b"),
            12 => out.append("c"),
            13 => out.append("d"),
            14 => out.append("e"),
            _ => out.append("f"),
        }
        proof {
            assert(out@ =~= old(out)@ + seq![crate::numfmt::hex_digit_char(d as int)]);
        }
    }
}

/// Appends the canonical decimal form of a number.
fn append_dec(out: &mut String, n: u32)
    ensures
        final(out)@ == old(out)@ + dec_repr(n as int),
    decreases n,
{
    if n < 10 {
        append_dec_digit(out, n);
        proof {
            assert(out@ =~= old(out)@ + dec_repr(n as int));
        }
    } else {
        append_dec(out, n / 10);
        append_dec_digit(out, n % 10);
        proof {
            assert(out@ =~= old(out)@ + dec_repr(n as int));
        }
    }
}

/// Appends the four-digit hexadecimal form of a sixteen-bit group.
fn append_hex4(out: &mut String, g: u32)
    requires
        g < 65536,
    ensures
        final(out)@ == old(out)@ + hex_repr4(g as int),
{
    append_hex_digit(out, g / 4096 % 16);
    append_hex_digit(out, g / 256 % 16);
    append_hex_digit(out, g / 16 % 16);
    append_hex_digit(out, g % 16);
    proof {
        assert(out@ =~= old(out)@ + hex_repr4(g as int));
    }
}

/// Appends the dotted-quad form of an IPv4 address.
fn append_ipv4(out: &mut String, a: u32)
    ensures
        final(out)@ == old(out)@ + ipv4_repr(a as int),
{
    proof {
        reveal_strlit(".");
    }
    append_dec(out, a / 16777216);
    out.append(".");
    append_dec(out, a / 65536 % 256);
    out.append(".");
    append_dec(out, a / 256 % 256);
    out.append(".");
    append_dec(out, a % 256);
    proof {
        assert(out@ =~= old(out)@ + ipv4_repr(a as int));
    }
}

/// Appends the fixed-width form of an IPv6 address.
#[verifier::rlimit(100)]
fn append_ipv6(out: &mut String, a: u128)
    ensures
        final(out)@ == old(out)@ + ipv6_repr(a as int),
{
    proof {
        reveal_strlit(":");
    }
    append_hex4(out, (a / 0x1_0000_0000_0000_0000_0000_0000_0000 % 65536) as u32);
    out.append(":");
    append_hex4(out, (a / 0x1_0000_0000_0000_0000_0000_0000 % 65536) as u32);
    out.append(":");
    append_hex4(out, (a / 0x1_0000_0000_0000_0000_0000 % 65536) as u32);
    out.append(":");
    append_hex4(out, (a / 0x1_0000_0000_0000_0000 % 65536) as u32);
    out.append(":");
    append_hex4(out, (a / 0x1_0000_0000_0000 % 65536) as u32);
    out.append(":");
    append_hex4(out, (a / 0x1_0000_0000 % 65536) as u32);
    out.append(":");
    append_hex4(out, (a / 0x1_0000 % 65536) as u32);
    out.append(":");
    append_hex4(out, (a % 65536) as u32);
    proof {
        assert(out@ =~= old(out)@ + ipv6_repr(a as int));
    }
}

impl NetLocation {
    /// The textual form `host:port`, the host bracketed for IPv6.
    pub fn to_string(&self) -> (r: String)
        ensures
            r@ == location_repr(self.deep_view()),
    {
        proof {
            reveal_strlit("[");
            reveal_strlit("]");
            reveal_strlit(":");
        }
        let mut out = String::new();
        match &self.address {
            Address::Ipv4(a) => {
                append_ipv4(&mut out, *a);
            },
            Address::Ipv6(a) => {
                out.append("[");
                append_ipv6(&mut out, *a);
                out.append("]");
            },
            Address::Hostname(h) => {
                out.append(h.as_str());
            },
        }
        out.append(":");
        append_dec(&mut out, self.port as u32);
        proof {
            assert(out@ =~= location_repr(self.deep_view()));
        }
        out
    }
}

impl NetLocationMask {
    /// The textual form: `any`, or `address/prefix[:port]` with the
    /// address bracketed for IPv6.
    pub fn to_string(&self) -> (r: String)
        ensures
            r@ == mask_repr(*self),
    {
        proof {
            reveal_strlit("any");
            reveal_strlit("[");
            reveal_strlit("]");
            reveal_strlit("/");
            reveal_strlit(":");
        }
        let mut out = String::new();
        match self.address {
            MaskAddress::Any => {
                out.append("any");
                proof {
                    assert(out@ =~= mask_repr(*self));
                }
                return out;
            },
            MaskAddress::V4(p, len) => {
                append_ipv4(&mut out, p);
                out.append("/");
                append_dec(&mut out, len as u32);
            },
            MaskAddress::V6(p, len) => {
                out.append("[");
                append_ipv6(&mut out, p);
                out.append("]");
                out.append("/");
                append_dec(&mut out, len as u32);
            },
        }
        if self.port != 0 {
            out.append(":");
            append_dec(&mut out, self.port as u32);
        }
        proof {
            assert(out@ =~= mask_repr(*self));
        }
        out
    }
}

/// Finding in a tail range is finding from its start.
proof fn lemma_find_char_shift(s: Seq<char>, c: char, lo: int)
    requires
        0 <= lo <= s.len(),
    ensures
        find_char(s.subrange(lo, s.len() as int), c, 0) == find_char(s, c, lo) - lo,
{
    let t = s.subrange(lo, s.len() as int);
    let k = find_char(s, c, lo);
    lemma_find_char_props(s, c, lo);
    if k < s.len() {
        lemma_find_char_at(t, c, 0, k - lo);
    } else {
        lemma_find_char_none(t, c, 0);
    }
}

} // verus!

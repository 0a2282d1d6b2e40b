//! Network addresses and their text forms.
//!
//! An IPv4 address is four decimal octets. An IPv6 address is eight hexadecimal groups, of which
//! one run of zeros may be written `::` and the last two may be written as an IPv4 address. A
//! socket address adds a port, and for IPv6 brackets and an optional numeric scope.

use crate::text;
use crate::text::{chars_of, read_number, split_chars};
use vstd::prelude::*;
use vstd::slice::slice_subrange;

verus! {

/// An IP address as the number that its bytes, most significant first, denote.
#[derive(Clone, Copy, Debug, PartialEq, Eq, Structural)]
pub enum IpAddress {
    /// Four bytes.
    V4(u32),
    /// Sixteen bytes.
    V6(u128),
}

/// An IP address with a port; an IPv6 one also has a scope.
#[derive(Clone, Copy, Debug, PartialEq, Eq, Structural)]
pub enum SocketAddress {
    /// IPv4 address and port.
    V4 { ipv4: u32, port: u16 },
    /// IPv6 address, port and scope.
    V6 { ipv6: u128, port: u16, scope_id: u32 },
}

/// One part of a dotted IPv4 address: a number of at most 255 without leading zeros.
pub open spec fn octet(s: Seq<char>) -> Option<int> {
    if s.len() == 1 || (s.len() <= 3 && s[0] != '0') {
        text::number(s, 10, 255)
    } else {
        None
    }
}

/// The number that the dotted IPv4 address `s` denotes.
pub open spec fn ipv4(s: Seq<char>) -> Option<int> {
    let parts = text::split(s, '.');
    if parts.len() == 4 {
        match (octet(parts[0]), octet(parts[1]), octet(parts[2]), octet(parts[3])) {
            (Some(a), Some(b), Some(c), Some(d)) => Some(((a * 256 + b) * 256 + c) * 256 + d),
            _ => None,
        }
    } else {
        None
    }
}

/// One group of an IPv6 address: one to four hexadecimal digits.
pub open spec fn hex_group(s: Seq<char>) -> Option<int> {
    if s.len() <= 4 {
        text::number(s, 16, 0xffff)
    } else {
        None
    }
}

/// The groups that `parts` denote when each is a hexadecimal group.
pub open spec fn hex_groups(parts: Seq<Seq<char>>) -> Option<Seq<int>>
    decreases parts.len(),
{
    if parts.len() == 0 {
        Some(Seq::empty())
    } else {
        match (hex_groups(parts.drop_last()), hex_group(parts.last())) {
            (Some(groups), Some(group)) => Some(groups.push(group)),
            _ => None,
        }
    }
}

/// The groups before a `::`: none, or hexadecimal groups with colons between them.
pub open spec fn head_groups(s: Seq<char>) -> Option<Seq<int>> {
    if s.len() == 0 {
        Some(Seq::empty())
    } else {
        hex_groups(text::split(s, ':'))
    }
}

/// The groups at the end of an address, where an IPv4 address may stand for the last two.
pub open spec fn tail_groups(s: Seq<char>) -> Option<Seq<int>> {
    let parts = text::split(s, ':');
    if s.len() == 0 {
        Some(Seq::empty())
    } else {
        match ipv4(parts.last()) {
            Some(v4) => match hex_groups(parts.drop_last()) {
                Some(groups) => Some(groups.push(v4 / 0x10000).push(v4 % 0x10000)),
                None => None,
            },
            None => hex_groups(parts),
        }
    }
}

/// Where the first `::` at or after `from` stands.
pub open spec fn gap(s: Seq<char>, from: int) -> Option<int>
    decreases s.len() - from,
{
    if from < 0 || from + 1 >= s.len() {
        None
    } else if s[from] == ':' && s[from + 1] == ':' {
        Some(from)
    } else {
        gap(s, from + 1)
    }
}

/// The eight groups that `s` denotes: all of them written out, or with `::` for one zero group or
/// more.
pub open spec fn ipv6_groups(s: Seq<char>) -> Option<Seq<int>> {
    match gap(s, 0) {
        None => match tail_groups(s) {
            Some(groups) => if groups.len() == 8 {
                Some(groups)
            } else {
                None
            },
            None => None,
        },
        Some(k) => match (head_groups(s.take(k)), tail_groups(s.skip(k + 2))) {
            (Some(head), Some(tail)) => if head.len() + tail.len() <= 7 {
                Some(head + Seq::new((8 - head.len() - tail.len()) as nat, |i: int| 0int) + tail)
            } else {
                None
            },
            _ => None,
        },
    }
}

/// The number that eight groups denote.
pub open spec fn groups_value(g: Seq<int>) -> int {
    ((((((g[0] * 0x10000 + g[1]) * 0x10000 + g[2]) * 0x10000 + g[3]) * 0x10000 + g[4]) * 0x10000
        + g[5]) * 0x10000 + g[6]) * 0x10000 + g[7]
}

/// The number that the IPv6 address `s` denotes.
pub open spec fn ipv6(s: Seq<char>) -> Option<int> {
    match ipv6_groups(s) {
        Some(g) => Some(groups_value(g)),
        None => None,
    }
}

/// The IP address that `s` denotes, of either family.
pub open spec fn ip_address(s: Seq<char>) -> Option<IpAddress> {
    match ipv4(s) {
        Some(v4) => Some(IpAddress::V4(v4 as u32)),
        None => match ipv6(s) {
            Some(v6) => Some(IpAddress::V6(v6 as u128)),
            None => None,
        },
    }
}

/// `address:port` with an IPv4 address.
pub open spec fn socket_address_v4(s: Seq<char>) -> Option<SocketAddress> {
    let parts = text::split(s, ':');
    if parts.len() == 2 {
        match (ipv4(parts[0]), text::number(parts[1], 10, 0xffff)) {
            (Some(ip), Some(port)) => Some(SocketAddress::V4 { ipv4: ip as u32, port: port as u16 }),
            _ => None,
        }
    } else {
        None
    }
}

/// An IPv6 address with its scope, which is zero unless `%` and a number follow the address.
pub open spec fn scoped_ipv6(s: Seq<char>) -> Option<(int, int)> {
    let parts = text::split(s, '%');
    if parts.len() == 1 {
        match ipv6(parts[0]) {
            Some(ip) => Some((ip, 0)),
            None => None,
        }
    } else if parts.len() == 2 {
        match (ipv6(parts[0]), text::number(parts[1], 10, 0xffff_ffff)) {
            (Some(ip), Some(scope)) => Some((ip, scope)),
            _ => None,
        }
    } else {
        None
    }
}

/// `[address]:port` with an IPv6 address.
pub open spec fn socket_address_v6(s: Seq<char>) -> Option<SocketAddress> {
    let parts = text::split(s, ']');
    if parts.len() == 2 && parts[0].len() > 0 && parts[0][0] == '[' && parts[1].len() > 0
        && parts[1][0] == ':' {
        match (scoped_ipv6(parts[0].skip(1)), text::number(parts[1].skip(1), 10, 0xffff)) {
            (Some((ip, scope)), Some(port)) => Some(
                SocketAddress::V6 { ipv6: ip as u128, port: port as u16, scope_id: scope as u32 },
            ),
            _ => None,
        }
    } else {
        None
    }
}

/// The socket address that `s` denotes, of either family.
pub open spec fn socket_address(s: Seq<char>) -> Option<SocketAddress> {
    match socket_address_v4(s) {
        Some(address) => Some(address),
        None => socket_address_v6(s),
    }
}

/// Digits denote no negative number.
proof fn number_in_range(s: Seq<char>, radix: int, max: int)
    requires
        radix >= 1,
    ensures
        text::number(s, radix, max) matches Some(n) ==> 0 <= n <= max,
{
    text::digits_value_grows(s, radix, s.len() as int);
}

/// Reads one part of a dotted IPv4 address.
fn read_octet(s: &[char]) -> (r: Option<u32>)
    ensures
        r matches Some(n) ==> n <= 255 && octet(s@) == Some(n as int),
        r is None ==> octet(s@) is None,
{
    if s.len() == 1 || (0 < s.len() && s.len() <= 3 && s[0] != '0') {
        proof {
            number_in_range(s@, 10, 255);
        }
        read_number(s, 10, 255)
    } else {
        None
    }
}

/// Reads a dotted IPv4 address.
fn read_ipv4(s: &[char]) -> (r: Option<u32>)
    ensures
        r matches Some(n) ==> ipv4(s@) == Some(n as int),
        r is None ==> ipv4(s@) is None,
{
    let parts: Vec<Vec<char>> = split_chars(s, '.');
    let ghost texts = text::split(s@, '.');
    assert(text::views(parts@).len() == parts@.len());
    if parts.len() != 4 {
        return None;
    }
    assert(texts[0] == parts[0]@ && texts[1] == parts[1]@ && texts[2] == parts[2]@ && texts[3]
        == parts[3]@);
    match (
        read_octet(parts[0].as_slice()),
        read_octet(parts[1].as_slice()),
        read_octet(parts[2].as_slice()),
        read_octet(parts[3].as_slice()),
    ) {
        (Some(a), Some(b), Some(c), Some(d)) => Some(((a * 256 + b) * 256 + c) * 256 + d),
        _ => None,
    }
}

/// The groups that a vector holds.
spec fn group_values(groups: Seq<u16>) -> Seq<int> {
    groups.map_values(|g: u16| g as int)
}

/// What is no hexadecimal group among the first parts leaves the whole without groups.
proof fn hex_groups_stop(parts: Seq<Seq<char>>, k: int)
    requires
        0 <= k <= parts.len(),
        hex_groups(parts.take(k)) is None,
    ensures
        hex_groups(parts) is None,
    decreases parts.len(),
{
    if k == parts.len() {
        assert(parts.take(k) == parts);
    } else {
        assert(parts.drop_last().take(k) == parts.take(k));
        hex_groups_stop(parts.drop_last(), k);
    }
}

/// Reads the first `count` parts as hexadecimal groups.
fn read_hex_groups(parts: &Vec<Vec<char>>, count: usize) -> (r: Option<Vec<u16>>)
    requires
        count <= parts.len(),
    ensures
        r matches Some(g) ==> hex_groups(text::views(parts@).take(count as int)) == Some(
            group_values(g@),
        ),
        r is None ==> hex_groups(text::views(parts@).take(count as int)) is None,
{
    let ghost texts = text::views(parts@).take(count as int);
    let mut groups: Vec<u16> = Vec::new();
    let mut i: usize = 0;
    assert(texts.take(0) == Seq::<Seq<char>>::empty());
    assert(group_values(groups@) == Seq::<int>::empty());
    while i < count
        invariant
            i <= count <= parts.len(),
            texts == text::views(parts@).take(count as int),
            hex_groups(texts.take(i as int)) == Some(group_values(groups@)),
        decreases count - i,
    {
        let ghost before = group_values(groups@);
        let part: &[char] = parts[i].as_slice();
        proof {
            assert(texts.take(i + 1).drop_last() == texts.take(i as int));
            assert(texts.take(i + 1).last() == part@);
        }
        let group: Option<u32> = if part.len() <= 4 {
            read_number(part, 16, 0xffff)
        } else {
            None
        };
        match group {
            None => {
                proof {
                    hex_groups_stop(texts, i + 1);
                }
                return None;
            },
            Some(g) => {
                proof {
                    number_in_range(part@, 16, 0xffff);
                }
                groups.push(g as u16);
                assert(group_values(groups@) == before.push(g as int));
            },
        }
        i = i + 1;
    }
    assert(texts.take(count as int) == texts);
    Some(groups)
}

/// Reads the groups before a `::`.
fn read_head_groups(s: &[char]) -> (r: Option<Vec<u16>>)
    ensures
        r matches Some(g) ==> head_groups(s@) == Some(group_values(g@)),
        r is None ==> head_groups(s@) is None,
{
    if s.len() == 0 {
        let groups: Vec<u16> = Vec::new();
        assert(group_values(groups@) == Seq::<int>::empty());
        return Some(groups);
    }
    let parts: Vec<Vec<char>> = split_chars(s, ':');
    assert(text::views(parts@).take(parts@.len() as int) == text::views(parts@));
    read_hex_groups(&parts, parts.len())
}

/// Reads the groups at the end of an address.
fn read_tail_groups(s: &[char]) -> (r: Option<Vec<u16>>)
    ensures
        r matches Some(g) ==> tail_groups(s@) == Some(group_values(g@)),
        r is None ==> tail_groups(s@) is None,
{
    if s.len() == 0 {
        let groups: Vec<u16> = Vec::new();
        assert(group_values(groups@) == Seq::<int>::empty());
        return Some(groups);
    }
    let parts: Vec<Vec<char>> = split_chars(s, ':');
    let ghost texts = text::split(s@, ':');
    proof {
        text::split_is_inverse_of_join(s@, ':');
        assert(texts.len() == parts@.len());
        assert(texts.last() == parts@.last()@);
    }
    let last: usize = parts.len() - 1;
    match read_ipv4(parts[last].as_slice()) {
        Some(v4) => {
            assert(texts.take(last as int) == texts.drop_last());
            match read_hex_groups(&parts, last) {
                Some(groups) => {
                    let mut all: Vec<u16> = groups;
                    let ghost front = group_values(all@);
                    let high: u32 = v4 / 0x10000;
                    let low: u32 = v4 % 0x10000;
                    all.push(high as u16);
                    all.push(low as u16);
                    assert(group_values(all@) == front.push(high as int).push(low as int));
                    Some(all)
                },
                None => None,
            }
        },
        None => {
            assert(texts.take(parts@.len() as int) == texts);
            read_hex_groups(&parts, parts.len())
        },
    }
}

/// Finds the first `::`.
fn find_gap(s: &[char]) -> (r: Option<usize>)
    ensures
        r matches Some(k) ==> gap(s@, 0) == Some(k as int) && k + 2 <= s@.len(),
        r is None ==> gap(s@, 0) is None,
{
    let mut i: usize = 0;
    while i < s.len() && s.len() - i >= 2
        invariant
            i <= s.len(),
            gap(s@, 0) == gap(s@, i as int),
        decreases s.len() - i,
    {
        if s[i] == ':' && s[i + 1] == ':' {
            return Some(i);
        }
        i = i + 1;
    }
    None
}

/// The number that eight groups denote.
fn read_groups_value(g: &Vec<u16>) -> (r: u128)
    requires
        g.len() == 8,
    ensures
        r == groups_value(group_values(g@)),
{
    let a: u128 = (g[0] as u128) * 0x10000 + g[1] as u128;
    let b: u128 = (g[2] as u128) * 0x10000 + g[3] as u128;
    let c: u128 = (g[4] as u128) * 0x10000 + g[5] as u128;
    let d: u128 = (g[6] as u128) * 0x10000 + g[7] as u128;
    let high: u128 = a * 0x1_0000_0000 + b;
    let low: u128 = c * 0x1_0000_0000 + d;
    high * 0x1_0000_0000_0000_0000 + low
}

/// Reads an IPv6 address.
fn read_ipv6(s: &[char]) -> (r: Option<u128>)
    ensures
        r matches Some(n) ==> ipv6(s@) == Some(n as int),
        r is None ==> ipv6(s@) is None,
{
    match find_gap(s) {
        None => match read_tail_groups(s) {
            Some(groups) => if groups.len() == 8 {
                Some(read_groups_value(&groups))
            } else {
                None
            },
            None => None,
        },
        Some(k) => {
            let len: usize = s.len();
            let before: &[char] = slice_subrange(s, 0, k);
            let after: &[char] = slice_subrange(s, k + 2, len);
            match (read_head_groups(before), read_tail_groups(after)) {
                (Some(head), Some(tail)) => {
                    if head.len() > 7 || tail.len() > 7 || head.len() + tail.len() > 7 {
                        return None;
                    }
                    let ghost h = group_values(head@);
                    let ghost t = group_values(tail@);
                    let zeros: usize = 8 - head.len() - tail.len();
                    let mut all: Vec<u16> = head;
                    let mut i: usize = 0;
                    while i < zeros
                        invariant
                            i <= zeros,
                            group_values(all@) == h + Seq::new(i as nat, |j: int| 0int),
                        decreases zeros - i,
                    {
                        let ghost front = group_values(all@);
                        all.push(0);
                        i = i + 1;
                        assert(group_values(all@) == front.push(0));
                    }
                    let ghost front = group_values(all@);
                    i = 0;
                    while i < tail.len()
                        invariant
                            i <= tail.len(),
                            t == group_values(tail@),
                            group_values(all@) == front + t.take(i as int),
                        decreases tail.len() - i,
                    {
                        let ghost previous = group_values(all@);
                        all.push(tail[i]);
                        i = i + 1;
                        assert(group_values(all@) == previous.push(tail@[i - 1] as int));
                    }
                    assert(t.take(tail@.len() as int) == t);
                    Some(read_groups_value(&all))
                },
                _ => None,
            }
        },
    }
}

/// Reads an IP address of either family.
pub fn read_ip_address(s: &str) -> (r: Option<IpAddress>)
    ensures
        r == ip_address(s@),
{
    let chars: Vec<char> = chars_of(s);
    match read_ipv4(chars.as_slice()) {
        Some(v4) => Some(IpAddress::V4(v4)),
        None => match read_ipv6(chars.as_slice()) {
            Some(v6) => Some(IpAddress::V6(v6)),
            None => None,
        },
    }
}

/// Reads `address:port` with an IPv4 address.
fn read_socket_address_v4(s: &[char]) -> (r: Option<SocketAddress>)
    ensures
        r == socket_address_v4(s@),
{
    let parts: Vec<Vec<char>> = split_chars(s, ':');
    let ghost texts = text::split(s@, ':');
    assert(texts.len() == parts@.len());
    if parts.len() != 2 {
        return None;
    }
    assert(texts[0] == parts[0]@ && texts[1] == parts[1]@);
    proof {
        number_in_range(texts[1], 10, 0xffff);
    }
    match (read_ipv4(parts[0].as_slice()), read_number(parts[1].as_slice(), 10, 0xffff)) {
        (Some(ip), Some(port)) => Some(SocketAddress::V4 { ipv4: ip, port: port as u16 }),
        _ => None,
    }
}

/// Reads an IPv6 address with its scope.
fn read_scoped_ipv6(s: &[char]) -> (r: Option<(u128, u32)>)
    ensures
        r matches Some((ip, scope)) ==> scoped_ipv6(s@) == Some((ip as int, scope as int)),
        r is None ==> scoped_ipv6(s@) is None,
{
    let parts: Vec<Vec<char>> = split_chars(s, '%');
    let ghost texts = text::split(s@, '%');
    assert(texts.len() == parts@.len());
    if parts.len() == 1 {
        assert(texts[0] == parts[0]@);
        match read_ipv6(parts[0].as_slice()) {
            Some(ip) => Some((ip, 0)),
            None => None,
        }
    } else if parts.len() == 2 {
        assert(texts[0] == parts[0]@ && texts[1] == parts[1]@);
        match (read_ipv6(parts[0].as_slice()), read_number(parts[1].as_slice(), 10, 0xffff_ffff)) {
            (Some(ip), Some(scope)) => Some((ip, scope)),
            _ => None,
        }
    } else {
        None
    }
}

/// Reads `[address]:port` with an IPv6 address.
fn read_socket_address_v6(s: &[char]) -> (r: Option<SocketAddress>)
    ensures
        r == socket_address_v6(s@),
{
    let parts: Vec<Vec<char>> = split_chars(s, ']');
    let ghost texts = text::split(s@, ']');
    assert(texts.len() == parts@.len());
    if parts.len() != 2 {
        return None;
    }
    assert(texts[0] == parts[0]@ && texts[1] == parts[1]@);
    let front: &[char] = parts[0].as_slice();
    let back: &[char] = parts[1].as_slice();
    if front.len() > 0 && front[0] == '[' && back.len() > 0 && back[0] == ':' {
        let inner: &[char] = slice_subrange(front, 1, front.len());
        let port_text: &[char] = slice_subrange(back, 1, back.len());
        proof {
            number_in_range(port_text@, 10, 0xffff);
        }
        match (read_scoped_ipv6(inner), read_number(port_text, 10, 0xffff)) {
            (Some((ip, scope_id)), Some(port)) => Some(
                SocketAddress::V6 { ipv6: ip, port: port as u16, scope_id },
            ),
            _ => None,
        }
    } else {
        None
    }
}

/// Reads a socket address of either family.
pub fn read_socket_address(s: &str) -> (r: Option<SocketAddress>)
    ensures
        r == socket_address(s@),
{
    let chars: Vec<char> = chars_of(s);
    match read_socket_address_v4(chars.as_slice()) {
        Some(address) => Some(address),
        None => read_socket_address_v6(chars.as_slice()),
    }
}

impl SocketAddress {
    /// The socket address with this IP address and port, and no scope.
    pub open spec fn spec_new(ip: IpAddress, port: u16) -> SocketAddress {
        match ip {
            IpAddress::V4(ip) => SocketAddress::V4 { ipv4: ip, port },
            IpAddress::V6(ip) => SocketAddress::V6 { ipv6: ip, port, scope_id: 0 },
        }
    }

    /// The socket address with this IP address and port, and no scope.
    pub fn new(ip: IpAddress, port: u16) -> (r: SocketAddress)
        ensures
            r == SocketAddress::spec_new(ip, port),
    {
        match ip {
            IpAddress::V4(ip) => SocketAddress::V4 { ipv4: ip, port },
            IpAddress::V6(ip) => SocketAddress::V6 { ipv6: ip, port, scope_id: 0 },
        }
    }
}

/// The dotted text of an IPv4 address.
pub open spec fn ipv4_text(ip: u32) -> Seq<char> {
    text::join(
        seq![
            text::decimal((ip / 0x1000000) as nat),
            text::decimal((ip / 0x10000 % 256) as nat),
            text::decimal((ip / 0x100 % 256) as nat),
            text::decimal((ip % 256) as nat),
        ],
        '.',
    )
}

/// An octet is exactly the decimal text of a number up to 255.
proof fn octet_is_decimal(s: Seq<char>)
    ensures
        octet(s) matches Some(n) ==> 0 <= n <= 255 && s == text::decimal(n as nat),
{
    if octet(s) is Some {
        number_in_range(s, 10, 255);
        text::decimal_is_unique(s);
    }
}

/// The decimal text of a number up to 255 is an octet, and holds digits only.
proof fn decimal_is_octet(n: nat)
    requires
        n <= 255,
    ensures
        octet(text::decimal(n)) == Some(n as int),
        !text::decimal(n).contains('.'),
        !text::decimal(n).contains(':'),
{
    text::decimal_is_read_back(n);
    text::decimal_length(n);
    if text::decimal(n).contains('.') {
        text::digits_are_digits(text::decimal(n), 10, '.');
    }
    if text::decimal(n).contains(':') {
        text::digits_are_digits(text::decimal(n), 10, ':');
    }
}

/// The decimal texts of the four octets of an address.
spec fn octet_texts(ip: u32) -> Seq<Seq<char>> {
    seq![
        text::decimal((ip / 0x1000000) as nat),
        text::decimal((ip / 0x10000 % 256) as nat),
        text::decimal((ip / 0x100 % 256) as nat),
        text::decimal((ip % 256) as nat),
    ]
}

/// The dotted text of an IPv4 address is read back as that address.
#[verifier::spinoff_prover]
pub proof fn ipv4_is_read_back(ip: u32)
    ensures
        ipv4(ipv4_text(ip)) == Some(ip as int),
{
    let texts = octet_texts(ip);
    decimal_is_octet((ip / 0x1000000) as nat);
    decimal_is_octet((ip / 0x10000 % 256) as nat);
    decimal_is_octet((ip / 0x100 % 256) as nat);
    decimal_is_octet((ip % 256) as nat);
    text::join_is_inverse_of_split(texts, '.');
    assert(text::split(ipv4_text(ip), '.') == texts);
}

/// A text that denotes an IPv4 address is the dotted text of that address.
#[verifier::spinoff_prover]
proof fn ipv4_is_its_text(s: Seq<char>, ip: u32)
    requires
        ipv4(s) == Some(ip as int),
    ensures
        s == ipv4_text(ip),
{
    let parts = text::split(s, '.');
    text::split_is_inverse_of_join(s, '.');
    octet_is_decimal(parts[0]);
    octet_is_decimal(parts[1]);
    octet_is_decimal(parts[2]);
    octet_is_decimal(parts[3]);
    assert(parts == octet_texts(ip));
}

/// A text denotes an IPv4 address exactly when it is that address's dotted text: each address has
/// one text form and no other text is accepted.
pub proof fn ipv4_has_one_text(s: Seq<char>, ip: u32)
    ensures
        ipv4(s) == Some(ip as int) <==> s == ipv4_text(ip),
{
    if s == ipv4_text(ip) {
        ipv4_is_read_back(ip);
    }
    if ipv4(s) == Some(ip as int) {
        ipv4_is_its_text(s, ip);
    }
}

/// The characters of an IPv4 address.
pub proof fn ipv4_characters(s: Seq<char>, c: char)
    requires
        ipv4(s) is Some,
        s.contains(c),
    ensures
        c == '.' || text::digit_value(c, 10) is Some,
        0 <= ipv4(s)->0 <= u32::MAX,
{
    let parts = text::split(s, '.');
    text::split_is_inverse_of_join(s, '.');
    octet_is_decimal(parts[0]);
    octet_is_decimal(parts[1]);
    octet_is_decimal(parts[2]);
    octet_is_decimal(parts[3]);
    if c != '.' {
        text::joined_characters(parts, '.', c);
        let i = choose|i: int| 0 <= i < parts.len() && (#[trigger] parts[i]).contains(c);
        assert(octet(parts[i]) is Some);
        text::digits_are_digits(parts[i], 10, c);
    }
}

/// The characters of hexadecimal groups.
proof fn hex_groups_characters(parts: Seq<Seq<char>>, i: int, c: char)
    requires
        hex_groups(parts) is Some,
        0 <= i < parts.len(),
        parts[i].contains(c),
    ensures
        text::digit_value(c, 16) is Some,
    decreases parts.len(),
{
    if i == parts.len() - 1 {
        text::digits_are_digits(parts[i], 16, c);
    } else {
        hex_groups_characters(parts.drop_last(), i, c);
    }
}

/// Whether `c` can stand in an IPv6 address.
pub open spec fn is_ipv6_character(c: char) -> bool {
    c == ':' || c == '.' || text::digit_value(c, 16) is Some
}

/// The characters of the groups before a `::`.
proof fn head_groups_characters(s: Seq<char>, c: char)
    requires
        head_groups(s) is Some,
        s.contains(c),
    ensures
        is_ipv6_character(c),
{
    let parts = text::split(s, ':');
    text::split_is_inverse_of_join(s, ':');
    if c != ':' {
        text::joined_characters(parts, ':', c);
        let i = choose|i: int| 0 <= i < parts.len() && (#[trigger] parts[i]).contains(c);
        hex_groups_characters(parts, i, c);
    }
}

/// The characters of the groups at the end of an address.
proof fn tail_groups_characters(s: Seq<char>, c: char)
    requires
        tail_groups(s) is Some,
        s.contains(c),
    ensures
        is_ipv6_character(c),
{
    let parts = text::split(s, ':');
    text::split_is_inverse_of_join(s, ':');
    if c != ':' {
        text::joined_characters(parts, ':', c);
        let i = choose|i: int| 0 <= i < parts.len() && (#[trigger] parts[i]).contains(c);
        if ipv4(parts.last()) is Some {
            if i == parts.len() - 1 {
                ipv4_characters(parts.last(), c);
            } else {
                assert(parts.drop_last()[i] == parts[i]);
                hex_groups_characters(parts.drop_last(), i, c);
            }
        } else {
            hex_groups_characters(parts, i, c);
        }
    }
}

/// What stands where a `::` was found.
proof fn gap_is_two_colons(s: Seq<char>, from: int)
    requires
        0 <= from,
    ensures
        gap(s, from) matches Some(k) ==> from <= k && k + 1 < s.len() && s[k] == ':' && s[k + 1]
            == ':',
    decreases s.len() - from,
{
    if from + 1 < s.len() && !(s[from] == ':' && s[from + 1] == ':') {
        gap_is_two_colons(s, from + 1);
    }
}

/// The characters of an IPv6 address.
pub proof fn ipv6_characters(s: Seq<char>, c: char)
    requires
        ipv6(s) is Some,
        s.contains(c),
    ensures
        is_ipv6_character(c),
{
    match gap(s, 0) {
        None => {
            tail_groups_characters(s, c);
        },
        Some(k) => {
            gap_is_two_colons(s, 0);
            let i = s.index_of(c);
            if i < k {
                assert(s.take(k)[i] == c);
                head_groups_characters(s.take(k), c);
            } else if i >= k + 2 {
                assert(s.skip(k + 2)[i - k - 2] == c);
                tail_groups_characters(s.skip(k + 2), c);
            }
        },
    }
}

/// The text of an IP address text with a port: an IPv6 address stands in brackets.
pub open spec fn with_port(ip_text: Seq<char>, port: u16) -> Seq<char> {
    if ipv4(ip_text) is Some {
        ip_text.push(':') + text::decimal(port as nat)
    } else {
        bracketed(ip_text, port)
    }
}

/// A port in decimal is read back, and holds digits only.
proof fn port_is_read_back(port: u16)
    ensures
        text::number(text::decimal(port as nat), 10, 0xffff) == Some(port as int),
        forall|c: char|
            text::digit_value(c, 10) is None ==> !(#[trigger] text::decimal(port as nat).contains(c)),
{
    text::decimal_is_read_back(port as nat);
    assert forall|c: char|
        text::digit_value(c, 10) is None implies !(#[trigger] text::decimal(port as nat).contains(
        c,
    )) by {
        if text::decimal(port as nat).contains(c) {
            text::digits_are_digits(text::decimal(port as nat), 10, c);
        }
    }
}

/// No text that holds a bracket is an IPv4 address with a port.
pub proof fn bracketed_is_not_v4(s: Seq<char>)
    requires
        s.contains('['),
    ensures
        socket_address_v4(s) is None,
{
    if socket_address_v4(s) is Some {
        let parts = text::split(s, ':');
        text::split_is_inverse_of_join(s, ':');
        text::joined_characters(parts, ':', '[');
        let i = choose|i: int| 0 <= i < parts.len() && (#[trigger] parts[i]).contains('[');
        if i == 0 {
            ipv4_characters(parts[0], '[');
        } else {
            text::digits_are_digits(parts[1], 10, '[');
        }
    }
}

/// The text of an IPv6 address, with or without a scope, in brackets and with a port.
pub open spec fn bracketed(inner: Seq<char>, port: u16) -> Seq<char> {
    seq!['['] + inner + seq![']', ':'] + text::decimal(port as nat)
}

/// An IPv6 address in brackets with a port denotes the socket address of address, scope and port.
#[verifier::spinoff_prover]
pub proof fn bracketed_is_read_back(inner: Seq<char>, ip: int, scope: int, port: u16)
    requires
        scoped_ipv6(inner) == Some((ip, scope)),
        !inner.contains(']'),
    ensures
        socket_address(bracketed(inner, port)) == Some(
            (SocketAddress::V6 { ipv6: ip as u128, port, scope_id: scope as u32 }),
        ),
{
    let port_text = text::decimal(port as nat);
    let s = bracketed(inner, port);
    let front = seq!['['] + inner;
    let back = seq![':'] + port_text;
    port_is_read_back(port);
    assert(text::split(s, ']') == seq![front, back]) by {
        assert(!front.contains(']')) by {
            if front.contains(']') {
                let i = front.index_of(']');
                assert(inner[i - 1] == ']');
            }
        }
        assert(!back.contains(']')) by {
            if back.contains(']') {
                let i = back.index_of(']');
                assert(port_text[i - 1] == ']');
                assert(port_text.contains(']'));
            }
        }
        assert(s == front.push(']') + back);
        text::split_of_two(front, back, ']');
    }
    assert(front.skip(1) == inner);
    assert(back.skip(1) == port_text);
    assert(s[0] == '[');
    bracketed_is_not_v4(s);
}

/// The IPv6 case of `address_with_port`.
proof fn ipv6_with_port(ip_text: Seq<char>, port: u16)
    requires
        ipv4(ip_text) is None,
        ipv6(ip_text) is Some,
    ensures
        socket_address(with_port(ip_text, port)) == Some(
            SocketAddress::spec_new(IpAddress::V6(ipv6(ip_text)->0 as u128), port),
        ),
{
    assert(!ip_text.contains(']')) by {
        if ip_text.contains(']') {
            ipv6_characters(ip_text, ']');
        }
    }
    assert(!ip_text.contains('%')) by {
        if ip_text.contains('%') {
            ipv6_characters(ip_text, '%');
        }
    }
    text::split_of_one(ip_text, '%');
    bracketed_is_read_back(ip_text, ipv6(ip_text)->0, 0, port);
}

/// An IP address text with a port denotes the socket address of that IP address and that port.
pub proof fn address_with_port(ip_text: Seq<char>, port: u16)
    ensures
        ip_address(ip_text) matches Some(ip) ==> socket_address(with_port(ip_text, port)) == Some(
            SocketAddress::spec_new(ip, port),
        ),
{
    if ipv4(ip_text) is Some {
        let port_text = text::decimal(port as nat);
        port_is_read_back(port);
        if ip_text.contains(':') {
            ipv4_characters(ip_text, ':');
        }
        text::split_of_two(ip_text, port_text, ':');
    } else if ipv6(ip_text) is Some {
        ipv6_with_port(ip_text, port);
    }
}

} // verus!

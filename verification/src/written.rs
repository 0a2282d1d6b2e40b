//! How addresses are written.
//!
//! The longest run of zero groups of an IPv6 address is written `::`, the others in lower-case
//! hexadecimal; an IPv4-mapped address ends in dotted decimal. What is written is read back.

use crate::address;
use crate::address::{IpAddress, SocketAddress};
use crate::spelling;
use crate::text;
use vstd::prelude::*;

verus! {

/// The `count` lowest groups of `n`, most significant first.
pub open spec fn low_groups(n: nat, count: nat) -> Seq<int>
    decreases count,
{
    if count == 0 {
        Seq::empty()
    } else {
        low_groups(n / 0x10000, (count - 1) as nat).push((n % 0x10000) as int)
    }
}

/// The eight groups of an IPv6 address.
pub open spec fn groups(ip: u128) -> Seq<int> {
    low_groups(ip as nat, 8)
}

/// How many zero groups follow each other from `i` on.
pub open spec fn zeros_from(g: Seq<int>, i: int) -> int
    decreases g.len() - i,
{
    if 0 <= i < g.len() && g[i] == 0 {
        1 + zeros_from(g, i + 1)
    } else {
        0
    }
}

/// The first of the first `n` positions from which the most zero groups follow.
pub open spec fn longest_run(g: Seq<int>, n: int) -> int
    decreases n,
{
    if n <= 1 {
        0
    } else {
        let best = longest_run(g, n - 1);
        if zeros_from(g, n - 1) > zeros_from(g, best) {
            n - 1
        } else {
            best
        }
    }
}

/// The texts of groups, each in hexadecimal.
pub open spec fn group_texts(g: Seq<int>) -> Seq<Seq<char>> {
    g.map_values(|x: int| text::hex(x as nat))
}

/// Groups with colons between them.
pub open spec fn groups_text(g: Seq<int>) -> Seq<char> {
    text::join(group_texts(g), ':')
}

/// Groups with `::` in place of those from `start` to `end`.
pub open spec fn compressed_text(g: Seq<int>, start: int, end: int) -> Seq<char> {
    groups_text(g.take(start)) + seq![':', ':'] + groups_text(g.skip(end))
}

/// The text of an IPv6 address: `::ffff:` and dotted decimal for an IPv4-mapped one, else the
/// groups in hexadecimal with the first of the longest runs of two or more zeros as `::`.
pub open spec fn ipv6_text(ip: u128) -> Seq<char> {
    let g = groups(ip);
    let start = longest_run(g, 8);
    let run = zeros_from(g, start);
    if ip / 0x1_0000_0000 == 0xffff {
        seq![':', ':', 'f', 'f', 'f', 'f', ':'] + address::ipv4_text((ip % 0x1_0000_0000) as u32)
    } else if run > 1 {
        compressed_text(g, start, start + run)
    } else {
        groups_text(g)
    }
}

/// The text of an IP address of either family.
pub open spec fn ip_text(ip: IpAddress) -> Seq<char> {
    match ip {
        IpAddress::V4(ip) => address::ipv4_text(ip),
        IpAddress::V6(ip) => ipv6_text(ip),
    }
}

/// The text of a socket address. A scope is written where it is not zero.
pub open spec fn socket_text(a: SocketAddress) -> Seq<char> {
    match a {
        SocketAddress::V4 { ipv4, port } => address::ipv4_text(ipv4).push(':') + text::decimal(
            port as nat,
        ),
        SocketAddress::V6 { ipv6, port, scope_id } => if scope_id == 0 {
            address::bracketed(ipv6_text(ipv6), port)
        } else {
            address::bracketed(ipv6_text(ipv6).push('%') + text::decimal(scope_id as nat), port)
        },
    }
}

/// Groups are sixteen bits wide.
spec fn are_groups(g: Seq<int>) -> bool {
    forall|i: int| 0 <= i < g.len() ==> 0 <= #[trigger] g[i] <= 0xffff
}

/// There are `count` lowest groups, each sixteen bits wide.
proof fn low_groups_are_groups(n: nat, count: nat)
    ensures
        low_groups(n, count).len() == count,
        are_groups(low_groups(n, count)),
    decreases count,
{
    if count > 0 {
        low_groups_are_groups(n / 0x10000, (count - 1) as nat);
    }
}

/// The groups of an address denote it.
proof fn groups_denote(ip: u128)
    ensures
        groups(ip).len() == 8,
        are_groups(groups(ip)),
        address::groups_value(groups(ip)) == ip,
{
    low_groups_are_groups(ip as nat, 8);
    let n1 = ip as nat / 0x10000;
    let n2 = n1 / 0x10000;
    let n3 = n2 / 0x10000;
    let n4 = n3 / 0x10000;
    let n5 = n4 / 0x10000;
    let n6 = n5 / 0x10000;
    let n7 = n6 / 0x10000;
    assert(n7 < 0x10000);
    reveal_with_fuel(low_groups, 9);
    let g = groups(ip);
    assert(g[7] == ip as nat % 0x10000);
    assert(g[6] == n1 % 0x10000);
    assert(g[5] == n2 % 0x10000);
    assert(g[4] == n3 % 0x10000);
    assert(g[3] == n4 % 0x10000);
    assert(g[2] == n5 % 0x10000);
    assert(g[1] == n6 % 0x10000);
    assert(g[0] == n7 % 0x10000);
}

/// The hexadecimal text of a group is a group, and holds hexadecimal digits only.
proof fn hex_is_group(x: int)
    requires
        0 <= x <= 0xffff,
    ensures
        address::hex_group(text::hex(x as nat)) == Some(x),
        text::hex(x as nat).len() > 0,
        !text::hex(x as nat).contains(':'),
        !text::hex(x as nat).contains('.'),
{
    let s = text::hex(x as nat);
    text::hex_is_read_back(x as nat);
    text::hex_length(x as nat);
    if s.contains(':') {
        text::digits_are_digits(s, 16, ':');
    }
    if s.contains('.') {
        text::digits_are_digits(s, 16, '.');
    }
}

/// The texts of groups are read back as those groups.
proof fn group_texts_are_read_back(g: Seq<int>)
    requires
        are_groups(g),
    ensures
        address::hex_groups(group_texts(g)) == Some(g),
    decreases g.len(),
{
    if g.len() == 0 {
        assert(g == Seq::<int>::empty());
    } else {
        let init = g.drop_last();
        assert(are_groups(init));
        group_texts_are_read_back(init);
        hex_is_group(g.last());
        assert(group_texts(g).drop_last() == group_texts(init));
        assert(init.push(g.last()) == g);
    }
}

/// Groups with colons between them begin and end with a digit and hold no `::`.
proof fn groups_text_has_no_gap(g: Seq<int>)
    requires
        are_groups(g),
    ensures
        g.len() > 0 ==> groups_text(g).len() > 0 && groups_text(g)[0] != ':' && groups_text(
            g,
        ).last() != ':',
        g.len() == 0 ==> groups_text(g).len() == 0,
        forall|i: int| !(#[trigger] spelling::colons_at(groups_text(g), i)),
{
    let parts = group_texts(g);
    assert forall|i: int| 0 <= i < parts.len() implies #[trigger] spelling::is_plain(parts[i]) by {
        hex_is_group(g[i]);
    }
    spelling::plain_parts_have_no_gap(parts);
}

/// Written groups split into the texts of the groups.
proof fn groups_text_splits(g: Seq<int>)
    requires
        are_groups(g),
        g.len() > 0,
    ensures
        text::split(groups_text(g), ':') == group_texts(g),
{
    let parts = group_texts(g);
    assert forall|i: int| 0 <= i < parts.len() implies !(#[trigger] parts[i]).contains(':') by {
        hex_is_group(g[i]);
    }
    text::join_is_inverse_of_split(parts, ':');
}

/// Written groups are read back before a `::` and at the end of an address.
proof fn groups_text_is_read_back(g: Seq<int>)
    requires
        are_groups(g),
    ensures
        address::head_groups(groups_text(g)) == Some(g),
        address::tail_groups(groups_text(g)) == Some(g),
{
    groups_text_has_no_gap(g);
    group_texts_are_read_back(g);
    if g.len() == 0 {
        assert(g == Seq::<int>::empty());
    } else {
        groups_text_splits(g);
        let last = text::hex(g.last() as nat);
        assert(group_texts(g).last() == last);
        hex_is_group(g.last());
        text::split_of_one(last, '.');
        assert(address::ipv4(last) is None);
    }
}

/// Eight groups with `::` in place of zero groups are read back, whichever run of them it is.
proof fn compressed_is_read_back(g: Seq<int>, start: int, end: int)
    requires
        g.len() == 8,
        are_groups(g),
        0 <= start < end <= 8,
        forall|i: int| start <= i < end ==> #[trigger] g[i] == 0,
    ensures
        address::ipv6_groups(compressed_text(g, start, end)) == Some(g),
{
    let head = g.take(start);
    let tail = g.skip(end);
    let h = groups_text(head);
    let t = groups_text(tail);
    let s = compressed_text(g, start, end);
    assert(are_groups(head));
    assert(are_groups(tail)) by {
        assert forall|i: int| 0 <= i < tail.len() implies 0 <= #[trigger] tail[i] <= 0xffff by {
            assert(tail[i] == g[end + i]);
        }
    }
    groups_text_has_no_gap(head);
    groups_text_is_read_back(head);
    groups_text_is_read_back(tail);
    let k = h.len() as int;
    assert(spelling::colons_at(s, k));
    assert forall|i: int| 0 <= i < k implies !(#[trigger] spelling::colons_at(s, i)) by {
        if spelling::colons_at(s, i) {
            if i + 1 < k {
                assert(spelling::colons_at(h, i));
            } else {
                assert(s[i] == h.last());
            }
        }
    }
    spelling::first_gap(s, 0, k);
    assert(s.take(k) == h);
    assert(s.skip(k + 2) == t);
    let zeros = Seq::new((8 - head.len() - tail.len()) as nat, |i: int| 0int);
    assert(head + zeros + tail == g);
}

/// From a position on, as many zero groups follow as are counted.
proof fn zeros_are_zeros(g: Seq<int>, i: int)
    requires
        0 <= i <= g.len(),
    ensures
        0 <= zeros_from(g, i) <= g.len() - i,
        forall|j: int| i <= j < i + zeros_from(g, i) ==> #[trigger] g[j] == 0,
    decreases g.len() - i,
{
    if i < g.len() && g[i] == 0 {
        zeros_are_zeros(g, i + 1);
    }
}

/// The longest run begins inside the groups.
proof fn longest_run_in_range(g: Seq<int>, n: int)
    requires
        1 <= n,
    ensures
        0 <= longest_run(g, n) < n,
    decreases n,
{
    if n > 1 {
        longest_run_in_range(g, n - 1);
    }
}

/// An IPv4-mapped address is read back.
proof fn mapped_is_read_back(ip: u128)
    requires
        ip / 0x1_0000_0000 == 0xffff,
    ensures
        address::ipv6(ipv6_text(ip)) == Some(ip as int),
{
    let v4 = (ip % 0x1_0000_0000) as u32;
    let v4_text = address::ipv4_text(v4);
    let ffff = seq!['f', 'f', 'f', 'f'];
    let s = ipv6_text(ip);
    address::ipv4_is_read_back(v4);
    assert(text::hex(0xffff) == ffff) by {
        reveal_with_fuel(text::hex, 5);
    }
    hex_is_group(0xffff);
    assert(!v4_text.contains(':')) by {
        if v4_text.contains(':') {
            address::ipv4_characters(v4_text, ':');
        }
    }
    assert(address::gap(s, 0) == Some(0int));
    assert(s.take(0) == Seq::<char>::empty());
    assert(s.skip(2) == ffff.push(':') + v4_text);
    text::split_of_two(ffff, v4_text, ':');
    let parts = seq![ffff, v4_text];
    assert(parts.drop_last() == seq![ffff]);
    assert(group_texts(seq![0xffffint]) == seq![ffff]);
    group_texts_are_read_back(seq![0xffffint]);
    let tail = seq![0xffffint].push(v4 as int / 0x10000).push(v4 as int % 0x10000);
    assert(address::tail_groups(s.skip(2)) == Some(tail));
    let all = Seq::<int>::empty() + Seq::new(5, |i: int| 0int) + tail;
    assert(address::ipv6_groups(s) == Some(all));
    assert(address::groups_value(all) == ip);
}

/// Every IPv6 address is read back from its text.
pub proof fn ipv6_is_read_back(ip: u128)
    ensures
        address::ipv6(ipv6_text(ip)) == Some(ip as int),
{
    let g = groups(ip);
    groups_denote(ip);
    let start = longest_run(g, 8);
    let run = zeros_from(g, start);
    longest_run_in_range(g, 8);
    zeros_are_zeros(g, start);
    if ip / 0x1_0000_0000 == 0xffff {
        mapped_is_read_back(ip);
    } else if run > 1 {
        compressed_is_read_back(g, start, start + run);
    } else {
        groups_text_has_no_gap(g);
        spelling::no_gap(groups_text(g), 0);
        groups_text_is_read_back(g);
    }
}

/// No text is both an IPv4 and an IPv6 address.
pub proof fn families_are_apart(s: Seq<char>)
    ensures
        address::ipv4(s) is None || address::ipv6(s) is None,
{
    if address::ipv4(s) is Some {
        assert(!s.contains(':')) by {
            if s.contains(':') {
                address::ipv4_characters(s, ':');
            }
        }
        assert forall|i: int| !(#[trigger] spelling::colons_at(s, i)) by {
            if spelling::colons_at(s, i) {
                assert(s.contains(s[i]));
            }
        }
        spelling::no_gap(s, 0);
        text::split_of_one(s, ':');
        assert(seq![s].drop_last() == Seq::<Seq<char>>::empty());
    }
}

/// Every IP address is read back from its text.
pub proof fn ip_address_is_read_back(ip: IpAddress)
    ensures
        address::ip_address(ip_text(ip)) == Some(ip),
{
    match ip {
        IpAddress::V4(ip) => address::ipv4_is_read_back(ip),
        IpAddress::V6(ip) => {
            ipv6_is_read_back(ip);
            families_are_apart(ipv6_text(ip));
        },
    }
}

/// Every socket address is read back from its text.
pub proof fn socket_address_is_read_back(a: SocketAddress)
    ensures
        address::socket_address(socket_text(a)) == Some(a),
{
    match a {
        SocketAddress::V4 { ipv4, port } => {
            address::ipv4_is_read_back(ipv4);
            address::address_with_port(address::ipv4_text(ipv4), port);
        },
        SocketAddress::V6 { ipv6, port, scope_id } => {
            let ip_text = ipv6_text(ipv6);
            let scope_text = text::decimal(scope_id as nat);
            ipv6_is_read_back(ipv6);
            assert(!ip_text.contains('%')) by {
                if ip_text.contains('%') {
                    address::ipv6_characters(ip_text, '%');
                }
            }
            assert(!ip_text.contains(']')) by {
                if ip_text.contains(']') {
                    address::ipv6_characters(ip_text, ']');
                }
            }
            if scope_id == 0 {
                text::split_of_one(ip_text, '%');
                address::bracketed_is_read_back(ip_text, ipv6 as int, 0, port);
            } else {
                let inner = ip_text.push('%') + scope_text;
                text::decimal_is_read_back(scope_id as nat);
                assert(!scope_text.contains('%')) by {
                    if scope_text.contains('%') {
                        text::digits_are_digits(scope_text, 10, '%');
                    }
                }
                assert(!scope_text.contains(']')) by {
                    if scope_text.contains(']') {
                        text::digits_are_digits(scope_text, 10, ']');
                    }
                }
                text::split_of_two(ip_text, scope_text, '%');
                assert(!inner.contains(']')) by {
                    if inner.contains(']') {
                        let i = inner.index_of(']');
                        if i < ip_text.len() {
                            assert(ip_text[i] == ']');
                        } else if i > ip_text.len() {
                            assert(scope_text[i - ip_text.len() - 1] == ']');
                        }
                    }
                }
                address::bracketed_is_read_back(inner, ipv6 as int, scope_id as int, port);
            }
        },
    }
}

} // verus!

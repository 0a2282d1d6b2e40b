//! Which texts denote which address.
//!
//! An address has many texts: groups in either letter case and with zeros on the left, `::` for any
//! run of zero groups, an IPv4 address for the last two groups, a port and a scope with zeros on
//! the left. These are all of them, and no other text denotes an address.

use crate::address;
use crate::address::{read_ip_address, read_socket_address, IpAddress, SocketAddress};
use crate::text;
use crate::written;
use vstd::prelude::*;

verus! {

/// Whether `p` is a group of an IPv6 address with the value `v`: one to four hexadecimal digits.
pub open spec fn is_group(p: Seq<char>, v: int) -> bool {
    1 <= p.len() <= 4 && text::digits_value(p, 16) == Some(v)
}

/// Whether the parts are groups with these values.
pub open spec fn are_groups(parts: Seq<Seq<char>>, g: Seq<int>) -> bool {
    parts.len() == g.len() && forall|i: int| 0 <= i < parts.len() ==> #[trigger] is_group(
        parts[i],
        g[i],
    )
}

/// Four octets in decimal with dots between them.
pub open spec fn dotted(a: u8, b: u8, c: u8, d: u8) -> Seq<char> {
    text::decimal(a as nat) + seq!['.'] + text::decimal(b as nat) + seq!['.'] + text::decimal(
        c as nat,
    ) + seq!['.'] + text::decimal(d as nat)
}

/// Whether the parts end in four dotted octets, which are the last two of the groups.
pub open spec fn are_groups_and_octets(
    parts: Seq<Seq<char>>,
    g: Seq<int>,
    a: u8,
    b: u8,
    c: u8,
    d: u8,
) -> bool {
    &&& parts.len() > 0
    &&& g.len() == parts.len() + 1
    &&& are_groups(parts.drop_last(), g.take(g.len() - 2))
    &&& parts.last() == dotted(a, b, c, d)
    &&& g[g.len() - 2] == a * 256 + b
    &&& g[g.len() - 1] == c * 256 + d
}

/// Whether the parts spell these groups at the end of an address.
pub open spec fn are_last_groups(parts: Seq<Seq<char>>, g: Seq<int>) -> bool {
    are_groups(parts, g) || exists|a: u8, b: u8, c: u8, d: u8|
        are_groups_and_octets(parts, g, a, b, c, d)
}

/// The number that groups denote, most significant first.
pub open spec fn number_of(g: Seq<int>) -> int
    decreases g.len(),
{
    if g.len() == 0 {
        0
    } else {
        number_of(g.drop_last()) * 0x10000 + g.last()
    }
}

/// The groups with as many zeros between them as eight groups need.
pub open spec fn with_zeros(head: Seq<int>, tail: Seq<int>) -> Seq<int> {
    head + Seq::new((8 - head.len() - tail.len()) as nat, |i: int| 0int) + tail
}

/// Parts with `::` between the first and the last of them.
pub open spec fn with_gap(head: Seq<Seq<char>>, tail: Seq<Seq<char>>) -> Seq<char> {
    text::join(head, ':') + seq![':', ':'] + text::join(tail, ':')
}

/// Eight groups denote the same number however it is put together.
proof fn eight_groups(g: Seq<int>)
    requires
        g.len() == 8,
    ensures
        address::groups_value(g) == number_of(g),
{
    reveal_with_fuel(number_of, 9);
    let g7 = g.drop_last();
    let g6 = g7.drop_last();
    let g5 = g6.drop_last();
    let g4 = g5.drop_last();
    let g3 = g4.drop_last();
    let g2 = g3.drop_last();
    let g1 = g2.drop_last();
    assert(g1.drop_last().len() == 0);
    assert(number_of(g1) == g[0]);
    assert(number_of(g2) == g[0] * 0x10000 + g[1]);
    assert(number_of(g3) == number_of(g2) * 0x10000 + g[2]);
    assert(number_of(g4) == number_of(g3) * 0x10000 + g[3]);
    assert(number_of(g5) == number_of(g4) * 0x10000 + g[4]);
    assert(number_of(g6) == number_of(g5) * 0x10000 + g[5]);
    assert(number_of(g7) == number_of(g6) * 0x10000 + g[6]);
    assert(number_of(g) == number_of(g7) * 0x10000 + g[7]);
}

/// Eight groups of sixteen bits denote a number of 128 bits.
proof fn eight_groups_in_range(g: Seq<int>)
    requires
        g.len() == 8,
        forall|i: int| 0 <= i < 8 ==> 0 <= #[trigger] g[i] <= 0xffff,
    ensures
        0 <= address::groups_value(g) <= u128::MAX,
{
    assert(0 <= g[0] <= 0xffff && 0 <= g[1] <= 0xffff && 0 <= g[2] <= 0xffff
        && 0 <= g[3] <= 0xffff);
    assert(0 <= g[4] <= 0xffff && 0 <= g[5] <= 0xffff && 0 <= g[6] <= 0xffff
        && 0 <= g[7] <= 0xffff);
}

/// Digits of a run of at most four denote at most sixteen bits.
proof fn group_in_range(p: Seq<char>)
    requires
        p.len() <= 4,
    ensures
        text::digits_value(p, 16) matches Some(n) ==> 0 <= n <= 0xffff,
{
    reveal_with_fuel(text::digits_value, 5);
}

/// A group is what one part of an address may be.
proof fn group_is_hex_group(p: Seq<char>, v: int)
    ensures
        is_group(p, v) <==> address::hex_group(p) == Some(v),
        is_group(p, v) ==> 0 <= v <= 0xffff && !p.contains(':') && !p.contains('.'),
{
    if p.len() <= 4 {
        group_in_range(p);
    }
    if is_group(p, v) {
        if p.contains(':') {
            text::digits_are_digits(p, 16, ':');
        }
        if p.contains('.') {
            text::digits_are_digits(p, 16, '.');
        }
    }
}

/// Parts are groups exactly when they are read as such.
proof fn groups_are_hex_groups(parts: Seq<Seq<char>>, g: Seq<int>)
    ensures
        are_groups(parts, g) <==> address::hex_groups(parts) == Some(g),
    decreases parts.len(),
{
    if parts.len() == 0 {
        if are_groups(parts, g) {
            assert(g == Seq::<int>::empty());
        }
    } else {
        let init = parts.drop_last();
        if are_groups(parts, g) {
            let front = g.drop_last();
            assert forall|i: int| 0 <= i < init.len() implies #[trigger] is_group(
                init[i],
                front[i],
            ) by {
                assert(is_group(parts[i], g[i]));
            }
            groups_are_hex_groups(init, front);
            assert(is_group(parts[parts.len() - 1], g[parts.len() - 1]));
            group_is_hex_group(parts.last(), g.last());
            assert(g == front.push(g.last()));
        }
        if address::hex_groups(parts) == Some(g) {
            let front = address::hex_groups(init)->0;
            let last = address::hex_group(parts.last())->0;
            groups_are_hex_groups(init, front);
            group_is_hex_group(parts.last(), last);
            assert(g == front.push(last));
            assert forall|i: int| 0 <= i < parts.len() implies #[trigger] is_group(
                parts[i],
                g[i],
            ) by {
                if i < init.len() {
                    assert(is_group(init[i], front[i]));
                }
            }
        }
    }
}

/// The dotted text of four octets is their parts joined.
proof fn dotted_is_joined(a: u8, b: u8, c: u8, d: u8)
    ensures
        dotted(a, b, c, d) == text::join(
            seq![
                text::decimal(a as nat),
                text::decimal(b as nat),
                text::decimal(c as nat),
                text::decimal(d as nat),
            ],
            '.',
        ),
{
    let p1 = seq![text::decimal(a as nat)];
    let p2 = p1.push(text::decimal(b as nat));
    let p3 = p2.push(text::decimal(c as nat));
    let p4 = p3.push(text::decimal(d as nat));
    text::one_more_part(p1, text::decimal(a as nat), '.');
    text::one_more_part(p1, text::decimal(b as nat), '.');
    text::one_more_part(p2, text::decimal(c as nat), '.');
    text::one_more_part(p3, text::decimal(d as nat), '.');
    assert(p4 == seq![
        text::decimal(a as nat),
        text::decimal(b as nat),
        text::decimal(c as nat),
        text::decimal(d as nat),
    ]);
}

/// The number that four octets denote, most significant first.
pub open spec fn octets_number(a: u8, b: u8, c: u8, d: u8) -> u32 {
    (((a * 256 + b) * 256 + c) * 256 + d) as u32
}

/// Four dotted octets are the text of their number.
proof fn dotted_is_text(a: u8, b: u8, c: u8, d: u8)
    ensures
        dotted(a, b, c, d) == address::ipv4_text(octets_number(a, b, c, d)),
        octets_number(a, b, c, d) == ((a * 256 + b) * 256 + c) * 256 + d,
{
    let n = octets_number(a, b, c, d);
    dotted_is_joined(a, b, c, d);
    assert(n / 0x1000000 == a);
    assert(n / 0x10000 % 256 == b);
    assert(n / 0x100 % 256 == c);
    assert(n % 256 == d);
}

/// Four octets in decimal with dots between them denote the IPv4 address of these octets.
pub proof fn octets_are_read(a: u8, b: u8, c: u8, d: u8)
    ensures
        address::ip_address(
            text::decimal(a as nat) + seq!['.'] + text::decimal(b as nat) + seq!['.']
                + text::decimal(c as nat) + seq!['.'] + text::decimal(d as nat),
        ) == Some(IpAddress::V4((((a * 256 + b) * 256 + c) * 256 + d) as u32)),
        ((a * 256 + b) * 256 + c) * 256 + d <= u32::MAX,
{
    dotted_is_text(a, b, c, d);
    address::ipv4_is_read_back(octets_number(a, b, c, d));
}

/// Only four octets in decimal with dots between them denote an IPv4 address.
#[verifier::spinoff_prover]
pub proof fn ipv4_addresses_are_octets(s: Seq<char>, ip: u32)
    requires
        address::ip_address(s) == Some(IpAddress::V4(ip)),
    ensures
        exists|a: u8, b: u8, c: u8, d: u8| s == #[trigger] dotted(a, b, c, d) && ip
            == octets_number(a, b, c, d),
{
    ipv4_value_in_range(s);
    address::ipv4_has_one_text(s, ip);
    let a = (ip / 0x1000000) as u8;
    let b = (ip / 0x10000 % 256) as u8;
    let c = (ip / 0x100 % 256) as u8;
    let d = (ip % 256) as u8;
    assert(((a * 256 + b) * 256 + c) * 256 + d == ip);
    dotted_is_text(a, b, c, d);
    assert(s == dotted(a, b, c, d));
}

/// What stands between the dots of an IPv4 address: four numbers of at most 255 without a zero on
/// the left, which are its bytes.
#[verifier::spinoff_prover]
pub proof fn parts_of_an_ipv4_address(s: Seq<char>, parts: Seq<Seq<char>>, ip: u32, i: int)
    requires
        address::ip_address(s) == Some(IpAddress::V4(ip)),
        parts == text::split(s, '.'),
        0 <= i < 4,
    ensures
        parts.len() == 4,
        1 <= parts[i].len() <= 3,
        parts[i][0] == '0' ==> parts[i].len() == 1,
        text::digits_value(parts[i], 10) matches Some(n) && 0 <= n <= 255,
        ip == ((text::digits_value(parts[0], 10)->0 * 256 + text::digits_value(parts[1], 10)->0)
            * 256 + text::digits_value(parts[2], 10)->0) * 256 + text::digits_value(
            parts[3],
            10,
        )->0,
{
    ipv4_value_in_range(s);
    octet_in_range(parts[0]);
    octet_in_range(parts[1]);
    octet_in_range(parts[2]);
    octet_in_range(parts[3]);
}

/// An octet is a number of at most 255 without a zero on the left.
proof fn octet_in_range(p: Seq<char>)
    ensures
        address::octet(p) matches Some(n) ==> 0 <= n <= 255 && 1 <= p.len() <= 3 && (p[0] == '0'
            ==> p.len() == 1) && text::digits_value(p, 10) == Some(n),
{
    digits_are_not_negative(p);
}

/// An IPv4 text denotes a number of 32 bits.
proof fn ipv4_value_in_range(s: Seq<char>)
    ensures
        address::ipv4(s) matches Some(n) ==> 0 <= n <= u32::MAX,
{
    if address::ipv4(s) is Some {
        if s.len() == 0 {
            assert(text::split(s, '.').len() == 1);
        } else {
            assert(s.contains(s[0]));
            address::ipv4_characters(s, s[0]);
        }
    }
}

/// Whether a part is neither empty nor holds a colon.
pub open spec fn is_plain(p: Seq<char>) -> bool {
    p.len() > 0 && !p.contains(':')
}

/// Whether two colons follow each other at `i`.
pub open spec fn colons_at(s: Seq<char>, i: int) -> bool {
    0 <= i && i + 1 < s.len() && s[i] == ':' && s[i + 1] == ':'
}

/// Plain parts with colons between them begin and end with another character and hold no `::`.
pub proof fn plain_parts_have_no_gap(parts: Seq<Seq<char>>)
    requires
        forall|i: int| 0 <= i < parts.len() ==> is_plain(#[trigger] parts[i]),
    ensures
        parts.len() > 0 ==> text::join(parts, ':').len() > 0 && text::join(parts, ':')[0] != ':'
            && text::join(parts, ':').last() != ':',
        parts.len() == 0 ==> text::join(parts, ':').len() == 0,
        forall|i: int| !(#[trigger] colons_at(text::join(parts, ':'), i)),
    decreases parts.len(),
{
    if parts.len() > 0 {
        let last = parts.last();
        let s = text::join(parts, ':');
        assert(is_plain(parts[parts.len() - 1]));
        assert(last.contains(last[0]));
        assert(last.contains(last.last()));
        if parts.len() == 1 {
            assert(s == last);
            assert forall|i: int| !(#[trigger] colons_at(s, i)) by {
                if colons_at(s, i) {
                    assert(last.contains(s[i]));
                }
            }
        } else {
            let init = parts.drop_last();
            assert forall|i: int| 0 <= i < init.len() implies is_plain(#[trigger] init[i]) by {
                assert(is_plain(parts[i]));
            }
            plain_parts_have_no_gap(init);
            let front = text::join(init, ':');
            assert(s == front.push(':') + last);
            assert forall|i: int| !(#[trigger] colons_at(s, i)) by {
                if colons_at(s, i) {
                    if i + 1 < front.len() {
                        assert(colons_at(front, i));
                    } else if i + 1 == front.len() {
                        assert(s[i] == front.last());
                    } else {
                        assert(last.contains(s[i + 1]));
                    }
                }
            }
        }
    }
}

/// A text without `::` has no gap.
pub proof fn no_gap(s: Seq<char>, from: int)
    requires
        0 <= from,
        forall|i: int| !(#[trigger] colons_at(s, i)),
    ensures
        address::gap(s, from) is None,
    decreases s.len() - from,
{
    assert(!colons_at(s, from));
    if from + 1 < s.len() {
        no_gap(s, from + 1);
    }
}

/// The first `::` is the gap.
pub proof fn first_gap(s: Seq<char>, from: int, k: int)
    requires
        0 <= from <= k,
        colons_at(s, k),
        forall|i: int| from <= i < k ==> !(#[trigger] colons_at(s, i)),
    ensures
        address::gap(s, from) == Some(k),
    decreases k - from,
{
    if from < k {
        assert(!colons_at(s, from));
        first_gap(s, from + 1, k);
    }
}

/// Plain parts split as they were joined.
proof fn plain_parts_split(parts: Seq<Seq<char>>)
    requires
        parts.len() > 0,
        forall|i: int| 0 <= i < parts.len() ==> is_plain(#[trigger] parts[i]),
    ensures
        text::split(text::join(parts, ':'), ':') == parts,
{
    assert forall|i: int| 0 <= i < parts.len() implies !(#[trigger] parts[i]).contains(':') by {
        assert(is_plain(parts[i]));
    }
    text::join_is_inverse_of_split(parts, ':');
}

/// Dotted octets are plain, and are read as the two groups that they stand for.
proof fn dotted_is_plain(a: u8, b: u8, c: u8, d: u8)
    ensures
        is_plain(dotted(a, b, c, d)),
        address::ipv4(dotted(a, b, c, d)) == Some(octets_number(a, b, c, d) as int),
        octets_number(a, b, c, d) / 0x10000 == a * 256 + b,
        octets_number(a, b, c, d) % 0x10000 == c * 256 + d,
        dotted(a, b, c, d).contains('.'),
{
    let s = dotted(a, b, c, d);
    dotted_is_text(a, b, c, d);
    address::ipv4_is_read_back(octets_number(a, b, c, d));
    if s.contains(':') {
        address::ipv4_characters(s, ':');
    }
    assert(s[text::decimal(a as nat).len() as int] == '.');
    assert(octets_number(a, b, c, d) == (a * 256 + b) * 0x10000 + (c * 256 + d));
}

/// A group is no IPv4 address.
proof fn group_is_not_ipv4(p: Seq<char>, v: int)
    requires
        is_group(p, v),
    ensures
        address::ipv4(p) is None,
{
    group_is_hex_group(p, v);
    text::split_of_one(p, '.');
}

/// Groups are plain.
proof fn groups_are_plain(parts: Seq<Seq<char>>, g: Seq<int>)
    requires
        are_groups(parts, g),
    ensures
        forall|i: int| 0 <= i < parts.len() ==> is_plain(#[trigger] parts[i]),
{
    assert forall|i: int| 0 <= i < parts.len() implies is_plain(#[trigger] parts[i]) by {
        assert(is_group(parts[i], g[i]));
        group_is_hex_group(parts[i], g[i]);
    }
}

/// The parts at the end of an address are plain and are read as their groups, each of which is
/// sixteen bits wide.
#[verifier::spinoff_prover]
proof fn last_groups_are_read(parts: Seq<Seq<char>>, g: Seq<int>)
    requires
        are_last_groups(parts, g),
    ensures
        forall|i: int| 0 <= i < parts.len() ==> is_plain(#[trigger] parts[i]),
        address::tail_groups(text::join(parts, ':')) == Some(g),
        forall|i: int| 0 <= i < g.len() ==> 0 <= #[trigger] g[i] <= 0xffff,
{
    if are_groups(parts, g) {
        groups_are_plain(parts, g);
        groups_are_hex_groups(parts, g);
        plain_parts_have_no_gap(parts);
        if parts.len() > 0 {
            plain_parts_split(parts);
            assert(is_group(parts[parts.len() - 1], g[parts.len() - 1]));
            group_is_not_ipv4(parts.last(), g.last());
        } else {
            assert(g == Seq::<int>::empty());
        }
        assert forall|i: int| 0 <= i < g.len() implies 0 <= #[trigger] g[i] <= 0xffff by {
            assert(is_group(parts[i], g[i]));
            group_is_hex_group(parts[i], g[i]);
        }
    } else {
        let (a, b, c, d) = choose|a: u8, b: u8, c: u8, d: u8|
            are_groups_and_octets(parts, g, a, b, c, d);
        let init = parts.drop_last();
        let front = g.take(g.len() - 2);
        dotted_is_plain(a, b, c, d);
        groups_are_plain(init, front);
        groups_are_hex_groups(init, front);
        assert forall|i: int| 0 <= i < parts.len() implies is_plain(#[trigger] parts[i]) by {
            if i < init.len() {
                assert(is_plain(init[i]));
            }
        }
        plain_parts_have_no_gap(parts);
        plain_parts_split(parts);
        assert(g == front.push(a * 256 + b).push(c * 256 + d));
        assert forall|i: int| 0 <= i < g.len() implies 0 <= #[trigger] g[i] <= 0xffff by {
            if i < front.len() {
                assert(is_group(init[i], front[i]));
                group_is_hex_group(init[i], front[i]);
            }
        }
    }
}

/// Eight groups with colons between them, each of one to four hexadecimal digits in either letter
/// case, denote the IPv6 address of these groups; dotted octets may stand for the last two.
#[verifier::spinoff_prover]
pub proof fn eight_groups_are_read(parts: Seq<Seq<char>>, g: Seq<int>)
    requires
        are_last_groups(parts, g),
        g.len() == 8,
    ensures
        address::ip_address(text::join(parts, ':')) == Some(IpAddress::V6(number_of(g) as u128)),
        0 <= number_of(g) <= u128::MAX,
{
    let s = text::join(parts, ':');
    last_groups_are_read(parts, g);
    plain_parts_have_no_gap(parts);
    no_gap(s, 0);
    eight_groups(g);
    eight_groups_in_range(g);
    written::families_are_apart(s);
}

/// `::` stands for as many zero groups as are missing, one or more, wherever it stands.
#[verifier::spinoff_prover]
pub proof fn gap_is_read(
    head: Seq<Seq<char>>,
    head_groups: Seq<int>,
    tail: Seq<Seq<char>>,
    tail_groups: Seq<int>,
)
    requires
        are_groups(head, head_groups),
        are_last_groups(tail, tail_groups),
        head_groups.len() + tail_groups.len() <= 7,
    ensures
        address::ip_address(with_gap(head, tail)) == Some(
            IpAddress::V6(number_of(with_zeros(head_groups, tail_groups)) as u128),
        ),
        0 <= number_of(with_zeros(head_groups, tail_groups)) <= u128::MAX,
{
    let h = text::join(head, ':');
    let t = text::join(tail, ':');
    let s = with_gap(head, tail);
    let k = h.len() as int;
    let all = with_zeros(head_groups, tail_groups);
    groups_are_plain(head, head_groups);
    plain_parts_have_no_gap(head);
    groups_are_hex_groups(head, head_groups);
    last_groups_are_read(tail, tail_groups);
    if head.len() > 0 {
        plain_parts_split(head);
    } else {
        assert(head_groups == Seq::<int>::empty());
    }
    assert(address::head_groups(h) == Some(head_groups));
    assert(colons_at(s, k));
    assert forall|i: int| 0 <= i < k implies !(#[trigger] colons_at(s, i)) by {
        if colons_at(s, i) {
            if i + 1 < k {
                assert(colons_at(h, i));
            } else {
                assert(s[i] == h.last());
            }
        }
    }
    first_gap(s, 0, k);
    assert(s.take(k) == h);
    assert(s.skip(k + 2) == t);
    assert(address::ipv6_groups(s) == Some(all));
    assert forall|i: int| 0 <= i < 8 implies 0 <= #[trigger] all[i] <= 0xffff by {
        if i < head.len() {
            assert(is_group(head[i], head_groups[i]));
            group_is_hex_group(head[i], head_groups[i]);
        } else if i >= 8 - tail_groups.len() {
            assert(all[i] == tail_groups[i - (8 - tail_groups.len())]);
        }
    }
    eight_groups(all);
    eight_groups_in_range(all);
    written::families_are_apart(s);
}

/// Whether `s` spells eight groups out.
pub open spec fn spells_out(s: Seq<char>, parts: Seq<Seq<char>>, g: Seq<int>) -> bool {
    are_last_groups(parts, g) && g.len() == 8 && s == text::join(parts, ':')
}

/// Whether `s` spells groups with a gap.
pub open spec fn spells_with_gap(
    s: Seq<char>,
    head: Seq<Seq<char>>,
    head_groups: Seq<int>,
    tail: Seq<Seq<char>>,
    tail_groups: Seq<int>,
) -> bool {
    &&& are_groups(head, head_groups)
    &&& are_last_groups(tail, tail_groups)
    &&& head_groups.len() + tail_groups.len() <= 7
    &&& s == with_gap(head, tail)
}

/// What is read as the groups at the end of an address spells them.
#[verifier::spinoff_prover]
proof fn tail_groups_are_spelled(s: Seq<char>, g: Seq<int>) -> (parts: Seq<Seq<char>>)
    requires
        address::tail_groups(s) == Some(g),
    ensures
        are_last_groups(parts, g),
        s == text::join(parts, ':'),
{
    if s.len() == 0 {
        assert(are_groups(Seq::empty(), g));
        assert(s == text::join(Seq::<Seq<char>>::empty(), ':'));
        Seq::empty()
    } else {
        let parts = text::split(s, ':');
        text::split_is_inverse_of_join(s, ':');
        match address::ipv4(parts.last()) {
            Some(v4) => {
                let last = parts.last();
                ipv4_value_in_range(last);
                ipv4_addresses_are_octets(last, v4 as u32);
                let (a, b, c, d) = choose|a: u8, b: u8, c: u8, d: u8|
                    last == #[trigger] dotted(a, b, c, d) && v4 as u32 == octets_number(a, b, c, d);
                dotted_is_plain(a, b, c, d);
                let front = address::hex_groups(parts.drop_last())->0;
                groups_are_hex_groups(parts.drop_last(), front);
                assert(g.take(g.len() - 2) == front);
                assert(are_groups_and_octets(parts, g, a, b, c, d));
            },
            None => {
                groups_are_hex_groups(parts, g);
            },
        }
        parts
    }
}

/// What is read as the groups before a `::` spells them.
proof fn head_groups_are_spelled(s: Seq<char>, g: Seq<int>) -> (parts: Seq<Seq<char>>)
    requires
        address::head_groups(s) == Some(g),
    ensures
        are_groups(parts, g),
        s == text::join(parts, ':'),
{
    if s.len() == 0 {
        assert(s == text::join(Seq::<Seq<char>>::empty(), ':'));
        Seq::empty()
    } else {
        text::split_is_inverse_of_join(s, ':');
        groups_are_hex_groups(text::split(s, ':'), g);
        text::split(s, ':')
    }
}

/// Where a `::` is found, it stands.
proof fn gap_is_colons(s: Seq<char>, from: int)
    requires
        0 <= from,
    ensures
        address::gap(s, from) matches Some(k) ==> from <= k && colons_at(s, k),
    decreases s.len() - from,
{
    if from + 1 < s.len() && !colons_at(s, from) {
        gap_is_colons(s, from + 1);
    }
}

/// Only texts that spell the groups of an IPv6 address, all eight or with one gap, denote it.
#[verifier::spinoff_prover]
pub proof fn ipv6_addresses_are_groups(s: Seq<char>, ip: u128)
    requires
        address::ip_address(s) == Some(IpAddress::V6(ip)),
    ensures
        (exists|parts: Seq<Seq<char>>, g: Seq<int>|
            (#[trigger] spells_out(s, parts, g)) && ip == number_of(g)) || (exists|
            head: Seq<Seq<char>>,
            head_groups: Seq<int>,
            tail: Seq<Seq<char>>,
            tail_groups: Seq<int>,
        |
            (#[trigger] spells_with_gap(s, head, head_groups, tail, tail_groups)) && ip
                == number_of(with_zeros(head_groups, tail_groups))),
{
    match address::gap(s, 0) {
        None => {
            let g = address::tail_groups(s)->0;
            let parts = tail_groups_are_spelled(s, g);
            assert(spells_out(s, parts, g));
            eight_groups_are_read(parts, g);
        },
        Some(k) => {
            gap_is_colons(s, 0);
            let hg = address::head_groups(s.take(k))->0;
            let tg = address::tail_groups(s.skip(k + 2))->0;
            let head = head_groups_are_spelled(s.take(k), hg);
            let tail = tail_groups_are_spelled(s.skip(k + 2), tg);
            assert(s == s.take(k) + seq![':', ':'] + s.skip(k + 2));
            assert(spells_with_gap(s, head, hg, tail, tg));
            gap_is_read(head, hg, tail, tg);
        },
    }
}

/// Two lists of parts joined one after the other have a separator between them.
proof fn join_of_both(a: Seq<Seq<char>>, b: Seq<Seq<char>>, sep: char)
    requires
        a.len() > 0,
        b.len() > 0,
    ensures
        text::join(a + b, sep) == text::join(a, sep).push(sep) + text::join(b, sep),
    decreases b.len(),
{
    let init = b.drop_last();
    assert((a + b).drop_last() == a + init);
    if b.len() == 1 {
        assert(a + init == a);
    } else {
        join_of_both(a, init, sep);
        assert(text::join(a + b, sep) == text::join(a + init, sep).push(sep) + b.last());
        assert(text::join(b, sep) == text::join(init, sep).push(sep) + b.last());
    }
}

/// The parts of a text with no character: one empty part.
spec fn or_empty(parts: Seq<Seq<char>>) -> Seq<Seq<char>> {
    if parts.len() == 0 {
        seq![Seq::<char>::empty()]
    } else {
        parts
    }
}

/// A text with a gap is its parts joined, with an empty part where the gap is.
proof fn gap_is_an_empty_part(head: Seq<Seq<char>>, tail: Seq<Seq<char>>)
    ensures
        with_gap(head, tail) == text::join(
            or_empty(head) + seq![Seq::<char>::empty()] + or_empty(tail),
            ':',
        ),
{
    let h = or_empty(head);
    let t = or_empty(tail);
    let gap = seq![Seq::<char>::empty()];
    join_of_both(gap, t, ':');
    join_of_both(h, gap + t, ':');
    assert(h + (gap + t) == h + gap + t);
    assert(text::join(h, ':') == text::join(head, ':'));
    assert(text::join(t, ':') == text::join(tail, ':'));
}

/// A group may be replaced by one with the same value.
proof fn replaced_groups(parts: Seq<Seq<char>>, g: Seq<int>, i: int, p: Seq<char>)
    requires
        are_groups(parts, g),
        0 <= i < parts.len(),
        1 <= p.len() <= 4,
        text::digits_value(p, 16) == text::digits_value(parts[i], 16),
    ensures
        are_groups(parts.update(i, p), g),
{
    let other = parts.update(i, p);
    assert forall|j: int| 0 <= j < other.len() implies #[trigger] is_group(other[j], g[j]) by {
        assert(is_group(parts[j], g[j]));
    }
}

/// A group at the end of an address may be replaced by one with the same value.
proof fn replaced_last_groups(parts: Seq<Seq<char>>, g: Seq<int>, i: int, p: Seq<char>)
    requires
        are_last_groups(parts, g),
        0 <= i < parts.len(),
        1 <= p.len() <= 4,
        text::digits_value(p, 16) == text::digits_value(parts[i], 16),
        !parts[i].contains('.'),
    ensures
        are_last_groups(parts.update(i, p), g),
{
    if are_groups(parts, g) {
        replaced_groups(parts, g, i, p);
    } else {
        let (a, b, c, d) = choose|a: u8, b: u8, c: u8, d: u8|
            are_groups_and_octets(parts, g, a, b, c, d);
        dotted_is_plain(a, b, c, d);
        let init = parts.drop_last();
        assert(i < init.len());
        replaced_groups(init, g.take(g.len() - 2), i, p);
        assert(parts.update(i, p).drop_last() == init.update(i, p));
        assert(are_groups_and_octets(parts.update(i, p), g, a, b, c, d));
    }
}

/// The parts of a text with a gap.
#[verifier::spinoff_prover]
proof fn parts_with_gap(
    head: Seq<Seq<char>>,
    head_groups: Seq<int>,
    tail: Seq<Seq<char>>,
    tail_groups: Seq<int>,
)
    requires
        are_groups(head, head_groups),
        are_last_groups(tail, tail_groups),
    ensures
        text::split(with_gap(head, tail), ':') == or_empty(head) + seq![Seq::<char>::empty()]
            + or_empty(tail),
{
    let parts = or_empty(head) + seq![Seq::<char>::empty()] + or_empty(tail);
    groups_are_plain(head, head_groups);
    last_groups_are_read(tail, tail_groups);
    assert forall|i: int| 0 <= i < parts.len() implies !(#[trigger] parts[i]).contains(':') by {
        if i < or_empty(head).len() {
            if head.len() > 0 {
                assert(is_plain(head[i]));
            }
        } else if i > or_empty(head).len() {
            let j = i - or_empty(head).len() - 1;
            assert(parts[i] == or_empty(tail)[j]);
            if tail.len() > 0 {
                assert(is_plain(tail[j]));
            }
        }
    }
    gap_is_an_empty_part(head, tail);
    text::join_is_inverse_of_split(parts, ':');
}

/// A group of an IPv6 address text may be replaced by any other one to four hexadecimal digits that
/// denote the same, whatever their letter case and their zeros on the left: the address stays.
#[verifier::spinoff_prover]
#[verifier::rlimit(30)]
pub proof fn equal_groups_denote_the_same(s: Seq<char>, ip: u128, i: int, p: Seq<char>)
    requires
        address::ip_address(s) == Some(IpAddress::V6(ip)),
        0 <= i < text::split(s, ':').len(),
        text::split(s, ':')[i].len() > 0,
        !text::split(s, ':')[i].contains('.'),
        1 <= p.len() <= 4,
        text::digits_value(p, 16) == text::digits_value(text::split(s, ':')[i], 16),
    ensures
        address::ip_address(text::join(text::split(s, ':').update(i, p), ':')) == Some(
            IpAddress::V6(ip),
        ),
{
    let all = text::split(s, ':');
    ipv6_addresses_are_groups(s, ip);
    if exists|parts: Seq<Seq<char>>, g: Seq<int>|
        (#[trigger] spells_out(s, parts, g)) && ip == number_of(g) {
        let (parts, g) = choose|parts: Seq<Seq<char>>, g: Seq<int>|
            (#[trigger] spells_out(s, parts, g)) && ip == number_of(g);
        last_groups_are_read(parts, g);
        assert(parts.len() > 0);
        plain_parts_split(parts);
        replaced_last_groups(parts, g, i, p);
        eight_groups_are_read(parts.update(i, p), g);
    } else {
        let (head, hg, tail, tg) = choose|
            head: Seq<Seq<char>>,
            head_groups: Seq<int>,
            tail: Seq<Seq<char>>,
            tail_groups: Seq<int>,
        |
            (#[trigger] spells_with_gap(s, head, head_groups, tail, tail_groups)) && ip
                == number_of(with_zeros(head_groups, tail_groups));
        let gap = seq![Seq::<char>::empty()];
        let before = or_empty(head);
        parts_with_gap(head, hg, tail, tg);
        if i < before.len() {
            assert(all[i] == before[i]);
            replaced_groups(head, hg, i, p);
            gap_is_an_empty_part(head.update(i, p), tail);
            assert(all.update(i, p) == head.update(i, p) + gap + or_empty(tail));
            gap_is_read(head.update(i, p), hg, tail, tg);
        } else {
            let j = i - before.len() - 1;
            assert(i != before.len());
            assert(all[i] == or_empty(tail)[j]);
            replaced_last_groups(tail, tg, j, p);
            gap_is_an_empty_part(head, tail.update(j, p));
            assert(all.update(i, p) == before + gap + tail.update(j, p));
            gap_is_read(head, hg, tail.update(j, p), tg);
        }
    }
}

/// A group of an IPv6 address text may be padded with a zero on its left, as long as it has at most
/// four digits: the address stays the same.
pub proof fn padded_group_denotes_the_same(s: Seq<char>, ip: u128, i: int)
    requires
        address::ip_address(s) == Some(IpAddress::V6(ip)),
        0 <= i < text::split(s, ':').len(),
        1 <= text::split(s, ':')[i].len() < 4,
        !text::split(s, ':')[i].contains('.'),
    ensures
        address::ip_address(
            text::join(
                text::split(s, ':').update(i, seq!['0'] + text::split(s, ':')[i]),
                ':',
            ),
        ) == Some(IpAddress::V6(ip)),
{
    let p = seq!['0'] + text::split(s, ':')[i];
    text::leading_zero_changes_nothing(text::split(s, ':')[i], 16);
    equal_groups_denote_the_same(s, ip, i, p);
}

/// Whether `p` is a decimal number text with the value `v`: one digit or more.
pub open spec fn is_number(p: Seq<char>, v: int) -> bool {
    p.len() > 0 && text::digits_value(p, 10) == Some(v)
}

/// A decimal number text holds digits only.
proof fn number_has_no(p: Seq<char>, v: int, c: char)
    requires
        is_number(p, v),
        text::digit_value(c, 10) is None,
    ensures
        !p.contains(c),
{
    if p.contains(c) {
        text::digits_are_digits(p, 10, c);
    }
}

/// An IPv4 address, a colon and a port denote the socket address of the two.
pub proof fn ipv4_and_port_are_read(
    ip_text: Seq<char>,
    ip: u32,
    port_text: Seq<char>,
    port: u16,
)
    requires
        address::ip_address(ip_text) == Some(IpAddress::V4(ip)),
        port_text.len() > 0,
        text::digits_value(port_text, 10) == Some(port as int),
    ensures
        address::socket_address(ip_text + seq![':'] + port_text) == Some(
            (SocketAddress::V4 { ipv4: ip, port }),
        ),
{
    ipv4_value_in_range(ip_text);
    assert(!ip_text.contains(':')) by {
        if ip_text.contains(':') {
            address::ipv4_characters(ip_text, ':');
        }
    }
    number_has_no(port_text, port as int, ':');
    assert(ip_text + seq![':'] + port_text == ip_text.push(':') + port_text);
    text::split_of_two(ip_text, port_text, ':');
}

/// An IPv6 address in brackets, a colon and a port denote the socket address of the two, with no
/// scope.
#[verifier::spinoff_prover]
pub proof fn ipv6_and_port_are_read(
    ip_text: Seq<char>,
    ip: u128,
    port_text: Seq<char>,
    port: u16,
)
    requires
        address::ip_address(ip_text) == Some(IpAddress::V6(ip)),
        port_text.len() > 0,
        text::digits_value(port_text, 10) == Some(port as int),
    ensures
        address::socket_address(seq!['['] + ip_text + seq![']', ':'] + port_text) == Some(
            (SocketAddress::V6 { ipv6: ip, port, scope_id: 0 }),
        ),
{
    ipv6_value(ip_text, ip);
    assert(!ip_text.contains('%')) by {
        if ip_text.contains('%') {
            address::ipv6_characters(ip_text, '%');
        }
    }
    assert(!ip_text.contains(']')) by {
        if ip_text.contains(']') {
            address::ipv6_characters(ip_text, ']');
        }
    }
    text::split_of_one(ip_text, '%');
    brackets_are_read(ip_text, ip, 0, port_text, port);
}

/// A scope stands after the IPv6 address and a percent sign, inside the brackets.
#[verifier::spinoff_prover]
#[verifier::rlimit(30)]
pub proof fn ipv6_scope_and_port_are_read(
    ip_text: Seq<char>,
    ip: u128,
    scope_text: Seq<char>,
    scope_id: u32,
    port_text: Seq<char>,
    port: u16,
)
    requires
        address::ip_address(ip_text) == Some(IpAddress::V6(ip)),
        scope_text.len() > 0,
        text::digits_value(scope_text, 10) == Some(scope_id as int),
        port_text.len() > 0,
        text::digits_value(port_text, 10) == Some(port as int),
    ensures
        address::socket_address(
            seq!['['] + ip_text + seq!['%'] + scope_text + seq![']', ':'] + port_text,
        ) == Some((SocketAddress::V6 { ipv6: ip, port, scope_id })),
{
    let inner = ip_text + seq!['%'] + scope_text;
    scope_is_read(ip_text, ip, scope_text, scope_id);
    brackets_are_read(inner, ip, scope_id, port_text, port);
    assert(seq!['['] + inner == seq!['['] + ip_text + seq!['%'] + scope_text);
}

/// An IPv6 address, a percent sign and a number are an address with a scope.
#[verifier::spinoff_prover]
proof fn scope_is_read(ip_text: Seq<char>, ip: u128, scope_text: Seq<char>, scope_id: u32)
    requires
        address::ip_address(ip_text) == Some(IpAddress::V6(ip)),
        is_number(scope_text, scope_id as int),
    ensures
        address::scoped_ipv6(ip_text + seq!['%'] + scope_text) == Some(
            (ip as int, scope_id as int),
        ),
        !(ip_text + seq!['%'] + scope_text).contains(']'),
{
    let inner = ip_text + seq!['%'] + scope_text;
    ipv6_value(ip_text, ip);
    assert(!ip_text.contains('%')) by {
        if ip_text.contains('%') {
            address::ipv6_characters(ip_text, '%');
        }
    }
    assert(!ip_text.contains(']')) by {
        if ip_text.contains(']') {
            address::ipv6_characters(ip_text, ']');
        }
    }
    number_has_no(scope_text, scope_id as int, '%');
    number_has_no(scope_text, scope_id as int, ']');
    assert(text::split(inner, '%') == seq![ip_text, scope_text]) by {
        assert(inner == ip_text.push('%') + scope_text);
        text::split_of_two(ip_text, scope_text, '%');
    }
    if inner.contains(']') {
        let i = inner.index_of(']');
        if i < ip_text.len() {
            assert(ip_text[i] == ']');
        } else if i > ip_text.len() {
            assert(scope_text[i - ip_text.len() - 1] == ']');
        }
    }
}

/// The number of an IPv6 address.
#[verifier::spinoff_prover]
proof fn ipv6_value(s: Seq<char>, ip: u128)
    requires
        address::ip_address(s) == Some(IpAddress::V6(ip)),
    ensures
        address::ipv6(s) == Some(ip as int),
{
    match address::gap(s, 0) {
        None => {
            let g = address::tail_groups(s)->0;
            let parts = tail_groups_are_spelled(s, g);
            last_groups_are_read(parts, g);
            eight_groups_in_range(g);
        },
        Some(k) => {
            let hg = address::head_groups(s.take(k))->0;
            let tg = address::tail_groups(s.skip(k + 2))->0;
            let head = head_groups_are_spelled(s.take(k), hg);
            let tail = tail_groups_are_spelled(s.skip(k + 2), tg);
            let all = with_zeros(hg, tg);
            last_groups_are_read(tail, tg);
            assert(address::ipv6_groups(s) == Some(all));
            assert forall|i: int| 0 <= i < 8 implies 0 <= #[trigger] all[i] <= 0xffff by {
                if i < head.len() {
                    assert(is_group(head[i], hg[i]));
                    group_is_hex_group(head[i], hg[i]);
                } else if i >= 8 - tg.len() {
                    assert(all[i] == tg[i - (8 - tg.len())]);
                }
            }
            eight_groups_in_range(all);
        },
    }
}

/// What stands in brackets is read together with the port after them.
#[verifier::spinoff_prover]
proof fn brackets_are_read(
    inner: Seq<char>,
    ip: u128,
    scope_id: u32,
    port_text: Seq<char>,
    port: u16,
)
    requires
        address::scoped_ipv6(inner) == Some((ip as int, scope_id as int)),
        !inner.contains(']'),
        is_number(port_text, port as int),
    ensures
        address::socket_address(seq!['['] + inner + seq![']', ':'] + port_text) == Some(
            (SocketAddress::V6 { ipv6: ip, port, scope_id }),
        ),
{
    let s = seq!['['] + inner + seq![']', ':'] + port_text;
    let front = seq!['['] + inner;
    let back = seq![':'] + port_text;
    number_has_no(port_text, port as int, ']');
    assert(text::split(s, ']') == seq![front, back]) by {
        assert(!front.contains(']')) by {
            if front.contains(']') {
                let i = front.index_of(']');
                assert(inner[i - 1] == ']');
            }
        }
        assert(!back.contains(']')) by {
            if back.contains(']') {
                let i = back.index_of(']');
                assert(port_text[i - 1] == ']');
            }
        }
        assert(s == front.push(']') + back);
        text::split_of_two(front, back, ']');
    }
    assert(front.skip(1) == inner);
    assert(back.skip(1) == port_text);
    assert(s[0] == '[');
    address::bracketed_is_not_v4(s);
}

/// Digits denote no negative number.
proof fn digits_are_not_negative(s: Seq<char>)
    ensures
        text::digits_value(s, 10) matches Some(n) ==> n >= 0,
{
    text::digits_value_grows(s, 10, 0);
}

/// Only an IPv4 address, a colon and a port denote an IPv4 socket address.
pub proof fn v4_sockets_are_address_and_port(s: Seq<char>, ip: u32, port: u16)
    requires
        address::socket_address(s) == Some((SocketAddress::V4 { ipv4: ip, port })),
    ensures
        text::split(s, ':').len() == 2,
        address::ip_address(text::split(s, ':')[0]) == Some(IpAddress::V4(ip)),
        text::split(s, ':')[1].len() > 0,
        text::digits_value(text::split(s, ':')[1], 10) == Some(port as int),
{
    digits_are_not_negative(text::split(s, ':')[1]);
}

/// Only an IPv6 address in brackets, with a scope or none, a colon and a port denote an IPv6
/// socket address.
#[verifier::spinoff_prover]
pub proof fn v6_sockets_are_address_and_port(
    s: Seq<char>,
    inner: Seq<char>,
    ip: u128,
    scope_id: u32,
    port: u16,
)
    requires
        address::socket_address(s) == Some((SocketAddress::V6 { ipv6: ip, port, scope_id })),
        inner == text::split(s, ']')[0].skip(1),
    ensures
        text::split(s, ']').len() == 2,
        text::split(s, ']')[0].len() > 0 && text::split(s, ']')[0][0] == '[',
        text::split(s, ']')[1].len() > 1 && text::split(s, ']')[1][0] == ':',
        text::digits_value(text::split(s, ']')[1].skip(1), 10) == Some(port as int),
        address::ip_address(text::split(inner, '%')[0]) == Some(IpAddress::V6(ip)),
        text::split(inner, '%').len() == 1 ==> scope_id == 0,
        text::split(inner, '%').len() != 1 ==> text::split(inner, '%').len() == 2 && text::split(
            inner,
            '%',
        )[1].len() > 0 && text::digits_value(text::split(inner, '%')[1], 10) == Some(
            scope_id as int,
        ),
{
    let inside = text::split(inner, '%');
    digits_are_not_negative(text::split(s, ']')[1].skip(1));
    written::families_are_apart(inside[0]);
    if inside.len() == 2 {
        digits_are_not_negative(inside[1]);
    }
}

/// Zeros on the left of the port change nothing.
pub proof fn padded_port_denotes_the_same(
    ip_text: Seq<char>,
    ip: u32,
    port_text: Seq<char>,
    port: u16,
)
    requires
        address::ip_address(ip_text) == Some(IpAddress::V4(ip)),
        port_text.len() > 0,
        text::digits_value(port_text, 10) == Some(port as int),
    ensures
        address::socket_address(ip_text + seq![':'] + (seq!['0'] + port_text))
            == address::socket_address(ip_text + seq![':'] + port_text),
{
    text::leading_zero_changes_nothing(port_text, 10);
    ipv4_and_port_are_read(ip_text, ip, port_text, port);
    ipv4_and_port_are_read(ip_text, ip, seq!['0'] + port_text, port);
}

/// What is read as an IP address is what the text denotes.
pub proof fn ip_addresses_are_read(s: &str, r: Option<IpAddress>)
    requires
        call_ensures(read_ip_address, (s,), r),
    ensures
        r == address::ip_address(s@),
{
}

/// What is read as a socket address is what the text denotes.
pub proof fn socket_addresses_are_read(s: &str, r: Option<SocketAddress>)
    requires
        call_ensures(read_socket_address, (s,), r),
    ensures
        r == address::socket_address(s@),
{
}

/// A socket address is read from an IP address text that is read by itself, and a port.
pub proof fn address_and_port_are_read_together(
    ip_text: &str,
    ip: Option<IpAddress>,
    port_text: Seq<char>,
    port: u16,
    s: &str,
    r: Option<SocketAddress>,
)
    requires
        call_ensures(read_ip_address, (ip_text,), ip),
        call_ensures(read_socket_address, (s,), r),
        port_text.len() > 0,
        text::digits_value(port_text, 10) == Some(port as int),
    ensures
        ip matches Some(IpAddress::V4(ipv4)) ==> s@ == ip_text@ + seq![':'] + port_text ==> r
            == Some((SocketAddress::V4 { ipv4, port })),
        ip matches Some(IpAddress::V6(ipv6)) ==> s@ == seq!['['] + ip_text@ + seq![']', ':']
            + port_text ==> r == Some((SocketAddress::V6 { ipv6, port, scope_id: 0 })),
{
    if let Some(IpAddress::V4(ipv4)) = ip {
        ipv4_and_port_are_read(ip_text@, ipv4, port_text, port);
    }
    if let Some(IpAddress::V6(ipv6)) = ip {
        ipv6_and_port_are_read(ip_text@, ipv6, port_text, port);
    }
}

/// Eight groups, read as the module reads them.
pub proof fn group_texts_are_read(s: &str, r: Option<IpAddress>, parts: Seq<Seq<char>>, g: Seq<int>)
    requires
        call_ensures(read_ip_address, (s,), r),
        spells_out(s@, parts, g),
    ensures
        r == Some(IpAddress::V6(number_of(g) as u128)),
{
    eight_groups_are_read(parts, g);
}

/// A socket address with an IP address and a port, and no scope.
pub proof fn new_socket_address(ip: IpAddress, port: u16, r: SocketAddress)
    requires
        call_ensures(SocketAddress::new, (ip, port), r),
    ensures
        ip matches IpAddress::V4(ipv4) ==> r == (SocketAddress::V4 { ipv4, port }),
        ip matches IpAddress::V6(ipv6) ==> r == (SocketAddress::V6 { ipv6, port, scope_id: 0 }),
{
}

/// The values of hexadecimal parts.
spec fn values(parts: Seq<Seq<char>>) -> Seq<int> {
    parts.map_values(|p: Seq<char>| text::digits_value(p, 16)->0)
}

/// Parts of one to four hexadecimal digits are groups with their values.
proof fn hexadecimal_parts_are_groups(parts: Seq<Seq<char>>)
    requires
        forall|i: int|
            0 <= i < parts.len() ==> 1 <= (#[trigger] parts[i]).len() <= 4 && text::digits_value(
                parts[i],
                16,
            ) is Some,
    ensures
        are_groups(parts, values(parts)),
{
    let g = values(parts);
    assert forall|i: int| 0 <= i < parts.len() implies #[trigger] is_group(parts[i], g[i]) by {
        assert(parts[i].len() >= 1);
    }
}

/// Eight parts of one to four hexadecimal digits, whatever their letter case and their zeros on
/// the left, with colons between them denote the IPv6 address with these eight values.
#[verifier::spinoff_prover]
pub proof fn eight_hexadecimal_parts(parts: Seq<Seq<char>>, g: Seq<int>)
    requires
        parts.len() == 8,
        g.len() == 8,
        forall|i: int|
            0 <= i < 8 ==> 1 <= (#[trigger] parts[i]).len() <= 4 && text::digits_value(parts[i], 16)
                == Some(g[i]),
    ensures
        address::ip_address(text::join(parts, ':')) == Some(
            IpAddress::V6(
                (((((((g[0] * 0x10000 + g[1]) * 0x10000 + g[2]) * 0x10000 + g[3]) * 0x10000 + g[4])
                    * 0x10000 + g[5]) * 0x10000 + g[6]) * 0x10000 + g[7]) as u128,
            ),
        ),
{
    hexadecimal_parts_are_groups(parts);
    assert(values(parts) == g) by {
        assert forall|i: int| 0 <= i < 8 implies values(parts)[i] == g[i] by {
            assert(parts[i].len() >= 1);
        }
    }
    eight_groups_are_read(parts, g);
    eight_groups(g);
}

/// `::` may be written out: it stands for as many zero groups as are missing from eight.
#[verifier::spinoff_prover]
pub proof fn gap_stands_for_zeros(head: Seq<Seq<char>>, tail: Seq<Seq<char>>)
    requires
        head.len() + tail.len() <= 7,
        forall|i: int|
            0 <= i < head.len() ==> 1 <= (#[trigger] head[i]).len() <= 4 && text::digits_value(
                head[i],
                16,
            ) is Some,
        forall|i: int|
            0 <= i < tail.len() ==> 1 <= (#[trigger] tail[i]).len() <= 4 && text::digits_value(
                tail[i],
                16,
            ) is Some,
    ensures
        address::ip_address(text::join(head, ':') + seq![':', ':'] + text::join(tail, ':'))
            == address::ip_address(
            text::join(
                head + Seq::new((8 - head.len() - tail.len()) as nat, |i: int| seq!['0']) + tail,
                ':',
            ),
        ),
        address::ip_address(text::join(head, ':') + seq![':', ':'] + text::join(tail, ':')) is Some,
{
    let all = head + Seq::new((8 - head.len() - tail.len()) as nat, |i: int| seq!['0']) + tail;
    let hg = values(head);
    let tg = values(tail);
    hexadecimal_parts_are_groups(head);
    hexadecimal_parts_are_groups(tail);
    zeros_are_groups(head, hg, tail, tg);
    eight_groups_are_read(all, with_zeros(hg, tg));
    gap_is_read(head, hg, tail, tg);
}

/// Groups with zeros between them are groups.
#[verifier::spinoff_prover]
proof fn zeros_are_groups(head: Seq<Seq<char>>, hg: Seq<int>, tail: Seq<Seq<char>>, tg: Seq<int>)
    requires
        are_groups(head, hg),
        are_groups(tail, tg),
        head.len() + tail.len() <= 7,
    ensures
        are_groups(
            head + Seq::new((8 - head.len() - tail.len()) as nat, |i: int| seq!['0']) + tail,
            with_zeros(hg, tg),
        ),
{
    let zeros = Seq::new((8 - head.len() - tail.len()) as nat, |i: int| seq!['0']);
    let all = head + zeros + tail;
    let g = with_zeros(hg, tg);
    assert(is_group(seq!['0'], 0)) by {
        text::one_more_digit(Seq::empty(), '0', 16);
        assert(Seq::<char>::empty().push('0') == seq!['0']);
    }
    assert forall|i: int| 0 <= i < all.len() implies #[trigger] is_group(all[i], g[i]) by {
        if i < head.len() {
            assert(is_group(head[i], hg[i]));
        } else if i < head.len() + zeros.len() {
            assert(all[i] == seq!['0'] && g[i] == 0);
        } else {
            let j = i - head.len() - zeros.len();
            assert(is_group(tail[j], tg[j]));
            assert(all[i] == tail[j] && g[i] == tg[j]);
        }
    }
}

/// Two groups and four dotted octets spell the same end of an address.
#[verifier::spinoff_prover]
proof fn two_spellings_of_the_end(
    parts: Seq<Seq<char>>,
    high: Seq<char>,
    low: Seq<char>,
    a: u8,
    b: u8,
    c: u8,
    d: u8,
    end: Seq<char>,
) -> (g: Seq<int>)
    requires
        forall|i: int|
            0 <= i < parts.len() ==> 1 <= (#[trigger] parts[i]).len() <= 4 && text::digits_value(
                parts[i],
                16,
            ) is Some,
        1 <= high.len() <= 4 && text::digits_value(high, 16) == Some(a * 256 + b),
        1 <= low.len() <= 4 && text::digits_value(low, 16) == Some(c * 256 + d),
        end == text::decimal(a as nat) + seq!['.'] + text::decimal(b as nat) + seq!['.']
            + text::decimal(c as nat) + seq!['.'] + text::decimal(d as nat),
    ensures
        g.len() == parts.len() + 2,
        are_last_groups(parts.push(end), g),
        are_last_groups(parts.push(high).push(low), g),
{
    let front = values(parts);
    let g = front.push(a * 256 + b).push(c * 256 + d);
    let with_end = parts.push(end);
    let with_groups = parts.push(high).push(low);
    hexadecimal_parts_are_groups(parts);
    assert(are_groups_and_octets(with_end, g, a, b, c, d)) by {
        assert(with_end.drop_last() == parts);
        assert(g.take(g.len() - 2) == front);
    }
    assert forall|i: int| 0 <= i < with_groups.len() implies #[trigger] is_group(
        with_groups[i],
        g[i],
    ) by {
        if i < parts.len() {
            assert(is_group(parts[i], front[i]));
        }
    }
    assert(are_groups(with_groups, g));
    g
}

/// Four dotted octets after six groups may be written as two groups.
#[verifier::spinoff_prover]
pub proof fn dotted_end_stands_for_two_groups(
    parts: Seq<Seq<char>>,
    high: Seq<char>,
    low: Seq<char>,
    a: u8,
    b: u8,
    c: u8,
    d: u8,
    end: Seq<char>,
)
    requires
        parts.len() == 6,
        forall|i: int|
            0 <= i < parts.len() ==> 1 <= (#[trigger] parts[i]).len() <= 4 && text::digits_value(
                parts[i],
                16,
            ) is Some,
        1 <= high.len() <= 4 && text::digits_value(high, 16) == Some(a * 256 + b),
        1 <= low.len() <= 4 && text::digits_value(low, 16) == Some(c * 256 + d),
        end == text::decimal(a as nat) + seq!['.'] + text::decimal(b as nat) + seq!['.']
            + text::decimal(c as nat) + seq!['.'] + text::decimal(d as nat),
    ensures
        address::ip_address(text::join(parts.push(end), ':')) is Some,
        address::ip_address(text::join(parts.push(end), ':')) == address::ip_address(
            text::join(parts.push(high).push(low), ':'),
        ),
{
    let g = two_spellings_of_the_end(parts, high, low, a, b, c, d, end);
    eight_groups_are_read(parts.push(end), g);
    eight_groups_are_read(parts.push(high).push(low), g);
}

/// Four dotted octets after a gap, with groups between them or none, may be written as two groups.
#[verifier::spinoff_prover]
#[verifier::rlimit(30)]
pub proof fn dotted_end_after_a_gap_stands_for_two_groups(
    head: Seq<Seq<char>>,
    parts: Seq<Seq<char>>,
    high: Seq<char>,
    low: Seq<char>,
    a: u8,
    b: u8,
    c: u8,
    d: u8,
    end: Seq<char>,
)
    requires
        head.len() + parts.len() <= 5,
        forall|i: int|
            0 <= i < head.len() ==> 1 <= (#[trigger] head[i]).len() <= 4 && text::digits_value(
                head[i],
                16,
            ) is Some,
        forall|i: int|
            0 <= i < parts.len() ==> 1 <= (#[trigger] parts[i]).len() <= 4 && text::digits_value(
                parts[i],
                16,
            ) is Some,
        1 <= high.len() <= 4 && text::digits_value(high, 16) == Some(a * 256 + b),
        1 <= low.len() <= 4 && text::digits_value(low, 16) == Some(c * 256 + d),
        end == text::decimal(a as nat) + seq!['.'] + text::decimal(b as nat) + seq!['.']
            + text::decimal(c as nat) + seq!['.'] + text::decimal(d as nat),
    ensures
        address::ip_address(
            text::join(head, ':') + seq![':', ':'] + text::join(parts.push(end), ':'),
        ) is Some,
        address::ip_address(
            text::join(head, ':') + seq![':', ':'] + text::join(parts.push(end), ':'),
        ) == address::ip_address(
            text::join(head, ':') + seq![':', ':'] + text::join(parts.push(high).push(low), ':'),
        ),
{
    let g = two_spellings_of_the_end(parts, high, low, a, b, c, d, end);
    hexadecimal_parts_are_groups(head);
    gap_is_read(head, values(head), parts.push(end), g);
    gap_is_read(head, values(head), parts.push(high).push(low), g);
}

/// What may stand in an IPv6 address text between its colons: at most four hexadecimal digits, or
/// nothing, or at the end an IPv4 address.
#[verifier::spinoff_prover]
pub proof fn parts_of_an_ipv6_address(s: Seq<char>, ip: u128, i: int)
    requires
        address::ip_address(s) == Some(IpAddress::V6(ip)),
        0 <= i < text::split(s, ':').len(),
    ensures
        (text::split(s, ':')[i].len() <= 4 && text::digits_value(text::split(s, ':')[i], 16)
            is Some) || (i == text::split(s, ':').len() - 1 && (address::ip_address(
            text::split(s, ':')[i],
        ) matches Some(IpAddress::V4(_)))),
{
    let all = text::split(s, ':');
    ipv6_addresses_are_groups(s, ip);
    text::one_more_digit(Seq::empty(), '0', 16);
    if exists|parts: Seq<Seq<char>>, g: Seq<int>|
        (#[trigger] spells_out(s, parts, g)) && ip == number_of(g) {
        let (parts, g) = choose|parts: Seq<Seq<char>>, g: Seq<int>|
            (#[trigger] spells_out(s, parts, g)) && ip == number_of(g);
        last_groups_are_read(parts, g);
        plain_parts_split(parts);
        last_parts(parts, g, i);
    } else {
        let (head, hg, tail, tg) = choose|
            head: Seq<Seq<char>>,
            head_groups: Seq<int>,
            tail: Seq<Seq<char>>,
            tail_groups: Seq<int>,
        |
            (#[trigger] spells_with_gap(s, head, head_groups, tail, tail_groups)) && ip
                == number_of(with_zeros(head_groups, tail_groups));
        let before = or_empty(head);
        parts_with_gap(head, hg, tail, tg);
        if i < before.len() {
            assert(all[i] == before[i]);
            if head.len() > 0 {
                assert(is_group(head[i], hg[i]));
            }
        } else if i > before.len() {
            let j = i - before.len() - 1;
            assert(all[i] == or_empty(tail)[j]);
            if tail.len() > 0 {
                last_parts(tail, tg, j);
            }
        }
    }
}

/// What may stand between the colons at the end of an address.
proof fn last_parts(parts: Seq<Seq<char>>, g: Seq<int>, i: int)
    requires
        are_last_groups(parts, g),
        0 <= i < parts.len(),
    ensures
        (parts[i].len() <= 4 && text::digits_value(parts[i], 16) is Some) || (i == parts.len() - 1
            && (address::ip_address(parts[i]) matches Some(IpAddress::V4(_)))),
{
    if are_groups(parts, g) {
        assert(is_group(parts[i], g[i]));
    } else {
        let (a, b, c, d) = choose|a: u8, b: u8, c: u8, d: u8|
            are_groups_and_octets(parts, g, a, b, c, d);
        if i < parts.len() - 1 {
            let front = g.take(g.len() - 2);
            assert(is_group(parts.drop_last()[i], front[i]));
        } else {
            octets_are_read(a, b, c, d);
        }
    }
}

/// How many parts an IPv6 address text has. Without an empty part there are eight, or seven of
/// which the last is an IPv4 address. With one there are at most eight, or nine where the text
/// begins or ends with `::`, and one less with an IPv4 address; and only one part inside is empty.
#[verifier::spinoff_prover]
pub proof fn number_of_parts(s: Seq<char>, parts: Seq<Seq<char>>, ip: u128, i: int, j: int)
    requires
        address::ip_address(s) == Some(IpAddress::V6(ip)),
        parts == text::split(s, ':'),
    ensures
        (forall|k: int| 0 <= k < parts.len() ==> (#[trigger] parts[k]).len() > 0) ==> parts.len()
            == if parts.last().contains('.') {
            7int
        } else {
            8
        },
        parts.len() <= if parts.last().contains('.') {
            8int
        } else {
            9
        },
        parts.len() == (if parts.last().contains('.') {
            8int
        } else {
            9
        }) ==> parts[0].len() == 0 || parts.last().len() == 0,
        parts[0].len() == 0 ==> parts.len() >= 3 && parts[1].len() == 0,
        parts.last().len() == 0 ==> parts.len() >= 3 && parts[parts.len() - 2].len() == 0,
        0 < i < parts.len() - 1 && 0 < j < parts.len() - 1 && parts[i].len() == 0 && parts[j].len()
            == 0 ==> i == j,
{
    ipv6_addresses_are_groups(s, ip);
    if exists|p: Seq<Seq<char>>, g: Seq<int>|
        (#[trigger] spells_out(s, p, g)) && ip == number_of(g) {
        let (p, g) = choose|p: Seq<Seq<char>>, g: Seq<int>|
            (#[trigger] spells_out(s, p, g)) && ip == number_of(g);
        last_groups_are_read(p, g);
        plain_parts_split(p);
        count_of_last_groups(p, g);
        assert(is_plain(p[0]) && is_plain(p[p.len() - 1]));
        if 0 < i < p.len() - 1 {
            assert(is_plain(p[i]));
        }
    } else {
        let (head, hg, tail, tg) = choose|
            head: Seq<Seq<char>>,
            head_groups: Seq<int>,
            tail: Seq<Seq<char>>,
            tail_groups: Seq<int>,
        |
            (#[trigger] spells_with_gap(s, head, head_groups, tail, tail_groups)) && ip
                == number_of(with_zeros(head_groups, tail_groups));
        let before = or_empty(head);
        let after = or_empty(tail);
        parts_with_gap(head, hg, tail, tg);
        groups_are_plain(head, hg);
        last_groups_are_read(tail, tg);
        assert(parts[before.len() as int].len() == 0);
        assert(parts.last() == after.last());
        if tail.len() > 0 {
            count_of_last_groups(tail, tg);
            assert(is_plain(tail[tail.len() - 1]));
        } else {
            assert(!parts.last().contains('.'));
        }
        if head.len() > 0 {
            assert(is_plain(head[0]));
            assert(parts[0] == head[0]);
        }
        empty_parts_inside(head, tail, i);
        empty_parts_inside(head, tail, j);
    }
}

/// The one empty part inside a text with a gap is the gap.
proof fn empty_parts_inside(head: Seq<Seq<char>>, tail: Seq<Seq<char>>, i: int)
    requires
        forall|k: int| 0 <= k < head.len() ==> is_plain(#[trigger] head[k]),
        forall|k: int| 0 <= k < tail.len() ==> is_plain(#[trigger] tail[k]),
    ensures
        ({
            let parts = or_empty(head) + seq![Seq::<char>::empty()] + or_empty(tail);
            0 < i < parts.len() - 1 && parts[i].len() == 0 ==> i == or_empty(head).len()
        }),
{
    let parts = or_empty(head) + seq![Seq::<char>::empty()] + or_empty(tail);
    if 0 < i < parts.len() - 1 {
        if i < or_empty(head).len() {
            assert(parts[i] == head[i]);
            assert(is_plain(head[i]));
        } else if i > or_empty(head).len() {
            let k = i - or_empty(head).len() - 1;
            assert(parts[i] == or_empty(tail)[k]);
            assert(is_plain(tail[k]));
        }
    }
}

/// How many parts spell the groups at the end of an address.
proof fn count_of_last_groups(parts: Seq<Seq<char>>, g: Seq<int>)
    requires
        are_last_groups(parts, g),
        parts.len() > 0,
    ensures
        g.len() == parts.len() + if parts.last().contains('.') {
            1int
        } else {
            0
        },
{
    if are_groups(parts, g) {
        assert(is_group(parts[parts.len() - 1], g[parts.len() - 1]));
        group_is_hex_group(parts.last(), g.last());
    } else {
        let (a, b, c, d) = choose|a: u8, b: u8, c: u8, d: u8|
            are_groups_and_octets(parts, g, a, b, c, d);
        dotted_is_plain(a, b, c, d);
    }
}

} // verus!

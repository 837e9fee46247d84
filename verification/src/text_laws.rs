//! Laws of numbers and addresses as text, of the order of texts, and of spans of time.

use vstd::prelude::*;

use crate::net::{
    addr_text, colon_hex, ipv4_octets, ipv4_text, ipv6_octets, ipv6_segments, ipv6_text,
    is_v4_mapped, longest_zeros, zero_run, SocketAddr,
};
use crate::text::{
    ascii_lower, comes_before, decimal, digit, hex, occurs, same_ignoring_ascii_case, stands_at,
};
use crate::time::{nanos_between, Instant};

verus! {

/// What a digit stands for.
pub open spec fn worth(c: char) -> int {
    if '0' <= c && c <= '9' {
        c as int - '0' as int
    } else {
        c as int - 'a' as int + 10
    }
}

/// Whether a character is a digit to some base.
pub open spec fn is_digit(c: char, base: int) -> bool {
    ('0' <= c && c <= '9' || 'a' <= c && c <= 'f') && worth(c) < base
}

/// The number that a row of digits stands for.
pub open spec fn read(s: Seq<char>, base: int) -> int
    decreases s.len(),
{
    if s.len() == 0 {
        0
    } else {
        read(s.drop_last(), base) * base + worth(s.last())
    }
}

/// Each value below sixteen has its digit.
proof fn lemma_digit(d: nat)
    requires
        d < 16,
    ensures
        worth(digit(d)) == d,
        is_digit(digit(d), 16),
        d < 10 ==> is_digit(digit(d), 10),
        digit(d) == '0' <==> d == 0,
{
}

/// A number in decimal: digits only, no leading zero but in zero itself, and read back they give
/// the number.
pub proof fn law_decimal_reads_back(n: nat)
    ensures
        decimal(n).len() > 0,
        forall|k: int| 0 <= k < decimal(n).len() ==> is_digit(#[trigger] decimal(n)[k], 10),
        decimal(n)[0] == '0' <==> n == 0,
        n == 0 ==> decimal(n).len() == 1,
        read(decimal(n), 10) == n,
    decreases n,
{
    lemma_digit(n % 10);
    if n >= 10 {
        law_decimal_reads_back(n / 10);
        assert(decimal(n).drop_last() =~= decimal(n / 10));
        assert(decimal(n)[0] == decimal(n / 10)[0]);
    } else {
        assert(decimal(n).drop_last() =~= Seq::empty());
        assert(read(decimal(n).drop_last(), 10) == 0);
    }
}

/// A number in hexadecimal: digits and small letters only, no leading zero but in zero itself, and
/// read back they give the number.
pub proof fn law_hex_reads_back(n: nat)
    ensures
        hex(n).len() > 0,
        forall|k: int| 0 <= k < hex(n).len() ==> is_digit(#[trigger] hex(n)[k], 16),
        hex(n)[0] == '0' <==> n == 0,
        n == 0 ==> hex(n).len() == 1,
        read(hex(n), 16) == n,
    decreases n,
{
    lemma_digit(n % 16);
    if n >= 16 {
        law_hex_reads_back(n / 16);
        assert(hex(n).drop_last() =~= hex(n / 16));
        assert(hex(n)[0] == hex(n / 16)[0]);
    } else {
        assert(hex(n).drop_last() =~= Seq::empty());
        assert(read(hex(n).drop_last(), 16) == 0);
    }
}

/// Two characters are the same up to case exactly if they are equal, or one is a capital of the
/// ASCII alphabet and the other its small letter.
pub proof fn law_case_of_letters(a: char, b: char)
    ensures
        ascii_lower(a) == ascii_lower(b) <==> {
            ||| a == b
            ||| 65 <= a as int <= 90 && b as int == a as int + 32
            ||| 65 <= b as int <= 90 && a as int == b as int + 32
        },
{
}

/// Two texts are the same up to case exactly if they are as long and the same place by place.
pub proof fn law_case_of_texts(a: Seq<char>, b: Seq<char>, c: char, d: char)
    ensures
        same_ignoring_ascii_case(Seq::empty(), Seq::empty()),
        same_ignoring_ascii_case(a.push(c), b.push(d)) <==> same_ignoring_ascii_case(a, b)
            && ascii_lower(c) == ascii_lower(d),
        a.len() != b.len() ==> !same_ignoring_ascii_case(a, b),
{
    let (s, t) = (a.push(c), b.push(d));
    if same_ignoring_ascii_case(s, t) {
        let n = a.len() as int;
        assert(ascii_lower(s[n]) == ascii_lower(t[n]));
        assert forall|i: int| 0 <= i < a.len() implies #[trigger] ascii_lower(a[i]) == ascii_lower(
            b[i],
        ) by {
            assert(ascii_lower(s[i]) == ascii_lower(t[i]));
        }
    }
}

/// The order of texts is that of a dictionary: the first place where two texts differ decides, and
/// a text that ends there comes first.
pub proof fn law_dictionary_order(a: Seq<char>, b: Seq<char>, n: int)
    requires
        0 <= n <= a.len(),
        n <= b.len(),
        forall|i: int| 0 <= i < n ==> a[i] == b[i],
    ensures
        n == a.len() ==> (comes_before(a, b) <==> n < b.len()),
        n == b.len() ==> !comes_before(a, b),
        n < a.len() && n < b.len() && a[n] != b[n] ==> (comes_before(a, b) <==> (a[n] as int)
            < b[n] as int),
    decreases n,
{
    if n > 0 {
        assert(a[0] == b[0]);
        assert forall|i: int| 0 <= i < n - 1 implies a.skip(1)[i] == b.skip(1)[i] by {
            assert(a[i + 1] == b[i + 1]);
        }
        law_dictionary_order(a.skip(1), b.skip(1), n - 1);
    }
}

/// A text occurs in another exactly if the other is made of something, that text and something.
pub proof fn law_occurrence(hay: Seq<char>, needle: Seq<char>, before: Seq<char>, after: Seq<char>)
    ensures
        occurs(before + needle + after, needle),
        occurs(hay, needle) ==> exists|x: Seq<char>, y: Seq<char>| hay == #[trigger] (x + needle + y),
{
    let all = before + needle + after;
    let n = before.len() as int;
    assert(all.subrange(n, n + needle.len()) =~= needle);
    assert(stands_at(all, needle, n));
    if occurs(hay, needle) {
        let i = choose|i: int| stands_at(hay, needle, i);
        let x = hay.take(i);
        let y = hay.skip(i + needle.len());
        assert(x + needle + y =~= hay) by {
            assert(hay =~= x + hay.subrange(i, i + needle.len()) + y);
        }
    }
}

/// The octets of an IPv4 address are its digits to base 256, the first octet being the highest.
pub proof fn law_octets_of_ipv4(ip: u32)
    ensures
        ipv4_octets(ip).len() == 4,
        ip == 0x100_0000 * ipv4_octets(ip)[0] + 0x1_0000 * ipv4_octets(ip)[1] + 0x100 * ipv4_octets(
            ip,
        )[2] + ipv4_octets(ip)[3],
{
    let o = ipv4_octets(ip);
    assert(o[0] == (ip >> 24) as u8 && o[1] == (ip >> 16) as u8);
    assert(o[2] == (ip >> 8) as u8 && o[3] == (ip >> 0) as u8);
    assert(ip == 0x100_0000 * ((ip >> 24) as u8) + 0x1_0000 * ((ip >> 16) as u8) + 0x100 * ((ip >> 8)
        as u8) + ((ip >> 0) as u8)) by (bit_vector);
}

/// The groups of an IPv6 address are its digits to base 65536, the first group being the highest,
/// and each group is two octets.
pub proof fn law_groups_of_ipv6(ip: u128)
    ensures
        ({
            let s = ipv6_segments(ip);
            let o = ipv6_octets(ip);
            &&& s.len() == 8 && o.len() == 16
            &&& ip == 0x1_0000_0000_0000_0000_0000_0000_0000 * s[0] + 0x1_0000_0000_0000_0000_0000_0000
                * s[1] + 0x1_0000_0000_0000_0000_0000 * s[2] + 0x1_0000_0000_0000_0000 * s[3]
                + 0x1_0000_0000_0000 * s[4] + 0x1_0000_0000 * s[5] + 0x1_0000 * s[6] + s[7]
            &&& s[0] == 0x100 * o[0] + o[1]
            &&& s[1] == 0x100 * o[2] + o[3]
            &&& s[2] == 0x100 * o[4] + o[5]
            &&& s[3] == 0x100 * o[6] + o[7]
            &&& s[4] == 0x100 * o[8] + o[9]
            &&& s[5] == 0x100 * o[10] + o[11]
            &&& s[6] == 0x100 * o[12] + o[13]
            &&& s[7] == 0x100 * o[14] + o[15]
        }),
{
    lemma_groups(ip);
    let s = ipv6_segments(ip);
    let o = ipv6_octets(ip);
    assert(o[0] == (ip >> 120) as u8 && o[1] == (ip >> 112) as u8 && o[2] == (ip >> 104) as u8);
    assert(o[3] == (ip >> 96) as u8 && o[4] == (ip >> 88) as u8 && o[5] == (ip >> 80) as u8);
    assert(o[6] == (ip >> 72) as u8 && o[7] == (ip >> 64) as u8 && o[8] == (ip >> 56) as u8);
    assert(o[9] == (ip >> 48) as u8 && o[10] == (ip >> 40) as u8 && o[11] == (ip >> 32) as u8);
    assert(o[12] == (ip >> 24) as u8 && o[13] == (ip >> 16) as u8 && o[14] == (ip >> 8) as u8);
    assert(o[15] == (ip >> 0) as u8);
    assert((ip >> 112) as u16 == 0x100 * ((ip >> 120) as u8) + ((ip >> 112) as u8) && (ip >> 96)
        as u16 == 0x100 * ((ip >> 104) as u8) + ((ip >> 96) as u8) && (ip >> 80) as u16 == 0x100 * ((
    ip >> 88) as u8) + ((ip >> 80) as u8) && (ip >> 64) as u16 == 0x100 * ((ip >> 72) as u8) + ((ip
        >> 64) as u8) && (ip >> 48) as u16 == 0x100 * ((ip >> 56) as u8) + ((ip >> 48) as u8) && (ip
        >> 32) as u16 == 0x100 * ((ip >> 40) as u8) + ((ip >> 32) as u8) && (ip >> 16) as u16
        == 0x100 * ((ip >> 24) as u8) + ((ip >> 16) as u8) && (ip >> 0) as u16 == 0x100 * ((ip >> 8)
        as u8) + ((ip >> 0) as u8)) by (bit_vector);
}

/// The groups of an IPv6 address, one by one, and their sum.
proof fn lemma_groups(ip: u128)
    ensures
        ({
            let s = ipv6_segments(ip);
            &&& s[0] == (ip >> 112) as u16 && s[1] == (ip >> 96) as u16
            &&& s[2] == (ip >> 80) as u16 && s[3] == (ip >> 64) as u16
            &&& s[4] == (ip >> 48) as u16 && s[5] == (ip >> 32) as u16
            &&& s[6] == (ip >> 16) as u16 && s[7] == (ip >> 0) as u16
            &&& ip == 0x1_0000_0000_0000_0000_0000_0000_0000 * s[0] + 0x1_0000_0000_0000_0000_0000_0000
                * s[1] + 0x1_0000_0000_0000_0000_0000 * s[2] + 0x1_0000_0000_0000_0000 * s[3]
                + 0x1_0000_0000_0000 * s[4] + 0x1_0000_0000 * s[5] + 0x1_0000 * s[6] + s[7]
        }),
{
    let s = ipv6_segments(ip);
    assert(s[0] == (ip >> 112) as u16 && s[1] == (ip >> 96) as u16 && s[2] == (ip >> 80) as u16);
    assert(s[3] == (ip >> 64) as u16 && s[4] == (ip >> 48) as u16 && s[5] == (ip >> 32) as u16);
    assert(s[6] == (ip >> 16) as u16 && s[7] == (ip >> 0) as u16);
    assert(ip == 0x1_0000_0000_0000_0000_0000_0000_0000 * ((ip >> 112) as u16)
        + 0x1_0000_0000_0000_0000_0000_0000 * ((ip >> 96) as u16) + 0x1_0000_0000_0000_0000_0000 * ((
    ip >> 80) as u16) + 0x1_0000_0000_0000_0000 * ((ip >> 64) as u16) + 0x1_0000_0000_0000 * ((ip
        >> 48) as u16) + 0x1_0000_0000 * ((ip >> 32) as u16) + 0x1_0000 * ((ip >> 16) as u16) + ((ip
        >> 0) as u16)) by (bit_vector);
}

/// An IPv6 address stands for an IPv4 address exactly if all above its low 32 bits is `0xffff`. Its
/// text is that of the IPv4 address behind `::ffff:`.
pub proof fn law_mapped_addresses(ip: u128)
    ensures
        is_v4_mapped(ip) <==> ip as int / 0x1_0000_0000 == 0xffff,
        is_v4_mapped(ip) ==> ipv6_text(ip) == "::ffff:"@ + ipv4_text((ip % 0x1_0000_0000) as u32),
{
    lemma_groups(ip);
    assert(ip as u32 == (ip % 0x1_0000_0000) as u32) by (bit_vector);
}

/// The groups left out of the text of an IPv6 address: from a place on, so many groups are zero and
/// the next is not; no row of zeros is longer, and none before it as long.
pub open spec fn is_first_longest_row(s: Seq<u16>, start: int, len: int) -> bool {
    &&& is_row(s, start, len)
    &&& forall|i: int, n: int| #[trigger]
        is_row(s, i, n) && 0 <= i < s.len() ==> n <= len && (i < start ==> n < len)
}

/// Whether exactly `n` groups in a row are zero, from group `i` on.
pub open spec fn is_row(s: Seq<u16>, i: int, n: int) -> bool {
    &&& 0 <= i && 0 <= n && i + n <= s.len()
    &&& forall|k: int| i <= k < i + n ==> s[k] == 0
    &&& i + n < s.len() ==> s[i + n] != 0
}

/// Counting zeros finds the row.
proof fn lemma_zero_run(s: Seq<u16>, i: nat)
    requires
        i <= s.len(),
    ensures
        is_row(s, i as int, zero_run(s, i) as int),
        forall|n: int| #[trigger] is_row(s, i as int, n) ==> n == zero_run(s, i),
    decreases s.len() - i,
{
    let z = zero_run(s, i) as int;
    if i < s.len() && s[i as int] == 0 {
        lemma_zero_run(s, i + 1);
    }
    assert(is_row(s, i as int, z));
    assert forall|n: int| #[trigger] is_row(s, i as int, n) implies n == z by {
        if n < z {
            assert(s[i + n] == 0);
        } else if z < n {
            assert(s[i + z] == 0);
        }
    }
}

/// The search finds the first longest row.
proof fn lemma_longest_zeros(s: Seq<u16>, n: nat)
    requires
        1 <= n <= s.len(),
    ensures
        longest_zeros(s, n) < n,
        forall|i: nat|
            #![trigger zero_run(s, i)]
            i < n ==> zero_run(s, i) <= zero_run(s, longest_zeros(s, n)) && (i < longest_zeros(s, n)
                ==> zero_run(s, i) < zero_run(s, longest_zeros(s, n))),
    decreases n,
{
    if n > 1 {
        lemma_longest_zeros(s, (n - 1) as nat);
    }
}

/// An IPv6 address that stands for no IPv4 address is written in groups; its first longest row of
/// zeros gives way to a double colon if it is two groups or more.
pub proof fn law_zeros_are_left_out(ip: u128, start: int, len: int)
    requires
        ip as int / 0x1_0000_0000 != 0xffff,
        0 <= start < 8,
        is_first_longest_row(ipv6_segments(ip), start, len),
    ensures
        len >= 2 ==> ipv6_text(ip) == colon_hex(ipv6_segments(ip).take(start)) + "::"@ + colon_hex(
            ipv6_segments(ip).skip(start + len),
        ),
        len < 2 ==> ipv6_text(ip) == colon_hex(ipv6_segments(ip)),
{
    law_mapped_addresses(ip);
    let s = ipv6_segments(ip);
    let b = longest_zeros(s, 8);
    lemma_longest_zeros(s, 8);
    lemma_zero_run(s, b);
    lemma_zero_run(s, start as nat);
    assert(is_row(s, start, len) && len == zero_run(s, start as nat));
    assert(is_row(s, b as int, zero_run(s, b) as int));
    assert(b == start);
    assert(s.subrange(0, start) =~= s.take(start));
    assert(s.subrange(start + len, 8) =~= s.skip(start + len));
}

/// Groups are written in hexadecimal, one after the other, with a colon between two of them.
pub proof fn law_groups_stand_between_colons(s: Seq<u16>, x: u16)
    ensures
        colon_hex(Seq::empty()) == Seq::<char>::empty(),
        colon_hex(seq![x]) == hex(x as nat),
        s.len() > 0 ==> colon_hex(s.push(x)) == colon_hex(s) + seq![':'] + hex(x as nat),
{
    assert(s.push(x).drop_last() =~= s);
    reveal_strlit(":");
    assert(":"@ =~= seq![':']);
}

/// The text of an endpoint: the address, a colon and the port; an IPv6 address in square brackets,
/// with its scope behind a percent sign unless the scope is zero.
pub proof fn law_text_of_an_endpoint(a: SocketAddr)
    ensures
        a matches SocketAddr::V4(v) ==> {
            let o = ipv4_octets(v.ip);
            addr_text(a) == decimal(o[0] as nat) + seq!['.'] + decimal(o[1] as nat) + seq!['.']
                + decimal(o[2] as nat) + seq!['.'] + decimal(o[3] as nat) + seq![':'] + decimal(
                v.port as nat,
            )
        },
        a matches SocketAddr::V6(v) ==> {
            &&& v.scope_id == 0 ==> addr_text(a) == seq!['['] + ipv6_text(v.ip) + seq![']', ':']
                + decimal(v.port as nat)
            &&& v.scope_id != 0 ==> addr_text(a) == seq!['['] + ipv6_text(v.ip) + seq!['%']
                + decimal(v.scope_id as nat) + seq![']', ':'] + decimal(v.port as nat)
        },
{
    reveal_strlit(".");
    reveal_strlit(":");
    reveal_strlit("[");
    reveal_strlit("]:");
    reveal_strlit("%");
    assert("."@ =~= seq!['.']);
    assert(":"@ =~= seq![':']);
    assert("["@ =~= seq!['[']);
    assert("]:"@ =~= seq![']', ':']);
    assert("%"@ =~= seq!['%']);
    if let SocketAddr::V6(v) = a {
        if v.scope_id == 0 {
            assert(addr_text(a) =~= seq!['['] + ipv6_text(v.ip) + seq![']', ':'] + decimal(
                v.port as nat,
            ));
        } else {
            assert(addr_text(a) =~= seq!['['] + ipv6_text(v.ip) + seq!['%'] + decimal(
                v.scope_id as nat,
            ) + seq![']', ':'] + decimal(v.port as nat));
        }
    }
}

/// The time between two instants leads from the earlier to the later; back in time there is none.
pub proof fn law_time_between(a: Instant, b: Instant)
    ensures
        a.nanos <= b.nanos ==> a.nanos + nanos_between(a, b) == b.nanos,
        a.nanos >= b.nanos ==> nanos_between(a, b) == 0,
{
}

} // verus!

//! IPv4 addresses.

use crate::text;
use vstd::prelude::*;

verus! {

/// An IPv4 address.
#[derive(Debug, Clone, Copy, PartialEq, Eq, PartialOrd, Ord, Hash, Structural)]
pub struct Ipv4Addr {
    /// The four octets, the first of them in the highest bits
    pub bits: u32,
}

/// The octet of an address that stands at `place`, counted from the right.
pub open spec fn octet(bits: u32, place: nat) -> nat
    recommends
        place < 4,
{
    if place == 0 {
        bits as nat % 0x100
    } else if place == 1 {
        bits as nat / 0x100 % 0x100
    } else if place == 2 {
        bits as nat / 0x1_0000 % 0x100
    } else {
        bits as nat / 0x100_0000
    }
}

/// An address in dotted decimal notation.
pub open spec fn ipv4_text(bits: u32) -> Seq<char> {
    text::decimal(octet(bits, 3)) + seq!['.'] + text::decimal(octet(bits, 2)) + seq!['.']
        + text::decimal(octet(bits, 1)) + seq!['.'] + text::decimal(octet(bits, 0))
}

/// The address that `s` is the dotted decimal notation of.
pub open spec fn ipv4_of(s: Seq<char>) -> Option<Ipv4Addr> {
    if exists|bits: u32| s == #[trigger] ipv4_text(bits) {
        Some(Ipv4Addr { bits: choose|bits: u32| s == #[trigger] ipv4_text(bits) })
    } else {
        None
    }
}

// ---------------------------------------------------------------------------------------------
// Dotted decimal notation
// ---------------------------------------------------------------------------------------------

/// Where the dots of an address stand.
proof fn lemma_dots(a: Seq<char>, b: Seq<char>, c: Seq<char>, d: Seq<char>, s: Seq<char>)
    requires
        text::all_digits(a),
        text::all_digits(b),
        text::all_digits(c),
        text::all_digits(d),
        s == a + seq!['.'] + b + seq!['.'] + c + seq!['.'] + d,
    ensures
        ({
            let i = text::index_of(s, '.', 0);
            let j = text::index_of(s, '.', i + 1);
            let k = text::index_of(s, '.', j + 1);
            &&& 0 <= i < j < k < s.len()
            &&& s.subrange(0, i) == a
            &&& s.subrange(i + 1, j) == b
            &&& s.subrange(j + 1, k) == c
            &&& s.subrange(k + 1, s.len() as int) == d
        }),
{
    let x = a.len() as int;
    let y = x + 1 + b.len();
    let z = y + 1 + c.len();
    assert(s.subrange(0, x) =~= a);
    assert(s.subrange(x + 1, y) =~= b);
    assert(s.subrange(y + 1, z) =~= c);
    assert(s.subrange(z + 1, s.len() as int) =~= d);
    assert(s[x] == '.' && s[y] == '.' && s[z] == '.');
    assert forall|i: int| 0 <= i < x implies #[trigger] s[i] != '.' by {
        assert(text::is_digit(a[i]));
    }
    assert forall|i: int| x < i < y implies #[trigger] s[i] != '.' by {
        assert(text::is_digit(b[i - x - 1]));
    }
    assert forall|i: int| y < i < z implies #[trigger] s[i] != '.' by {
        assert(text::is_digit(c[i - y - 1]));
    }
    text::lemma_index_of(s, '.', 0);
    text::lemma_index_of(s, '.', x + 1);
    text::lemma_index_of(s, '.', y + 1);
}

/// The octets of an address are determined by their notation.
proof fn lemma_ipv4_text_parts(bits: u32)
    ensures
        ({
            let s = ipv4_text(bits);
            let i = text::index_of(s, '.', 0);
            let j = text::index_of(s, '.', i + 1);
            let k = text::index_of(s, '.', j + 1);
            &&& 0 <= i < j < k < s.len()
            &&& s.subrange(0, i) == text::decimal(octet(bits, 3))
            &&& s.subrange(i + 1, j) == text::decimal(octet(bits, 2))
            &&& s.subrange(j + 1, k) == text::decimal(octet(bits, 1))
            &&& s.subrange(k + 1, s.len() as int) == text::decimal(octet(bits, 0))
        }),
{
    text::lemma_decimal_digits(octet(bits, 3));
    text::lemma_decimal_digits(octet(bits, 2));
    text::lemma_decimal_digits(octet(bits, 1));
    text::lemma_decimal_digits(octet(bits, 0));
    lemma_dots(
        text::decimal(octet(bits, 3)),
        text::decimal(octet(bits, 2)),
        text::decimal(octet(bits, 1)),
        text::decimal(octet(bits, 0)),
        ipv4_text(bits),
    );
}

/// Two addresses with the same notation are the same address.
pub proof fn law_ipv4_text_injective(a: u32, b: u32)
    requires
        ipv4_text(a) == ipv4_text(b),
    ensures
        a == b,
{
    lemma_ipv4_text_parts(a);
    lemma_ipv4_text_parts(b);
    text::lemma_decimal_value(octet(a, 3));
    text::lemma_decimal_value(octet(b, 3));
    text::lemma_decimal_value(octet(a, 2));
    text::lemma_decimal_value(octet(b, 2));
    text::lemma_decimal_value(octet(a, 1));
    text::lemma_decimal_value(octet(b, 1));
    text::lemma_decimal_value(octet(a, 0));
    text::lemma_decimal_value(octet(b, 0));
}

/// The notation of an address stands for that address.
pub proof fn law_ipv4_round_trip(address: Ipv4Addr)
    ensures
        ipv4_of(ipv4_text(address.bits)) == Some(address),
{
    let s = ipv4_text(address.bits);
    let bits = choose|bits: u32| s == #[trigger] ipv4_text(bits);
    law_ipv4_text_injective(bits, address.bits);
}

/// Four numbers with dots between them.
pub open spec fn dotted(a: u8, b: u8, c: u8, d: u8) -> Seq<char> {
    text::decimal(a as nat) + seq!['.'] + text::decimal(b as nat) + seq!['.'] + text::decimal(
        c as nat,
    ) + seq!['.'] + text::decimal(d as nat)
}

/// Four numbers up to 255 with dots between them are the notation of the address that has them as
/// its octets, the first of them in the highest bits.
pub proof fn law_ipv4_notation(a: u8, b: u8, c: u8, d: u8, bits: u32)
    requires
        bits == a * 0x100_0000 + b * 0x1_0000 + c * 0x100 + d,
    ensures
        octet(bits, 3) == a,
        octet(bits, 2) == b,
        octet(bits, 1) == c,
        octet(bits, 0) == d,
        ipv4_text(bits) == dotted(a, b, c, d),
        ipv4_of(dotted(a, b, c, d)) == Some(Ipv4Addr { bits }),
{
    let high = a * 0x100 + b;
    let low = c * 0x100 + d;
    assert(bits as nat / 0x1_0000 == high && bits as nat % 0x1_0000 == low);
    assert(bits as nat / 0x100_0000 == a);
    assert(bits as nat / 0x100 == high * 0x100 + c);
    law_ipv4_round_trip(Ipv4Addr { bits });
}

/// Nothing else is an address.
pub proof fn law_ipv4_is_dotted(s: Seq<char>)
    ensures
        ipv4_of(s) matches Some(address) ==> exists|a: u8, b: u8, c: u8, d: u8|
            s == #[trigger] dotted(a, b, c, d) && address.bits == a * 0x100_0000 + b * 0x1_0000 + c
                * 0x100 + d,
{
    if let Some(address) = ipv4_of(s) {
        let bits = address.bits;
        lemma_octets(bits);
        let a = octet(bits, 3) as u8;
        let b = octet(bits, 2) as u8;
        let c = octet(bits, 1) as u8;
        let d = octet(bits, 0) as u8;
        assert(ipv4_text(bits) == dotted(a, b, c, d));
    }
}

/// An address is made of its octets.
proof fn lemma_octets(bits: u32)
    ensures
        octet(bits, 3) < 0x100,
        octet(bits, 2) < 0x100,
        octet(bits, 1) < 0x100,
        octet(bits, 0) < 0x100,
        bits == octet(bits, 3) * 0x100_0000 + octet(bits, 2) * 0x1_0000 + octet(bits, 1) * 0x100
            + octet(bits, 0),
{
    let low = bits as nat / 0x100;
    let middle = bits as nat / 0x1_0000;
    assert(low / 0x100 == middle);
    assert(middle / 0x100 == bits as nat / 0x100_0000);
}

/// Reads an octet: one to three decimal digits without a leading zero, 255 at most.
fn parse_octet(s: &Vec<char>, from: usize, to: usize) -> (r: Option<u8>)
    requires
        from <= to <= s.len(),
    ensures
        match r {
            Some(o) => s@.subrange(from as int, to as int) == text::decimal(o as nat),
            None => forall|o: u8|
                s@.subrange(from as int, to as int) != #[trigger] text::decimal(o as nat),
        },
{
    let ghost part = s@.subrange(from as int, to as int);
    proof {
        assert forall|o: u8| part == #[trigger] text::decimal(o as nat) implies {
            &&& 1 <= part.len() <= 3
            &&& text::all_digits(part)
            &&& part.len() > 1 ==> part[0] != '0'
            &&& text::digits_value(part) == o
        } by {
            text::lemma_decimal_digits(o as nat);
            text::lemma_decimal_value(o as nat);
            reveal_with_fuel(text::decimal, 3);
        }
    }
    let len = to - from;
    if len == 0 || len > 3 {
        return None;
    }
    if len > 1 && s[from] == '0' {
        assert(part[0] == '0');
        return None;
    }
    let mut value: u32 = 0;
    let mut i: usize = from;
    assert(part.take(0) =~= Seq::empty());
    while i < to
        invariant
            from <= i <= to <= s.len(),
            to - from <= 3,
            part == s@.subrange(from as int, to as int),
            value == text::digits_value(part.take(i - from)),
            i - from == 0 ==> value == 0,
            i - from == 1 ==> value <= 9,
            i - from == 2 ==> value <= 99,
            i - from == 3 ==> value <= 999,
            text::all_digits(part.take(i - from)),
            forall|o: u8| part == #[trigger] text::decimal(o as nat) ==> text::all_digits(part),
        decreases to - i,
    {
        let u = s[i] as u32;
        let ghost n = i - from;
        let ghost next = part.take(n + 1);
        assert(next.drop_last() =~= part.take(n));
        assert(part[n] == s@[i as int]);
        if u < 0x30 || u > 0x39 {
            assert(!text::is_digit(part[n]));
            return None;
        }
        assert forall|j: int| 0 <= j < next.len() implies text::is_digit(#[trigger] next[j]) by {
            if j < n {
                assert(next[j] == part.take(n)[j]);
            }
        }
        value = value * 10 + (u - 0x30);
        i += 1;
    }
    assert(part.take(part.len() as int) =~= part);
    if value > 255 {
        return None;
    }
    proof {
        lemma_short_decimal(part);
    }
    Some(value as u8)
}

/// Up to three digits without a leading zero are the decimal notation of their value.
proof fn lemma_short_decimal(part: Seq<char>)
    requires
        1 <= part.len() <= 3,
        text::all_digits(part),
        part.len() > 1 ==> part[0] != '0',
    ensures
        part == text::decimal(text::digits_value(part)),
{
    reveal_with_fuel(text::decimal, 4);
    reveal_with_fuel(text::digits_value, 4);
    assert(text::is_digit(part[0]));
    text::lemma_digit_char(part[0]);
    let v = text::digits_value(part);
    let d0 = (part[0] as u32 - 0x30) as nat;
    if part.len() == 1 {
        assert(v == d0);
        assert(part =~= seq![text::digit(d0)]);
    } else if part.len() == 2 {
        assert(text::is_digit(part[1]));
        text::lemma_digit_char(part[1]);
        let d1 = (part[1] as u32 - 0x30) as nat;
        assert(part.drop_last().last() == part[0]);
        assert(part.drop_last().drop_last().len() == 0);
        assert(v == d0 * 10 + d1);
        assert(d0 > 0);
        assert(v / 10 == d0 && v % 10 == d1);
        assert(part =~= seq![text::digit(d0)].push(text::digit(d1)));
    } else {
        assert(text::is_digit(part[1]));
        text::lemma_digit_char(part[1]);
        assert(text::is_digit(part[2]));
        text::lemma_digit_char(part[2]);
        let d1 = (part[1] as u32 - 0x30) as nat;
        let d2 = (part[2] as u32 - 0x30) as nat;
        assert(part.drop_last().last() == part[1]);
        assert(part.drop_last().drop_last().last() == part[0]);
        assert(part.drop_last().drop_last().drop_last().len() == 0);
        assert(v == (d0 * 10 + d1) * 10 + d2);
        assert(d0 > 0);
        assert(v / 10 == d0 * 10 + d1 && v % 10 == d2);
        assert((v / 10) / 10 == d0 && (v / 10) % 10 == d1);
        assert(part =~= seq![text::digit(d0)].push(text::digit(d1)).push(text::digit(d2)));
    }
}

impl Ipv4Addr {
    /// The address with the octets `a`, `b`, `c` and `d`.
    pub fn new(a: u8, b: u8, c: u8, d: u8) -> (r: Self)
        ensures
            octet(r.bits, 3) == a,
            octet(r.bits, 2) == b,
            octet(r.bits, 1) == c,
            octet(r.bits, 0) == d,
    {
        let high: u32 = a as u32 * 0x100 + b as u32;
        let low: u32 = c as u32 * 0x100 + d as u32;
        let bits: u32 = high * 0x1_0000 + low;
        assert(bits / 0x1_0000 == high && bits % 0x1_0000 == low);
        assert(bits as nat / 0x100_0000 == high / 0x100);
        assert(bits as nat / 0x100 == high * 0x100 + c);
        Ipv4Addr { bits }
    }

    /// The address in dotted decimal notation.
    pub fn to_string(&self) -> (r: String)
        ensures
            r@ == ipv4_text(self.bits),
    {
        let bits = self.bits;
        let mut r = text::decimal_text((bits / 0x100_0000) as u64);
        r.push('.');
        r.append(&text::decimal_text((bits / 0x1_0000 % 0x100) as u64));
        r.push('.');
        r.append(&text::decimal_text((bits / 0x100 % 0x100) as u64));
        r.push('.');
        r.append(&text::decimal_text((bits % 0x100) as u64));
        assert(r@ =~= ipv4_text(bits));
        r
    }

    /// The address that `s` is the dotted decimal notation of.
    pub fn parse(s: &str) -> (r: Option<Self>)
        ensures
            r == ipv4_of(s@),
    {
        let sv = text::chars_of(s);
        proof {
            assert forall|bits: u32| s@ == #[trigger] ipv4_text(bits) implies {
                let i = text::index_of(s@, '.', 0);
                let j = text::index_of(s@, '.', i + 1);
                let k = text::index_of(s@, '.', j + 1);
                &&& 0 <= i < j < k < s@.len()
                &&& s@.subrange(0, i) == text::decimal(octet(bits, 3) as u8 as nat)
                &&& s@.subrange(i + 1, j) == text::decimal(octet(bits, 2) as u8 as nat)
                &&& s@.subrange(j + 1, k) == text::decimal(octet(bits, 1) as u8 as nat)
                &&& s@.subrange(k + 1, s@.len() as int) == text::decimal(
                    octet(bits, 0) as u8 as nat,
                )
            } by {
                lemma_ipv4_text_parts(bits);
            }
        }
        let i = text::index_from(&sv, '.', 0);
        if i == sv.len() {
            return None;
        }
        let j = text::index_from(&sv, '.', i + 1);
        if j == sv.len() {
            return None;
        }
        let k = text::index_from(&sv, '.', j + 1);
        if k == sv.len() {
            return None;
        }
        match (
            parse_octet(&sv, 0, i),
            parse_octet(&sv, i + 1, j),
            parse_octet(&sv, j + 1, k),
            parse_octet(&sv, k + 1, sv.len()),
        ) {
            (Some(a), Some(b), Some(c), Some(d)) => {
                let r = Ipv4Addr::new(a, b, c, d);
                proof {
                    text::lemma_index_of(s@, '.', 0);
                    text::lemma_index_of(s@, '.', i + 1);
                    text::lemma_index_of(s@, '.', j + 1);
                    assert(s@ =~= ipv4_text(r.bits));
                    law_ipv4_round_trip(r);
                }
                Some(r)
            },
            _ => None,
        }
    }
}

} // verus!

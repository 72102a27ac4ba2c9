//! IPv4 addresses: their dotted text, and ordered lists without repetition.

use vstd::prelude::*;

use crate::text;

verus! {

/// An IPv4 address by its four octets, most significant first.
#[derive(Debug, Clone, Copy, PartialEq, Eq, Structural)]
pub struct Ipv4 {
    pub a: u8,
    pub b: u8,
    pub c: u8,
    pub d: u8,
}

/// The loopback address 127.0.0.1.
pub open spec fn loopback() -> Ipv4 {
    Ipv4 { a: 127, b: 0, c: 0, d: 1 }
}

impl Ipv4 {
    /// The address as one number; addresses are ordered by it.
    pub open spec fn number(self) -> nat {
        (self.a * 0x1000000 + self.b * 0x10000 + self.c * 0x100 + self.d) as nat
    }

    /// The dotted text: four decimal octets with a dot between them.
    pub open spec fn dotted(self) -> Seq<char> {
        text::decimal(self.a as nat) + seq!['.'] + text::decimal(self.b as nat) + seq!['.']
            + text::decimal(self.c as nat) + seq!['.'] + text::decimal(self.d as nat)
    }

    pub fn new(a: u8, b: u8, c: u8, d: u8) -> (r: Self)
        ensures
            r == (Ipv4 { a, b, c, d }),
    {
        Ipv4 { a, b, c, d }
    }

    /// The loopback address.
    pub fn localhost() -> (r: Self)
        ensures
            r == loopback(),
    {
        Ipv4 { a: 127, b: 0, c: 0, d: 1 }
    }

    /// The address as one number.
    pub fn to_bits(self) -> (r: u32)
        ensures
            r == self.number(),
    {
        self.a as u32 * 0x1000000 + self.b as u32 * 0x10000 + self.c as u32 * 0x100 + self.d as u32
    }

    /// The dotted text of the address.
    pub fn to_dotted(self) -> (r: String)
        ensures
            r@ == self.dotted(),
    {
        let mut out: String = text::u8_text(self.a);
        out.push('.');
        out.append(text::u8_text(self.b).as_str());
        out.push('.');
        out.append(text::u8_text(self.c).as_str());
        out.push('.');
        out.append(text::u8_text(self.d).as_str());
        assert(out@ =~= self.dotted());
        out
    }
}

/// Addresses in strictly increasing order: ordered, and none twice.
pub open spec fn strictly_increasing(s: Seq<Ipv4>) -> bool {
    forall|i: int, j: int|
        0 <= i < j < s.len() ==> (#[trigger] s[i]).number() < (#[trigger] s[j]).number()
}

/// The dotted texts of addresses.
pub open spec fn dotted_texts(s: Seq<Ipv4>) -> Seq<Seq<char>> {
    s.map_values(|ip: Ipv4| ip.dotted())
}

/// Puts an address in its place in an ordered list, unless it is there.
pub fn insert_ordered(list: &mut Vec<Ipv4>, ip: Ipv4)
    requires
        strictly_increasing(old(list)@),
    ensures
        strictly_increasing(final(list)@),
        forall|x: Ipv4| #[trigger]
            final(list)@.contains(x) <==> old(list)@.contains(x) || x == ip,
{
    let key: u32 = ip.to_bits();
    let mut i: usize = 0;
    while i < list.len() && list[i].to_bits() < key
        invariant
            list@ == old(list)@,
            i <= list@.len(),
            key == ip.number(),
            forall|j: int| 0 <= j < i ==> (#[trigger] list@[j]).number() < key,
        decreases list@.len() - i,
    {
        i = i + 1;
    }
    let ghost before = list@;
    if i < list.len() && list[i].to_bits() == key {
        proof {
            order_is_by_octets(before[i as int], ip);
        }
        assert(before[i as int] == ip);
        return ;
    }
    list.insert(i, ip);
    proof {
        lemma_insert_keeps_the_order(before, i as int, ip);
        lemma_insert_adds_one(before, i as int, ip);
    }
}

/// An address that is put between the smaller and the larger ones keeps the
/// list in order.
proof fn lemma_insert_keeps_the_order(before: Seq<Ipv4>, i: int, ip: Ipv4)
    requires
        strictly_increasing(before),
        0 <= i <= before.len(),
        forall|j: int| 0 <= j < i ==> (#[trigger] before[j]).number() < ip.number(),
        i < before.len() ==> before[i].number() > ip.number(),
    ensures
        strictly_increasing(before.insert(i, ip)),
{
    let after = before.insert(i, ip);
    assert forall|p: int, q: int| 0 <= p < q < after.len() implies (#[trigger]
    after[p]).number() < (#[trigger] after[q]).number() by {
        if q < i {
            assert(after[p] == before[p]);
            assert(after[q] == before[q]);
        } else if q == i {
            assert(after[p] == before[p]);
        } else {
            assert(after[q] == before[q - 1]);
            assert(before[i].number() <= before[q - 1].number());
            if p < i {
                assert(after[p] == before[p]);
            } else if p > i {
                assert(after[p] == before[p - 1]);
            }
        }
    }
}

/// A list with one more address holds that one and what it held before.
proof fn lemma_insert_adds_one(before: Seq<Ipv4>, i: int, ip: Ipv4)
    requires
        0 <= i <= before.len(),
    ensures
        forall|x: Ipv4| #[trigger]
            before.insert(i, ip).contains(x) <==> before.contains(x) || x == ip,
{
    let after = before.insert(i, ip);
    assert forall|x: Ipv4| #[trigger] after.contains(x) <==> before.contains(x) || x == ip by {
        if before.contains(x) {
            let k = choose|k: int| 0 <= k < before.len() && before[k] == x;
            if k < i {
                assert(after[k] == x);
            } else {
                assert(after[k + 1] == x);
            }
        }
        assert(after[i] == ip);
        if after.contains(x) && x != ip {
            let k = choose|k: int| 0 <= k < after.len() && after[k] == x;
            if k < i {
                assert(before[k] == x);
            } else {
                assert(before[k - 1] == x);
            }
        }
    }
}

/// The dotted texts of addresses, one on each line.
pub fn dotted_lines(list: &Vec<Ipv4>) -> (r: String)
    ensures
        r@ == text::joined(dotted_texts(list@)) + seq!['\n'],
{
    let ghost texts = dotted_texts(list@);
    let mut out: String = String::new();
    let mut i: usize = 0;
    assert(texts.skip(0) =~= texts);
    while i < list.len()
        invariant
            i <= list@.len(),
            texts == dotted_texts(list@),
            i < list@.len() ==> text::joined(texts) == out@ + text::joined(texts.skip(i as int)),
            i == list@.len() ==> text::joined(texts) == out@,
        decreases list@.len() - i,
    {
        let ghost before = out@;
        let ghost rest = texts.skip(i as int);
        out.append(list[i].to_dotted().as_str());
        assert(rest[0] == list@[i as int].dotted());
        assert(rest.drop_first() =~= texts.skip(i + 1));
        if i + 1 < list.len() {
            out.push('\n');
            assert(text::joined(rest) == rest[0] + seq!['\n'] + text::joined(texts.skip(i + 1)));
            assert(text::joined(texts) =~= out@ + text::joined(texts.skip(i + 1)));
        } else {
            assert(text::joined(rest) == rest[0]);
            assert(text::joined(texts) =~= out@);
        }
        i = i + 1;
    }
    out.push('\n');
    assert(out@ =~= text::joined(texts) + seq!['\n']);
    out
}

/// The characters of a dotted text: digits and dots, a digit at each end.
pub proof fn dotted_is_plain(ip: Ipv4)
    ensures
        ip.dotted().len() > 0,
        text::is_digit(ip.dotted().first()),
        text::is_digit(ip.dotted().last()),
        forall|i: int|
            0 <= i < ip.dotted().len() ==> text::is_digit(#[trigger] ip.dotted()[i])
                || ip.dotted()[i] == '.',
{
    text::decimal_reads_back(ip.a as nat);
    text::decimal_reads_back(ip.b as nat);
    text::decimal_reads_back(ip.c as nat);
    text::decimal_reads_back(ip.d as nat);
    let d = text::decimal(ip.d as nat);
    assert(ip.dotted().first() == text::decimal(ip.a as nat)[0]);
    assert(ip.dotted().last() == d[d.len() - 1]);
}

/// Digits up to the first dot, and what follows it, are determined by the text.
proof fn lemma_split_at_dot(p: Seq<char>, r: Seq<char>, q: Seq<char>, t: Seq<char>)
    requires
        text::all_digits(p),
        text::all_digits(q),
        p + seq!['.'] + r == q + seq!['.'] + t,
    ensures
        p == q,
        r == t,
{
    let x = p + seq!['.'] + r;
    let y = q + seq!['.'] + t;
    assert(x[p.len() as int] == '.');
    assert(y[q.len() as int] == '.');
    if p.len() < q.len() {
        assert(y[p.len() as int] == q[p.len() as int]);
        assert(text::is_digit(q[p.len() as int]));
    }
    if q.len() < p.len() {
        assert(x[q.len() as int] == p[q.len() as int]);
        assert(text::is_digit(p[q.len() as int]));
    }
    assert(p =~= x.take(p.len() as int));
    assert(q =~= y.take(p.len() as int));
    assert(r =~= x.skip(p.len() as int + 1));
    assert(t =~= y.skip(p.len() as int + 1));
}

/// Four rows of digits with dots between them are determined by the text.
proof fn lemma_split_at_dots(
    p: (Seq<char>, Seq<char>, Seq<char>, Seq<char>),
    q: (Seq<char>, Seq<char>, Seq<char>, Seq<char>),
)
    requires
        text::all_digits(p.0) && text::all_digits(p.1) && text::all_digits(p.2),
        text::all_digits(q.0) && text::all_digits(q.1) && text::all_digits(q.2),
        p.0 + seq!['.'] + p.1 + seq!['.'] + p.2 + seq!['.'] + p.3 == q.0 + seq!['.'] + q.1 + seq![
            '.',
        ] + q.2 + seq!['.'] + q.3,
    ensures
        p == q,
{
    let dot = seq!['.'];
    let p3 = p.2 + dot + p.3;
    let q3 = q.2 + dot + q.3;
    let p2 = p.1 + dot + p3;
    let q2 = q.1 + dot + q3;
    assert(p.0 + dot + p.1 + dot + p.2 + dot + p.3 =~= p.0 + dot + p2);
    assert(q.0 + dot + q.1 + dot + q.2 + dot + q.3 =~= q.0 + dot + q2);
    lemma_split_at_dot(p.0, p2, q.0, q2);
    lemma_split_at_dot(p.1, p3, q.1, q3);
    lemma_split_at_dot(p.2, p.3, q.2, q.3);
}

/// Two addresses with the same dotted text are the same address.
pub proof fn dotted_is_injective(x: Ipv4, y: Ipv4)
    requires
        x.dotted() == y.dotted(),
    ensures
        x == y,
{
    let p = dotted_spells_the_octets(x);
    let q = dotted_spells_the_octets(y);
    lemma_split_at_dots(p, q);
}

/// Ordered lists without repetition that hold the same addresses are the same
/// list.
pub proof fn ordered_list_is_determined(s: Seq<Ipv4>, t: Seq<Ipv4>)
    requires
        strictly_increasing(s),
        strictly_increasing(t),
        forall|x: Ipv4| s.contains(x) <==> t.contains(x),
    ensures
        s == t,
    decreases s.len(),
{
    if s.len() == 0 {
        if t.len() > 0 {
            assert(t.contains(t[0]));
        }
        assert(s =~= t);
    } else {
        assert(s.contains(s.last()));
        assert(t.contains(s.last()));
        assert(t.contains(t.last()));
        assert(s.contains(t.last()));
        let i = choose|i: int| 0 <= i < s.len() && s[i] == t.last();
        let j = choose|j: int| 0 <= j < t.len() && t[j] == s.last();
        assert(s[i].number() <= s.last().number());
        assert(t[j].number() <= t.last().number());
        assert(s.last() == t.last());
        let s1 = s.drop_last();
        let t1 = t.drop_last();
        assert forall|x: Ipv4| s1.contains(x) <==> t1.contains(x) by {
            if s1.contains(x) {
                let k = choose|k: int| 0 <= k < s1.len() && s1[k] == x;
                assert(s[k] == x);
                assert(s.contains(x));
                let m = choose|m: int| 0 <= m < t.len() && t[m] == x;
                assert(s[k].number() < s.last().number());
                assert(t1[m] == x);
            }
            if t1.contains(x) {
                let k = choose|k: int| 0 <= k < t1.len() && t1[k] == x;
                assert(t[k] == x);
                assert(t.contains(x));
                let m = choose|m: int| 0 <= m < s.len() && s[m] == x;
                assert(t[k].number() < t.last().number());
                assert(s1[m] == x);
            }
        }
        ordered_list_is_determined(s1, t1);
        assert(s =~= s1.push(s.last()));
        assert(t =~= t1.push(t.last()));
    }
}

/// The dotted text spells the four octets in order, each in decimal without a
/// leading zero, with one dot between two of them.
pub proof fn dotted_spells_the_octets(ip: Ipv4) -> (p: (Seq<char>, Seq<char>, Seq<char>, Seq<char>))
    ensures
        ip.dotted() == p.0 + seq!['.'] + p.1 + seq!['.'] + p.2 + seq!['.'] + p.3,
        text::all_digits(p.0) && p.0.len() > 0 && text::digits_value(p.0) == ip.a,
        text::all_digits(p.1) && p.1.len() > 0 && text::digits_value(p.1) == ip.b,
        text::all_digits(p.2) && p.2.len() > 0 && text::digits_value(p.2) == ip.c,
        text::all_digits(p.3) && p.3.len() > 0 && text::digits_value(p.3) == ip.d,
        p.0[0] == '0' ==> p.0.len() == 1,
        p.1[0] == '0' ==> p.1.len() == 1,
        p.2[0] == '0' ==> p.2.len() == 1,
        p.3[0] == '0' ==> p.3.len() == 1,
{
    lemma_octet_is_spelled(ip.a);
    lemma_octet_is_spelled(ip.b);
    lemma_octet_is_spelled(ip.c);
    lemma_octet_is_spelled(ip.d);
    (
        text::decimal(ip.a as nat),
        text::decimal(ip.b as nat),
        text::decimal(ip.c as nat),
        text::decimal(ip.d as nat),
    )
}

proof fn lemma_octet_is_spelled(n: u8)
    ensures
        text::all_digits(text::decimal(n as nat)),
        text::decimal(n as nat).len() > 0,
        text::digits_value(text::decimal(n as nat)) == n,
        text::decimal(n as nat)[0] == '0' ==> text::decimal(n as nat).len() == 1,
{
    text::decimal_reads_back(n as nat);
    if n > 0 {
        text::decimal_grows_by_a_digit(n as nat, 0);
    }
}

/// Addresses are ordered by their first octet, then by the second, the third and
/// the fourth; different addresses have different numbers.
pub proof fn order_is_by_octets(x: Ipv4, y: Ipv4)
    ensures
        x.number() < y.number() <==> x.a < y.a || (x.a == y.a && (x.b < y.b || (x.b == y.b && (x.c
            < y.c || (x.c == y.c && x.d < y.d))))),
        x.number() == y.number() <==> x == y,
{
}

} // verus!

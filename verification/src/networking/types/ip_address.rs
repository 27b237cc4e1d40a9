//! Network layer addresses and their textual form.

use crate::text::{append_decimal, append_hexadecimal, decimal, hexadecimal, push_char};
use vstd::prelude::*;

verus! {

/// An IPv4 or IPv6 address, held as the number that its bytes spell in
/// network order.
#[derive(Clone, Copy, Debug, PartialEq, Eq, Structural, Hash)]
pub enum IpAddress {
    /// An IPv4 address: 32 bits.
    V4(u32),
    /// An IPv6 address: 128 bits.
    V6(u128),
}

/// Dotted decimal form of an IPv4 address: its four bytes, most significant
/// first.
pub open spec fn v4_text(bits: u32) -> Seq<char> {
    decimal(bits as nat / 0x100_0000) + seq!['.'] + decimal(bits as nat / 0x1_0000 % 0x100)
        + seq!['.'] + decimal(bits as nat / 0x100 % 0x100) + seq!['.'] + decimal(
        bits as nat % 0x100,
    )
}

/// The lowest `count` 16-bit groups of `bits`, most significant first.
pub open spec fn groups_of(bits: nat, count: nat) -> Seq<u16>
    decreases count,
{
    if count == 0 {
        Seq::empty()
    } else {
        groups_of(bits / 0x1_0000, (count - 1) as nat).push((bits % 0x1_0000) as u16)
    }
}

/// Length of the run of zero groups that starts at `from`.
pub open spec fn zero_run(groups: Seq<u16>, from: int) -> nat
    decreases groups.len() - from,
{
    if 0 <= from < groups.len() && groups[from] == 0 {
        1 + zero_run(groups, from + 1)
    } else {
        0
    }
}

/// Where the longest run of zero groups starts, of the runs that start at
/// `from` or later; of several longest ones the first. The number of groups
/// where no group from `from` on is zero.
pub open spec fn longest_zero_run(groups: Seq<u16>, from: int) -> int
    decreases groups.len() - from,
{
    if 0 <= from < groups.len() {
        let later = longest_zero_run(groups, from + 1);
        if zero_run(groups, from) > 0 && zero_run(groups, from) >= zero_run(groups, later) {
            from
        } else {
            later
        }
    } else {
        groups.len() as int
    }
}

/// The groups as hexadecimal numerals with a colon between neighbours.
pub open spec fn joined(groups: Seq<u16>) -> Seq<char>
    decreases groups.len(),
{
    if groups.len() == 0 {
        Seq::empty()
    } else if groups.len() == 1 {
        hexadecimal(groups[0] as nat)
    } else {
        joined(groups.drop_last()) + seq![':'] + hexadecimal(groups.last() as nat)
    }
}

/// Canonical form of an IPv6 address. An address that maps an IPv4 address
/// is `::ffff:` and that address in dotted decimal form. Any other is its
/// eight groups in hexadecimal, where the longest run of two or more zero
/// groups, the first of several, is shortened to `::`.
pub open spec fn v6_text(bits: u128) -> Seq<char> {
    if bits as nat / 0x1_0000_0000 == 0xffff {
        seq![':', ':', 'f', 'f', 'f', 'f', ':'] + v4_text((bits as nat % 0x1_0000_0000) as u32)
    } else {
        let groups = groups_of(bits as nat, 8);
        let start = longest_zero_run(groups, 0);
        let run = zero_run(groups, start);
        if run > 1 {
            joined(groups.take(start)) + seq![':', ':'] + joined(groups.skip(start + run))
        } else {
            joined(groups)
        }
    }
}

/// Appends the dotted decimal form of an IPv4 address.
fn append_v4(text: &mut String, bits: u32)
    ensures
        final(text)@ == old(text)@ + v4_text(bits),
{
    append_decimal(text, (bits / 0x100_0000) as u128);
    push_char(text, '.');
    append_decimal(text, (bits / 0x1_0000 % 0x100) as u128);
    push_char(text, '.');
    append_decimal(text, (bits / 0x100 % 0x100) as u128);
    push_char(text, '.');
    append_decimal(text, (bits % 0x100) as u128);
    assert(text@ =~= old(text)@ + v4_text(bits));
}

/// Appends the lowest `count` 16-bit groups of `bits`, most significant
/// first.
fn push_groups(groups: &mut Vec<u16>, bits: u128, count: u8)
    ensures
        final(groups)@ == old(groups)@ + groups_of(bits as nat, count as nat),
    decreases count,
{
    if count > 0 {
        push_groups(groups, bits / 0x1_0000, count - 1);
        groups.push((bits % 0x1_0000) as u16);
    }
}

/// Appends the groups from `low` up to `high`, joined by colons.
fn append_joined(text: &mut String, groups: &Vec<u16>, low: usize, high: usize)
    requires
        low <= high <= groups.len(),
    ensures
        final(text)@ == old(text)@ + joined(groups@.subrange(low as int, high as int)),
{
    let mut k: usize = low;
    while k < high
        invariant
            low <= k <= high <= groups.len(),
            text@ == old(text)@ + joined(groups@.subrange(low as int, k as int)),
        decreases high - k,
    {
        proof {
            let next = groups@.subrange(low as int, k + 1);
            assert(next.drop_last() == groups@.subrange(low as int, k as int));
            assert(next.last() == groups@[k as int]);
        }
        if k > low {
            push_char(text, ':');
        }
        append_hexadecimal(text, groups[k]);
        k += 1;
    }
}

/// Start and length of the longest run of zero groups, the first of
/// several longest ones.
fn find_zero_run(groups: &Vec<u16>) -> (found: (usize, usize))
    ensures
        found.0 == longest_zero_run(groups@, 0),
        found.1 == zero_run(groups@, found.0 as int),
{
    let mut at: usize = groups.len();
    let mut here: usize = 0;
    let mut best: usize = groups.len();
    let mut best_run: usize = 0;
    while at > 0
        invariant
            at <= groups.len(),
            here == zero_run(groups@, at as int),
            here <= groups.len() - at,
            best == longest_zero_run(groups@, at as int),
            best_run == zero_run(groups@, best as int),
            at <= best <= groups.len(),
        decreases at,
    {
        at -= 1;
        if groups[at] == 0 {
            here += 1;
        } else {
            here = 0;
        }
        if here > 0 && here >= best_run {
            best = at;
            best_run = here;
        }
    }
    (best, best_run)
}

/// Appends the canonical form of an IPv6 address.
fn append_v6(text: &mut String, bits: u128)
    ensures
        final(text)@ == old(text)@ + v6_text(bits),
{
    if bits / 0x1_0000_0000 == 0xffff {
        push_char(text, ':');
        push_char(text, ':');
        push_char(text, 'f');
        push_char(text, 'f');
        push_char(text, 'f');
        push_char(text, 'f');
        push_char(text, ':');
        append_v4(text, (bits % 0x1_0000_0000) as u32);
        assert(text@ =~= old(text)@ + v6_text(bits));
    } else {
        let mut groups: Vec<u16> = Vec::new();
        push_groups(&mut groups, bits, 8);
        assert(groups@ =~= groups_of(bits as nat, 8));
        let (start, run) = find_zero_run(&groups);
        if run > 1 {
            proof {
                lemma_zero_run_fits(groups@, start as int);
            }
            append_joined(text, &groups, 0, start);
            push_char(text, ':');
            push_char(text, ':');
            append_joined(text, &groups, start + run, groups.len());
            assert(groups@.subrange(0, start as int) == groups@.take(start as int));
            assert(groups@.subrange(start + run, groups.len() as int) == groups@.skip(start + run));
            assert(text@ =~= old(text)@ + v6_text(bits));
        } else {
            append_joined(text, &groups, 0, groups.len());
            assert(groups@.subrange(0, groups.len() as int) == groups@);
        }
    }
}

/// A run of zero groups ends within the groups.
pub proof fn lemma_zero_run_fits(groups: Seq<u16>, from: int)
    requires
        0 <= from <= groups.len(),
    ensures
        from + zero_run(groups, from) <= groups.len(),
    decreases groups.len() - from,
{
    if from < groups.len() && groups[from] == 0 {
        lemma_zero_run_fits(groups, from + 1);
    }
}

impl IpAddress {
    /// Textual form of the address: dotted decimal for IPv4, the canonical
    /// form with `::` for IPv6.
    pub open spec fn text(self) -> Seq<char> {
        match self {
            IpAddress::V4(bits) => v4_text(bits),
            IpAddress::V6(bits) => v6_text(bits),
        }
    }

    /// Textual form of the address as a string.
    pub fn to_text(&self) -> (text: String)
        ensures
            text@ == self.text(),
    {
        let mut text = String::new();
        match self {
            IpAddress::V4(bits) => append_v4(&mut text, *bits),
            IpAddress::V6(bits) => append_v6(&mut text, *bits),
        }
        text
    }

    /// The IPv4 address with the given four bytes, most significant first.
    pub fn from_octets(a: u8, b: u8, c: u8, d: u8) -> (address: IpAddress)
        ensures
            address == IpAddress::V4(
                (a as nat * 0x100_0000 + b as nat * 0x1_0000 + c as nat * 0x100 + d as nat) as u32,
            ),
    {
        let bits: u32 = (a as u32) * 0x100_0000 + (b as u32) * 0x1_0000 + (c as u32) * 0x100 + (
        d as u32);
        IpAddress::V4(bits)
    }
}

} // verus!

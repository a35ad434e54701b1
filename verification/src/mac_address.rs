//! Hardware addresses.

use vstd::prelude::*;

verus! {

/// A six-octet hardware address, in transmission order.
#[derive(Clone, Copy, Debug, Hash)]
pub struct MacAddress {
    pub octets: [u8; 6],
}

impl View for MacAddress {
    type V = Seq<u8>;

    open spec fn view(&self) -> Seq<u8> {
        self.octets@
    }
}

/// The address as one number, first octet most significant.
pub open spec fn mac_number(octets: Seq<u8>) -> int {
    octets[0] * 0x100_0000_0000 + octets[1] * 0x1_0000_0000 + octets[2] * 0x100_0000 + octets[3]
        * 0x1_0000 + octets[4] * 0x100 + octets[5]
}

impl MacAddress {
    /// An address of the given octets.
    pub fn new(octets: [u8; 6]) -> (mac: Self)
        ensures
            mac.octets == octets,
    {
        MacAddress { octets }
    }

    /// The all-zero address, which marks an empty place in a member list.
    pub fn zero() -> (mac: Self)
        ensures
            mac@ == seq![0u8, 0u8, 0u8, 0u8, 0u8, 0u8],
    {
        MacAddress { octets: [0, 0, 0, 0, 0, 0] }
    }

    /// The address as one number, under which tables of consoles are kept.
    pub open spec fn number(self) -> u64 {
        mac_number(self@) as u64
    }

    /// The address as one number, first octet most significant.
    pub fn to_number(&self) -> (number: u64)
        ensures
            number == self.number(),
            number as int == mac_number(self@),
    {
        let o = &self.octets;
        let high: u64 = o[0] as u64 * 0x100_0000_0000 + o[1] as u64 * 0x1_0000_0000 + o[2] as u64
            * 0x100_0000;
        let low: u64 = o[3] as u64 * 0x1_0000 + o[4] as u64 * 0x100 + o[5] as u64;
        high + low
    }
}

impl PartialEq for MacAddress {
    fn eq(&self, other: &Self) -> (same: bool) {
        let a = &self.octets;
        let b = &other.octets;
        let same = a[0] == b[0] && a[1] == b[1] && a[2] == b[2] && a[3] == b[3] && a[4] == b[4]
            && a[5] == b[5];
        proof {
            if same {
                assert(self.octets =~= other.octets);
            }
        }
        same
    }
}

impl Eq for MacAddress {

}

impl vstd::std_specs::cmp::PartialEqSpecImpl for MacAddress {
    open spec fn obeys_eq_spec() -> bool {
        true
    }

    open spec fn eq_spec(&self, other: &Self) -> bool {
        *self == *other
    }
}

/// Two numbers that agree have the same last octet and the same rest.
proof fn lemma_last_octet(rest_a: int, last_a: u8, rest_b: int, last_b: u8)
    requires
        256 * rest_a + last_a == 256 * rest_b + last_b,
    ensures
        rest_a == rest_b,
        last_a == last_b,
{
}

/// Different addresses have different numbers, so a table keyed by number keeps them apart.
pub proof fn law_number_identifies_address(a: MacAddress, b: MacAddress)
    ensures
        a.number() == b.number() <==> a == b,
{
    if a.number() == b.number() {
        let (x, y) = (a@, b@);
        lemma_last_octet(
            x[0] * 0x1_0000_0000 + x[1] * 0x100_0000 + x[2] * 0x1_0000 + x[3] * 0x100 + x[4],
            x[5],
            y[0] * 0x1_0000_0000 + y[1] * 0x100_0000 + y[2] * 0x1_0000 + y[3] * 0x100 + y[4],
            y[5],
        );
        lemma_last_octet(
            x[0] * 0x100_0000 + x[1] * 0x1_0000 + x[2] * 0x100 + x[3],
            x[4],
            y[0] * 0x100_0000 + y[1] * 0x1_0000 + y[2] * 0x100 + y[3],
            y[4],
        );
        lemma_last_octet(
            x[0] * 0x1_0000 + x[1] * 0x100 + x[2],
            x[3],
            y[0] * 0x1_0000 + y[1] * 0x100 + y[2],
            y[3],
        );
        lemma_last_octet(x[0] * 0x100 + x[1], x[2], y[0] * 0x100 + y[1], y[2]);
        lemma_last_octet(x[0] as int, x[1], y[0] as int, y[1]);
        assert(a.octets =~= b.octets);
    }
}

} // verus!

//! Functions that stand in for parts of the radio's firmware.

use crate::wire::copy_range;
use vstd::prelude::*;

verus! {

/// Size of the supported rates tag, which the firmware writes before it asks for the next tag.
pub const RATES_SIZE: usize = 6;

/// Size of the empty network name tag that stands before the supported rates.
pub const NAME_TAG_SIZE: usize = 2;

/// A beacon in which the network name tag before `at` is gone: the supported rates tag has moved to
/// its place, and a tag that names channel 7 follows.
pub open spec fn with_dsparams(beacon: Seq<u8>, at: int) -> Seq<u8> {
    beacon.take(at - 8) + beacon.subrange(at - 6, at) + seq![0x03u8, 0x01u8, 0x07u8] + beacon.skip(
        at + 1,
    )
}

/// Stands in for the firmware's function that writes the channel tag at a place of a beacon and
/// says where the next tag begins. It drops the network name tag while it is there.
pub fn ieee80211_add_dsparams(beacon: &mut Vec<u8>, at: usize) -> (next: usize)
    requires
        8 <= at < old(beacon)@.len(),
    ensures
        final(beacon)@ == with_dsparams(old(beacon)@, at as int),
        next == at + 1,
{
    let size: usize = beacon.len();
    let rates = copy_range(beacon.as_slice(), at - RATES_SIZE, at);
    let start: usize = at - RATES_SIZE - NAME_TAG_SIZE;
    let mut i: usize = 0;
    while i < RATES_SIZE
        invariant
            i <= RATES_SIZE,
            8 <= at < beacon@.len(),
            start == at - 8,
            rates@ == old(beacon)@.subrange(at - 6, at as int),
            beacon@.len() == old(beacon)@.len(),
            forall|k: int| 0 <= k < i ==> beacon@[start + k] == rates@[k],
            forall|k: int|
                0 <= k < beacon@.len() && !(start <= k < start + i) ==> beacon@[k] == old(
                    beacon,
                )@[k],
        decreases RATES_SIZE - i,
    {
        beacon.set(start + i, rates[i]);
        i += 1;
    }
    beacon.set(at - 2, 0x03);
    beacon.set(at - 1, 0x01);
    beacon.set(at, 0x07);
    assert(beacon@ =~= with_dsparams(old(beacon)@, at as int)) by {
        assert forall|k: int| start <= k < start + 6 implies beacon@[k] == old(beacon)@[k + 2] by {
            assert(beacon@[start + (k - start)] == rates@[k - start]);
        }
    }
    assert(at < size);
    at + 1
}

/// Stands in for the firmware's check of a frame that is to be sent: every frame passes.
pub fn ieee80211_raw_frame_sanity_check(_arg: i32, _arg2: i32, _arg3: i32) -> (verdict: i32)
    ensures
        verdict == 0,
{
    0
}

/// A beacon keeps its size, what stands before the network name tag, and what stands after the new
/// channel tag.
pub proof fn law_dsparams_change_nothing_else(beacon: Seq<u8>, at: int, place: int)
    requires
        8 <= at < beacon.len(),
        0 <= place < at - 8 || at < place < beacon.len(),
    ensures
        with_dsparams(beacon, at).len() == beacon.len(),
        with_dsparams(beacon, at)[place] == beacon[place],
{
}

/// The supported rates tag moves two bytes down, whole, over the network name tag, and the tag that
/// names channel 7 follows it.
pub proof fn law_rates_move_and_the_channel_follows(beacon: Seq<u8>, at: int)
    requires
        8 <= at < beacon.len(),
    ensures
        forall|i: int|
            at - 8 <= i < at - 2 ==> #[trigger] with_dsparams(beacon, at)[i] == beacon[i + 2],
        with_dsparams(beacon, at)[at - 2] == 3,
        with_dsparams(beacon, at)[at - 1] == 1,
        with_dsparams(beacon, at)[at] == 7,
{
}

} // verus!

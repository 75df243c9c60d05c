//! Area light instances lit with linearly transformed cosines: the packing of their per-instance
//! flags, and how many of them a frame holds.
use vstd::prelude::*;

verus! {

/// The word an area light stores for its range bias and sidedness: the bits of the range bias
/// factor with the lowest bit replaced by the double-sided flag.
pub open spec fn spec_pack_range_bias(range_bias_bits: u32, double_sided: bool) -> u32 {
    (range_bias_bits & !1u32) | (if double_sided { 1u32 } else { 0u32 })
}

/// Packs the bits of the range bias factor and the double-sided flag into one word: the lowest
/// bit says whether the light is double-sided, the others are the factor's.
pub fn pack_range_bias(range_bias_bits: u32, double_sided: bool) -> (r: u32)
    ensures
        r == spec_pack_range_bias(range_bias_bits, double_sided),
        r & 1u32 == (if double_sided { 1u32 } else { 0u32 }),
        r & !1u32 == range_bias_bits & !1u32,
{
    let flag: u32 = if double_sided { 1 } else { 0 };
    let r = (range_bias_bits & !1u32) | flag;
    assert(r & 1u32 == flag) by (bit_vector)
        requires
            r == (range_bias_bits & !1u32) | flag,
            flag == 0u32 || flag == 1u32,
    ;
    assert(r & !1u32 == range_bias_bits & !1u32) by (bit_vector)
        requires
            r == (range_bias_bits & !1u32) | flag,
            flag == 0u32 || flag == 1u32,
    ;
    r
}

/// Number of area light instances the instance buffer holds.
pub const MAX_LTC_INSTANCES: usize = 1024 * 128;

/// The area light instances submitted this frame, each by its packed range-bias word; the
/// transforms and colors that go with them are the caller's.
pub struct LtcInstances {
    words: Vec<u32>,
}

impl LtcInstances {
    /// The packed range-bias words of the instances, in the order they were submitted.
    pub closed spec fn spec_words(&self) -> Seq<u32> {
        self.words@
    }

    /// Fewer instances than the buffer holds.
    pub closed spec fn wf(&self) -> bool {
        self.words@.len() < MAX_LTC_INSTANCES
    }

    /// No instances.
    pub fn new() -> (r: Self)
        ensures
            r.spec_words() == Seq::<u32>::empty(),
            r.wf(),
    {
        LtcInstances { words: Vec::new() }
    }

    /// Adds an instance with the bits of its range bias factor and its sidedness; at most
    /// `MAX_LTC_INSTANCES - 1` instances fit in a frame.
    pub fn submit_instance(&mut self, range_bias_bits: u32, double_sided: bool)
        requires
            old(self).spec_words().len() + 1 < MAX_LTC_INSTANCES,
        ensures
            final(self).spec_words() == old(self).spec_words().push(
                spec_pack_range_bias(range_bias_bits, double_sided),
            ),
            final(self).wf(),
    {
        let word = pack_range_bias(range_bias_bits, double_sided);
        self.words.push(word);
    }

    /// Number of instances submitted this frame, as the shader constants record it.
    pub fn instance_count(&self) -> (r: u32)
        requires
            self.wf(),
        ensures
            r == self.spec_words().len(),
    {
        self.words.len() as u32
    }

    /// Forgets this frame's instances.
    pub fn end_frame(&mut self)
        ensures
            final(self).spec_words() == Seq::<u32>::empty(),
            final(self).wf(),
    {
        self.words.clear();
    }
}

} // verus!

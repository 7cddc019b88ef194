//! Descriptor chains: a buffer of length-prefixed descriptors is well formed
//! when its length bytes tile it exactly.

use vstd::prelude::*;

verus! {

/// Walking `s` descriptor by descriptor, each step as long as the byte it
/// starts on says, never stalls on a zero length and ends exactly at the end
/// of `s`.
pub open spec fn descriptor_chain(s: Seq<u8>) -> bool
    decreases s.len(),
{
    if s.len() == 0 {
        true
    } else if s[0] == 0 || s[0] > s.len() {
        false
    } else {
        descriptor_chain(s.skip(s[0] as int))
    }
}

/// A single descriptor whose first byte is its own length is a chain.
pub proof fn lemma_chain_single(d: Seq<u8>)
    requires
        d.len() > 0,
        d[0] == d.len(),
    ensures
        descriptor_chain(d),
{
    assert(d.skip(d[0] as int) =~= Seq::<u8>::empty());
    assert(descriptor_chain(Seq::<u8>::empty()));
}

/// Two chains, one after the other, form a chain.
pub proof fn lemma_chain_concat(a: Seq<u8>, b: Seq<u8>)
    requires
        descriptor_chain(a),
        descriptor_chain(b),
    ensures
        descriptor_chain(a + b),
    decreases a.len(),
{
    if a.len() == 0 {
        assert(a + b =~= b);
    } else {
        let step = a[0] as int;
        lemma_chain_concat(a.skip(step), b);
        assert((a + b).skip(step) =~= a.skip(step) + b);
        assert((a + b)[0] == a[0]);
    }
}

/// Checks that `desc` is a well-formed chain of descriptors.
pub fn verify_descriptor(desc: &[u8]) -> (ok: bool)
    ensures
        ok == descriptor_chain(desc@),
{
    let mut offset: usize = 0;
    assert(desc@.skip(0) =~= desc@);
    while offset < desc.len()
        invariant
            offset <= desc.len(),
            descriptor_chain(desc@) == descriptor_chain(desc@.skip(offset as int)),
        decreases desc.len() - offset,
    {
        let step: usize = desc[offset] as usize;
        let ghost rest = desc@.skip(offset as int);
        assert(rest[0] == desc@[offset as int]);
        if step == 0 || step > desc.len() - offset {
            return false;
        }
        assert(rest.skip(step as int) =~= desc@.skip(offset + step));
        offset += step;
    }
    assert(desc@.skip(offset as int) =~= Seq::<u8>::empty());
    true
}

} // verus!

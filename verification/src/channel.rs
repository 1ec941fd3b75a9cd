//! The Fiat-Shamir transcript: a Blake2s channel, held as its digest.
//!
//! Mixing replaces the digest by a hash of the digest and of what is mixed
//! in, so that every later digest, and whatever is drawn from it, depends
//! on all that was mixed and on its order. The hashing is stwo's.

use vstd::prelude::*;
use crate::fields::QM31;

verus! {

/// The number of bytes of a digest.
pub const BLAKE_BYTES_PER_HASH: usize = 32;

/// The digest that stwo's Blake2s channel has after `mix_u64`, given its
/// digest before and the value mixed in.
pub uninterp spec fn blake2s_mix_u64(digest: Seq<u8>, value: u64) -> Seq<u8>;

/// The digest that stwo's Blake2s channel has after `mix_felts`, given its
/// digest before and the secure-field elements mixed in.
pub uninterp spec fn blake2s_mix_felts(digest: Seq<u8>, felts: Seq<QM31>) -> Seq<u8>;

/// The transcript at a point where nothing was drawn since the last mix.
#[derive(Clone, Copy, Debug, PartialEq, Eq)]
pub struct Channel {
    pub digest: [u8; BLAKE_BYTES_PER_HASH],
}

impl Channel {
    /// The transcript into which nothing was mixed yet.
    pub fn new() -> (r: Channel)
        ensures
            r.digest@ == Seq::new(BLAKE_BYTES_PER_HASH as nat, |i: int| 0u8),
    {
        let channel = Channel { digest: [0u8; BLAKE_BYTES_PER_HASH] };
        assert(channel.digest@ =~= Seq::new(BLAKE_BYTES_PER_HASH as nat, |i: int| 0u8));
        channel
    }

    /// Mixes a 64-bit integer into the transcript.
    pub fn mix_u64(&mut self, value: u64)
        ensures
            final(self).digest@ == blake2s_mix_u64(old(self).digest@, value),
    {
        self.digest = channel_mix_u64(&self.digest, value);
    }

    /// Mixes secure-field elements into the transcript.
    pub fn mix_felts(&mut self, felts: &Vec<QM31>)
        ensures
            final(self).digest@ == blake2s_mix_felts(old(self).digest@, felts@),
    {
        self.digest = channel_mix_felts(&self.digest, felts);
    }
}

/// `mix_u64` of stwo's `Blake2sChannel`, on a channel with the given
/// digest: the digest afterwards. It is a hash of the digest before and of
/// the value, and of nothing else.
#[verifier::external_body]
fn channel_mix_u64(digest: &[u8; BLAKE_BYTES_PER_HASH], value: u64) -> (r: [
    u8;
    BLAKE_BYTES_PER_HASH
])
    ensures
        r@ == blake2s_mix_u64(digest@, value),
{
    let mut channel = stwo::core::channel::Blake2sChannel::default();
    channel.update_digest(stwo::core::vcs::blake2_hash::Blake2sHash(*digest));
    stwo::core::channel::Channel::mix_u64(&mut channel, value);
    channel.digest().0
}

/// `mix_felts` of stwo's `Blake2sChannel`, on a channel with the given
/// digest: the digest afterwards. It is a hash of the digest before and of
/// the coordinates of the elements, and of nothing else.
#[verifier::external_body]
fn channel_mix_felts(digest: &[u8; BLAKE_BYTES_PER_HASH], felts: &Vec<QM31>) -> (r: [
    u8;
    BLAKE_BYTES_PER_HASH
])
    ensures
        r@ == blake2s_mix_felts(digest@, felts@),
{
    let felts: Vec<stwo::core::fields::qm31::QM31> = felts.iter().map(
        |f| {
            let [a, b, c, d] = f.to_u32_array();
            stwo::core::fields::qm31::QM31::from_u32_unchecked(a, b, c, d)
        },
    ).collect();
    let mut channel = stwo::core::channel::Blake2sChannel::default();
    channel.update_digest(stwo::core::vcs::blake2_hash::Blake2sHash(*digest));
    stwo::core::channel::Channel::mix_felts(&mut channel, &felts);
    channel.digest().0
}

} // verus!

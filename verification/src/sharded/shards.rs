//! The slices of the blobstore, and which one a key falls into.

use std::collections::hash_map::DefaultHasher;
use std::hash::{Hash, Hasher};
use tokio::sync::Semaphore;
use vstd::prelude::*;
use vstd::std_specs::hash::DefaultHasherAdditionalSpecFns;

use crate::nonzero::NonZeroUsize;
use crate::sharded::counters::PerfCounterType;

verus! {

#[verifier::external_type_specification]
#[verifier::external_body]
pub struct ExSemaphore(Semaphore);

/// The number of permits that the semaphore was made with.
pub uninterp spec fn permits_made_with(semaphore: Semaphore) -> nat;

/// `Semaphore::new` makes a semaphore with the given number of permits. It panics when
/// that is more than an eighth of what a `usize` can hold.
pub assume_specification[ Semaphore::new ](permits: usize) -> (semaphore: Semaphore)
    requires
        permits <= usize::MAX / 8,
    ensures
        permits_made_with(semaphore) == permits,
;

/// What `str::hash` writes to a hasher for the string.
pub uninterp spec fn str_hash_writes(key: Seq<char>) -> Seq<Seq<u8>>;

/// Calls `str::hash`, which feeds the string to the hasher. Equal strings feed the same;
/// what exactly they feed, the standard library does not fix, and no clause says.
#[verifier::external_body]
fn hash_str(key: &str, hasher: &mut DefaultHasher)
    ensures
        final(hasher)@ == old(hasher)@ + str_hash_writes(key@),
{
    key.hash(hasher)
}

/// The hash of a key.
pub open spec fn key_hash(key: Seq<char>) -> u64 {
    DefaultHasher::spec_finish(str_hash_writes(key))
}

/// The slice into which the key falls where there are `shards` of them.
pub open spec fn shard_of(key: Seq<char>, shards: nat) -> int {
    key_hash(key) as int % shards as int
}

/// The slice for a hash: its remainder by the number of slices.
pub fn shard_index(hash: u64, shards: usize) -> (index: usize)
    requires
        shards > 0,
    ensures
        index == hash as int % shards as int,
        index < shards,
{
    (hash % (shards as u64)) as usize
}

/// Slices of a blobstore, each guarded by a semaphore with one permit.
pub struct Shards {
    semaphores: Vec<Semaphore>,
    perf_counter_type: PerfCounterType,
}

impl Shards {
    /// The semaphores that guard the slices.
    pub closed spec fn semaphores(&self) -> Seq<Semaphore> {
        self.semaphores@
    }

    /// The counter for the time that is spent waiting for a slice.
    pub closed spec fn counter(&self) -> PerfCounterType {
        self.perf_counter_type
    }

    #[verifier::type_invariant]
    closed spec fn well_formed(&self) -> bool {
        self.semaphores@.len() > 0
    }

    /// The given number of slices, each of which admits one access at a time.
    pub fn new(shard_count: NonZeroUsize, perf_counter_type: PerfCounterType) -> (shards: Self)
        ensures
            shards.semaphores().len() == shard_count.value(),
            forall|i: int|
                0 <= i < shards.semaphores().len() ==> permits_made_with(
                    #[trigger] shards.semaphores()[i],
                ) == 1,
            shards.counter() == perf_counter_type,
    {
        let count: usize = shard_count.get();
        let mut semaphores: Vec<Semaphore> = Vec::new();
        let mut i: usize = 0;
        while i < count
            invariant
                i <= count,
                semaphores@.len() == i,
                forall|j: int| 0 <= j < i ==> permits_made_with(#[trigger] semaphores@[j]) == 1,
            decreases count - i,
        {
            semaphores.push(Semaphore::new(1));
            i = i + 1;
        }
        Shards { semaphores, perf_counter_type }
    }

    /// The number of slices.
    pub fn len(&self) -> (count: usize)
        ensures
            count == self.semaphores().len(),
            count > 0,
    {
        proof {
            use_type_invariant(self);
        }
        self.semaphores.len()
    }

    /// The counter for the time that is spent waiting for a slice.
    pub fn perf_counter_type(&self) -> (counter: PerfCounterType)
        ensures
            counter == self.counter(),
    {
        self.perf_counter_type
    }

    /// The semaphore that guards the slice into which the key falls.
    pub fn semaphore_for(&self, key: &str) -> (semaphore: &Semaphore)
        ensures
            *semaphore == self.semaphores()[DefaultHasher::spec_finish(str_hash_writes(key@)) as int
                % self.semaphores().len() as int],
            0 <= shard_of(key@, self.semaphores().len()) < self.semaphores().len(),
            *semaphore == self.semaphores()[shard_of(key@, self.semaphores().len())],
    {
        proof {
            use_type_invariant(self);
        }
        let mut hasher = DefaultHasher::new();
        hash_str(key, &mut hasher);
        assert(hasher@ =~= str_hash_writes(key@));
        let hash: u64 = hasher.finish();
        let index: usize = shard_index(hash, self.semaphores.len());
        &self.semaphores[index]
    }
}

/// The slice of a key is the remainder of its hash by the number of slices, so it is one
/// of them, and keys with one hash share it.
pub proof fn the_hash_decides_the_slice(a: Seq<char>, b: Seq<char>, shards: nat)
    requires
        shards > 0,
    ensures
        0 <= shard_of(a, shards) < shards,
        (DefaultHasher::spec_finish(str_hash_writes(a)) - shard_of(a, shards)) % shards as int
            == 0,
        DefaultHasher::spec_finish(str_hash_writes(a)) == DefaultHasher::spec_finish(
            str_hash_writes(b),
        ) ==> shard_of(a, shards) == shard_of(b, shards),
{
    let hash = key_hash(a) as int;
    vstd::arithmetic::div_mod::lemma_fundamental_div_mod(hash, shards as int);
    vstd::arithmetic::div_mod::lemma_mod_multiples_basic(hash / shards as int, shards as int);
    assert(hash - shard_of(a, shards) == (hash / shards as int) * shards as int)
        by (nonlinear_arith)
        requires
            hash == shards as int * (hash / shards as int) + hash % shards as int,
            shard_of(a, shards) == hash % shards as int,
    ;
}

} // verus!

//! Which metric caches a refresh request names.
use vstd::prelude::*;

use crate::types::{
    REFRESH_ALL, REFRESH_COMPONENTS, REFRESH_CPU, REFRESH_DISKS, REFRESH_MEMORY, REFRESH_NETWORKS,
    REFRESH_PROCESSES,
};

verus! {

/// The caches that one refresh request asks to bring up to date.
#[derive(Clone, Copy, PartialEq, Eq, Structural, Debug)]
pub struct RefreshPlan {
    pub cpu: bool,
    pub memory: bool,
    pub disks: bool,
    pub networks: bool,
    pub processes: bool,
    pub components: bool,
}

/// The plan of a flag word: each cache is named by its own bit.
pub open spec fn plan_of(flags: u32) -> RefreshPlan {
    RefreshPlan {
        cpu: flags & 1 != 0,
        memory: flags & 2 != 0,
        disks: flags & 4 != 0,
        networks: flags & 8 != 0,
        processes: flags & 16 != 0,
        components: flags & 32 != 0,
    }
}

/// The plan that names no cache.
pub open spec fn nothing() -> RefreshPlan {
    RefreshPlan {
        cpu: false,
        memory: false,
        disks: false,
        networks: false,
        processes: false,
        components: false,
    }
}

/// Decodes a flag word into the caches it names.
pub fn refresh_plan(flags: u32) -> (p: RefreshPlan)
    ensures
        p == plan_of(flags),
{
    RefreshPlan {
        cpu: flags & 1 != 0,
        memory: flags & 2 != 0,
        disks: flags & 4 != 0,
        networks: flags & 8 != 0,
        processes: flags & 16 != 0,
        components: flags & 32 != 0,
    }
}

/// `REFRESH_ALL` names every cache.
pub proof fn lemma_refresh_all_names_everything()
    ensures
        plan_of(REFRESH_ALL) == (RefreshPlan {
            cpu: true,
            memory: true,
            disks: true,
            networks: true,
            processes: true,
            components: true,
        }),
{
    assert(0xFFFFFFFFu32 & 1 != 0 && 0xFFFFFFFFu32 & 2 != 0 && 0xFFFFFFFFu32 & 4 != 0
        && 0xFFFFFFFFu32 & 8 != 0 && 0xFFFFFFFFu32 & 16 != 0 && 0xFFFFFFFFu32 & 32 != 0)
        by (bit_vector);
}

/// Each single flag names exactly its own cache.
pub proof fn lemma_single_flags()
    ensures
        plan_of(REFRESH_CPU) == (RefreshPlan { cpu: true, ..nothing() }),
        plan_of(REFRESH_MEMORY) == (RefreshPlan { memory: true, ..nothing() }),
        plan_of(REFRESH_DISKS) == (RefreshPlan { disks: true, ..nothing() }),
        plan_of(REFRESH_NETWORKS) == (RefreshPlan { networks: true, ..nothing() }),
        plan_of(REFRESH_PROCESSES) == (RefreshPlan { processes: true, ..nothing() }),
        plan_of(REFRESH_COMPONENTS) == (RefreshPlan { components: true, ..nothing() }),
{
    assert(1u32 & 1 != 0 && 1u32 & 2 == 0 && 1u32 & 4 == 0 && 1u32 & 8 == 0 && 1u32 & 16 == 0
        && 1u32 & 32 == 0) by (bit_vector);
    assert(2u32 & 1 == 0 && 2u32 & 2 != 0 && 2u32 & 4 == 0 && 2u32 & 8 == 0 && 2u32 & 16 == 0
        && 2u32 & 32 == 0) by (bit_vector);
    assert(4u32 & 1 == 0 && 4u32 & 2 == 0 && 4u32 & 4 != 0 && 4u32 & 8 == 0 && 4u32 & 16 == 0
        && 4u32 & 32 == 0) by (bit_vector);
    assert(8u32 & 1 == 0 && 8u32 & 2 == 0 && 8u32 & 4 == 0 && 8u32 & 8 != 0 && 8u32 & 16 == 0
        && 8u32 & 32 == 0) by (bit_vector);
    assert(16u32 & 1 == 0 && 16u32 & 2 == 0 && 16u32 & 4 == 0 && 16u32 & 8 == 0 && 16u32 & 16
        != 0 && 16u32 & 32 == 0) by (bit_vector);
    assert(32u32 & 1 == 0 && 32u32 & 2 == 0 && 32u32 & 4 == 0 && 32u32 & 8 == 0 && 32u32 & 16
        == 0 && 32u32 & 32 != 0) by (bit_vector);
}

/// A zero flag word names no cache.
pub proof fn lemma_no_flags_names_nothing()
    ensures
        plan_of(0) == nothing(),
{
    assert(0u32 & 1 == 0 && 0u32 & 2 == 0 && 0u32 & 4 == 0 && 0u32 & 8 == 0 && 0u32 & 16 == 0
        && 0u32 & 32 == 0) by (bit_vector);
}

/// Combining two flag words names exactly the caches either one names.
pub proof fn lemma_combined_flags(a: u32, b: u32)
    ensures
        plan_of(a | b) == (RefreshPlan {
            cpu: plan_of(a).cpu || plan_of(b).cpu,
            memory: plan_of(a).memory || plan_of(b).memory,
            disks: plan_of(a).disks || plan_of(b).disks,
            networks: plan_of(a).networks || plan_of(b).networks,
            processes: plan_of(a).processes || plan_of(b).processes,
            components: plan_of(a).components || plan_of(b).components,
        }),
{
    assert(((a | b) & 1 != 0) == (a & 1 != 0 || b & 1 != 0)) by (bit_vector);
    assert(((a | b) & 2 != 0) == (a & 2 != 0 || b & 2 != 0)) by (bit_vector);
    assert(((a | b) & 4 != 0) == (a & 4 != 0 || b & 4 != 0)) by (bit_vector);
    assert(((a | b) & 8 != 0) == (a & 8 != 0 || b & 8 != 0)) by (bit_vector);
    assert(((a | b) & 16 != 0) == (a & 16 != 0 || b & 16 != 0)) by (bit_vector);
    assert(((a | b) & 32 != 0) == (a & 32 != 0 || b & 32 != 0)) by (bit_vector);
}

/// Bits above the six flags have no effect.
pub proof fn lemma_unknown_bits_ignored(flags: u32)
    ensures
        plan_of(flags) == plan_of(flags & 63),
{
    assert((flags & 1 != 0) == (flags & 63 & 1 != 0)) by (bit_vector);
    assert((flags & 2 != 0) == (flags & 63 & 2 != 0)) by (bit_vector);
    assert((flags & 4 != 0) == (flags & 63 & 4 != 0)) by (bit_vector);
    assert((flags & 8 != 0) == (flags & 63 & 8 != 0)) by (bit_vector);
    assert((flags & 16 != 0) == (flags & 63 & 16 != 0)) by (bit_vector);
    assert((flags & 32 != 0) == (flags & 63 & 32 != 0)) by (bit_vector);
}

} // verus!

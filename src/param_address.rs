use vstd::prelude::*;

verus! {

/// First external parameter ID that addresses an instrument instead of a track.
pub const INSTRUMENT_PARAM_BASE: u32 = 10000;

/// Number of local parameter IDs reserved for each track or instrument.
pub const PARAMS_PER_SLOT: u32 = 100;

/// Where a mixer-level parameter ID points.
#[derive(Clone, Copy, Debug, PartialEq, Eq, Structural)]
pub enum ParamTarget {
    Track { index: usize, local_id: u32 },
    Instrument { index: usize, local_id: u32 },
}

/// The partition of the mixer's parameter ID space.
pub open spec fn param_target_of(id: u32) -> ParamTarget {
    if id >= INSTRUMENT_PARAM_BASE {
        ParamTarget::Instrument {
            index: ((id - INSTRUMENT_PARAM_BASE) / PARAMS_PER_SLOT as int) as usize,
            local_id: ((id - INSTRUMENT_PARAM_BASE) % PARAMS_PER_SLOT as int) as u32,
        }
    } else {
        ParamTarget::Track {
            index: (id / PARAMS_PER_SLOT) as usize,
            local_id: (id % PARAMS_PER_SLOT) as u32,
        }
    }
}

/// Splits a mixer parameter ID into its slot and local parameter ID.
pub fn resolve_param(id: u32) -> (r: ParamTarget)
    ensures
        r == param_target_of(id),
{
    if id >= INSTRUMENT_PARAM_BASE {
        let rel = id - INSTRUMENT_PARAM_BASE;
        ParamTarget::Instrument { index: (rel / PARAMS_PER_SLOT) as usize, local_id: rel % PARAMS_PER_SLOT }
    } else {
        ParamTarget::Track { index: (id / PARAMS_PER_SLOT) as usize, local_id: id % PARAMS_PER_SLOT }
    }
}

/// The parameter ID that the mixer exposes for a local parameter of a track.
pub fn track_param_id(index: u32, local_id: u32) -> (r: u32)
    requires
        index < 100,
        local_id < PARAMS_PER_SLOT,
    ensures
        r == index * PARAMS_PER_SLOT + local_id,
        param_target_of(r) == (ParamTarget::Track { index: index as usize, local_id }),
{
    let r = index * PARAMS_PER_SLOT + local_id;
    assert(r / 100 == index && r % 100 == local_id) by (nonlinear_arith)
        requires r == index * 100 + local_id, local_id < 100;
    r
}

/// The parameter ID that the mixer exposes for a local parameter of an instrument.
pub fn instrument_param_id(index: u32, local_id: u32) -> (r: u32)
    requires
        index < 42_000_000,
        local_id < PARAMS_PER_SLOT,
    ensures
        r == INSTRUMENT_PARAM_BASE + index * PARAMS_PER_SLOT + local_id,
        param_target_of(r) == (ParamTarget::Instrument { index: index as usize, local_id }),
{
    let rel = index * PARAMS_PER_SLOT + local_id;
    assert(rel / 100 == index && rel % 100 == local_id) by (nonlinear_arith)
        requires rel == index * 100 + local_id, local_id < 100;
    INSTRUMENT_PARAM_BASE + rel
}

/// Every mixer parameter ID is the ID exposed for the slot and local ID it resolves to.
pub proof fn lemma_param_address_round_trip(id: u32)
    ensures
        match param_target_of(id) {
            ParamTarget::Track { index, local_id } => id == index * PARAMS_PER_SLOT + local_id
                && local_id < PARAMS_PER_SLOT,
            ParamTarget::Instrument { index, local_id } => id == INSTRUMENT_PARAM_BASE + index
                * PARAMS_PER_SLOT + local_id && local_id < PARAMS_PER_SLOT,
        },
{
}

} // verus!

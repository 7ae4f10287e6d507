//! Laws of lowering that relate several runs.
use vstd::prelude::*;

use crate::ast::Func;
use crate::ctx::AirCtx;
use crate::lower::lowered;

verus! {

/// Lowering is deterministic: two contexts that hold the same type facts
/// lower the same function to the same instructions, or to the same error,
/// whatever either of them lowered before. (`lower_func` resets the context
/// and returns exactly `lowered` of its type facts.)
pub proof fn lemma_lowering_deterministic(c1: AirCtx, c2: AirCtx, f: Func)
    requires
        c1.tys == c2.tys,
    ensures
        lowered(c1.tys, f) == lowered(c2.tys, f),
{
}

} // verus!

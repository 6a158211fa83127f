//! On-device inference bookkeeping: model configurations, audio
//! buffering, and the shapes of the transformer layers. The
//! floating-point tensor arithmetic itself lives outside this library.

use vstd::prelude::*;

pub mod inference;
pub mod whisper;

verus! {

/// Set up the inference subsystem.
pub fn init() -> (r: Result<(), &'static str>)
    ensures
        r is Ok,
{
    Result::Ok(())
}

} // verus!

use vstd::prelude::*;

verus! {

/// The two guest CPUs.
#[derive(Clone, Copy, PartialEq, Eq, Structural, Debug)]
pub enum CpuType {
    ARM9,
    ARM7,
}

} // verus!

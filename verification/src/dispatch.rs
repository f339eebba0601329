//! Where native code runs, and the GPU backends it can run on. Native code
//! knows each value by a number.

use vstd::prelude::*;

verus! {

/// Where a task is dispatched to.
#[derive(Debug, Clone, Copy, PartialEq, Eq, Structural)]
pub enum DispatchTarget {
    /// The CPU.
    Cpu,
    /// The CPU, with assembly for the hot paths.
    CpuAsm,
    /// The GPU.
    Gpu,
}

/// A GPU backend.
#[derive(Debug, Clone, Copy, PartialEq, Eq, Structural)]
pub enum GpuBackend {
    /// No GPU backend.
    Absent,
    Cuda,
    HipAmd,
    HipNvidia,
    HipCpu,
}

/// Which GPU backend to prefer when the GPU side is started.
#[derive(Debug, Clone, Copy, PartialEq, Eq, Structural)]
pub enum GpuPreference {
    Performance,
    PreferCuda,
    PreferHip,
    PreferCpu,
}

impl DispatchTarget {
    /// The number that native code knows this target by.
    pub open spec fn code_spec(self) -> u32 {
        match self {
            DispatchTarget::Cpu => 0,
            DispatchTarget::CpuAsm => 1,
            DispatchTarget::Gpu => 2,
        }
    }

    /// The number that native code knows this target by.
    pub fn code(&self) -> (r: u32)
        ensures
            r == self.code_spec(),
    {
        match self {
            DispatchTarget::Cpu => 0,
            DispatchTarget::CpuAsm => 1,
            DispatchTarget::Gpu => 2,
        }
    }
}

impl GpuBackend {
    /// The number that native code knows this backend by.
    pub open spec fn code_spec(self) -> u32 {
        match self {
            GpuBackend::Absent => 0,
            GpuBackend::Cuda => 1,
            GpuBackend::HipAmd => 2,
            GpuBackend::HipNvidia => 3,
            GpuBackend::HipCpu => 4,
        }
    }

    /// The number that native code knows this backend by.
    pub fn code(&self) -> (r: u32)
        ensures
            r == self.code_spec(),
    {
        match self {
            GpuBackend::Absent => 0,
            GpuBackend::Cuda => 1,
            GpuBackend::HipAmd => 2,
            GpuBackend::HipNvidia => 3,
            GpuBackend::HipCpu => 4,
        }
    }

    /// The backend that native code knows by a number, if it knows one by
    /// it.
    pub fn from_code(code: u32) -> (r: Option<GpuBackend>)
        ensures
            match r {
                Some(b) => b.code_spec() == code,
                None => code > 4,
            },
    {
        if code == 0 {
            Some(GpuBackend::Absent)
        } else if code == 1 {
            Some(GpuBackend::Cuda)
        } else if code == 2 {
            Some(GpuBackend::HipAmd)
        } else if code == 3 {
            Some(GpuBackend::HipNvidia)
        } else if code == 4 {
            Some(GpuBackend::HipCpu)
        } else {
            None
        }
    }
}

impl GpuPreference {
    /// The number that native code knows this preference by.
    pub open spec fn code_spec(self) -> u32 {
        match self {
            GpuPreference::Performance => 0,
            GpuPreference::PreferCuda => 1,
            GpuPreference::PreferHip => 2,
            GpuPreference::PreferCpu => 3,
        }
    }

    /// The number that native code knows this preference by.
    pub fn code(&self) -> (r: u32)
        ensures
            r == self.code_spec(),
    {
        match self {
            GpuPreference::Performance => 0,
            GpuPreference::PreferCuda => 1,
            GpuPreference::PreferHip => 2,
            GpuPreference::PreferCpu => 3,
        }
    }
}

} // verus!

//! Tasks, and the choice of where each runs.

use vstd::prelude::*;
use crate::dispatch::DispatchTarget;

verus! {

/// How urgent a task is.
#[derive(Debug, Clone, Copy, PartialEq, Eq, Structural)]
pub enum TaskPriority {
    Low,
    Normal,
    High,
    Critical,
}

/// Where a task would like to run.
#[derive(Debug, Clone, Copy, PartialEq, Eq, Structural)]
pub enum TaskTarget {
    /// The CPU.
    Cpu,
    /// The CPU, with assembly for the hot paths.
    CpuAsm,
    /// The GPU.
    Gpu,
    /// Wherever the workload fits best.
    Auto,
}

/// A unit of work. Its data stay with the caller; the task holds their size
/// in bytes.
#[derive(Debug, Clone, Copy, PartialEq, Eq)]
pub struct Task {
    pub id: u64,
    pub priority: TaskPriority,
    pub target: TaskTarget,
    pub data_size: usize,
}

/// A handle to a submitted task.
#[derive(Debug, Clone, Copy, PartialEq, Eq)]
pub struct TaskHandle {
    pub id: u64,
}

/// How a task ended, or that it has not.
#[derive(Debug, Clone, Copy, PartialEq, Eq, Structural)]
pub enum TaskResult {
    Success,
    Failed,
    Cancelled,
    Pending,
}

impl Task {
    /// A task of normal priority without data.
    pub fn new(id: u64, target: TaskTarget) -> (r: Self)
        ensures
            r == (Task { id, priority: TaskPriority::Normal, target, data_size: 0 }),
    {
        Self { id, priority: TaskPriority::Normal, target, data_size: 0 }
    }
}

/// Where a task runs. It gets what it asks for if that is at hand, and else
/// the CPU. A task that leaves the choice open goes to the GPU if one is at
/// hand and its data are more than a mebibyte, else to assembly if that is
/// enabled, else to the CPU.
pub open spec fn target_for(task: Task, gpu_available: bool, asm_enabled: bool) -> DispatchTarget {
    match task.target {
        TaskTarget::Cpu => DispatchTarget::Cpu,
        TaskTarget::CpuAsm => if asm_enabled {
            DispatchTarget::CpuAsm
        } else {
            DispatchTarget::Cpu
        },
        TaskTarget::Gpu => if gpu_available {
            DispatchTarget::Gpu
        } else {
            DispatchTarget::Cpu
        },
        TaskTarget::Auto => if gpu_available && task.data_size > 1024 * 1024 {
            DispatchTarget::Gpu
        } else if asm_enabled {
            DispatchTarget::CpuAsm
        } else {
            DispatchTarget::Cpu
        },
    }
}

/// Picks where a task runs.
pub fn select_target(task: &Task, gpu_available: bool, asm_enabled: bool) -> (r: DispatchTarget)
    ensures
        r == target_for(*task, gpu_available, asm_enabled),
{
    match task.target {
        TaskTarget::Cpu => DispatchTarget::Cpu,
        TaskTarget::CpuAsm => {
            if asm_enabled {
                DispatchTarget::CpuAsm
            } else {
                DispatchTarget::Cpu
            }
        },
        TaskTarget::Gpu => {
            if gpu_available {
                DispatchTarget::Gpu
            } else {
                DispatchTarget::Cpu
            }
        },
        TaskTarget::Auto => {
            if gpu_available && task.data_size > 1024 * 1024 {
                DispatchTarget::Gpu
            } else if asm_enabled {
                DispatchTarget::CpuAsm
            } else {
                DispatchTarget::Cpu
            }
        },
    }
}

/// A task never goes to the GPU unless one is at hand, nor to assembly
/// unless that is enabled.
pub proof fn lemma_target_at_hand(task: Task, gpu_available: bool, asm_enabled: bool)
    ensures
        target_for(task, gpu_available, asm_enabled) == DispatchTarget::Gpu ==> gpu_available,
        target_for(task, gpu_available, asm_enabled) == DispatchTarget::CpuAsm ==> asm_enabled,
{
}

/// How a scheduler is set up.
#[derive(Debug, Clone, Copy, PartialEq, Eq)]
pub struct SchedulerConfig {
    /// How many tasks may run at once.
    pub max_tasks: usize,
    pub prefer_gpu: bool,
    pub enable_asm: bool,
}

impl Default for SchedulerConfig {
    fn default() -> (r: Self)
        ensures
            r == (SchedulerConfig { max_tasks: 64, prefer_gpu: true, enable_asm: true }),
    {
        Self { max_tasks: 64, prefer_gpu: true, enable_asm: true }
    }
}

/// The scheduler. It keeps no queue: a task is done as soon as it is
/// submitted.
pub struct Scheduler {
    config: SchedulerConfig,
}

impl Scheduler {
    /// How this scheduler is set up.
    pub closed spec fn config(&self) -> SchedulerConfig {
        self.config
    }

    /// A scheduler with a setup.
    pub fn new(config: SchedulerConfig) -> (r: Self)
        ensures
            r.config() == config,
    {
        Self { config }
    }

    /// Submits a task. Every task gets the handle 0.
    pub fn submit(&mut self, task: Task) -> (r: TaskHandle)
        ensures
            final(self).config() == old(self).config(),
            r == (TaskHandle { id: 0 }),
    {
        TaskHandle { id: 0 }
    }

    /// Waits for a task. Every task has succeeded.
    pub fn wait(&self, handle: TaskHandle) -> (r: TaskResult)
        ensures
            r == TaskResult::Success,
    {
        TaskResult::Success
    }
}

} // verus!

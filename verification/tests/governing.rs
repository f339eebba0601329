use superc::arena::{AlignedAllocator, Arena};
use superc::contracts::{ensure, require, ContractViolation};
use superc::dispatch::{DispatchTarget, GpuBackend, GpuPreference};
use superc::runtime::{init, RuntimeConfig};
use superc::scheduler::{
    select_target, Scheduler, SchedulerConfig, Task, TaskHandle, TaskPriority, TaskResult,
    TaskTarget,
};

#[test]
fn require_and_ensure_report_a_violation() {
    assert_eq!(require(true, "m", "l"), Ok(()));
    assert_eq!(
        require(false, "size must be positive", "arena"),
        Err(ContractViolation { message: "size must be positive", location: "arena" })
    );
    assert_eq!(ensure(true, "m", "l"), Ok(()));
    assert_eq!(
        ensure(false, "result must fit", "dispatch"),
        Err(ContractViolation { message: "result must fit", location: "dispatch" })
    );
}

#[test]
fn an_arena_hands_out_blocks_in_a_row() {
    let mut arena = Arena::new(64);
    assert_eq!(arena.remaining(), 64);
    assert_eq!(arena.allocate(1), Some(0));
    assert_eq!(arena.remaining(), 48);
    assert_eq!(arena.allocate(16), Some(16));
    assert_eq!(arena.allocate(17), Some(32));
    assert_eq!(arena.remaining(), 0);
    assert_eq!(arena.allocate(1), None);
    assert_eq!(arena.allocate(0), Some(64));
    assert_eq!(arena.remaining(), 0);
    arena.reset();
    assert_eq!(arena.remaining(), 64);
    assert_eq!(arena.allocate(65), None);
    assert_eq!(arena.allocate(usize::MAX), None);
    assert_eq!(arena.allocate(64), Some(0));
}

#[test]
fn an_arena_of_a_capacity_that_is_no_multiple_of_sixteen() {
    let mut arena = Arena::new(40);
    assert_eq!(arena.allocate(20), Some(0));
    assert_eq!(arena.remaining(), 8);
    assert_eq!(arena.allocate(8), None);
    assert_eq!(arena.remaining(), 8);
}

#[test]
fn an_aligned_allocator_keeps_its_alignment() {
    assert_eq!(AlignedAllocator::new(32).align(), 32);
}

#[test]
fn a_task_gets_what_it_asks_for_if_that_is_at_hand() {
    let task = |target: TaskTarget, size: usize| Task {
        id: 1,
        priority: TaskPriority::High,
        target,
        data_size: size,
    };
    for gpu in [false, true] {
        for hot in [false, true] {
            assert_eq!(select_target(&task(TaskTarget::Cpu, 0), gpu, hot), DispatchTarget::Cpu);
        }
    }
    assert_eq!(select_target(&task(TaskTarget::CpuAsm, 0), false, true), DispatchTarget::CpuAsm);
    assert_eq!(select_target(&task(TaskTarget::CpuAsm, 0), true, false), DispatchTarget::Cpu);
    assert_eq!(select_target(&task(TaskTarget::Gpu, 0), true, false), DispatchTarget::Gpu);
    assert_eq!(select_target(&task(TaskTarget::Gpu, 0), false, true), DispatchTarget::Cpu);
    let mib = 1024 * 1024;
    assert_eq!(select_target(&task(TaskTarget::Auto, mib + 1), true, true), DispatchTarget::Gpu);
    assert_eq!(select_target(&task(TaskTarget::Auto, mib), true, true), DispatchTarget::CpuAsm);
    assert_eq!(select_target(&task(TaskTarget::Auto, mib), true, false), DispatchTarget::Cpu);
    assert_eq!(select_target(&task(TaskTarget::Auto, mib + 1), false, true), DispatchTarget::CpuAsm);
    assert_eq!(select_target(&task(TaskTarget::Auto, mib + 1), false, false), DispatchTarget::Cpu);
}

#[test]
fn a_new_task_is_normal_and_empty() {
    assert_eq!(
        Task::new(7, TaskTarget::Gpu),
        Task { id: 7, priority: TaskPriority::Normal, target: TaskTarget::Gpu, data_size: 0 }
    );
}

#[test]
fn the_scheduler_is_done_at_once() {
    let config = SchedulerConfig::default();
    assert_eq!(config, SchedulerConfig { max_tasks: 64, prefer_gpu: true, enable_asm: true });
    let mut scheduler = Scheduler::new(config);
    let handle = scheduler.submit(Task::new(3, TaskTarget::Auto));
    assert_eq!(handle, TaskHandle { id: 0 });
    assert_eq!(scheduler.wait(handle), TaskResult::Success);
}

#[test]
fn the_runtime_starts_with_every_setup() {
    let config = RuntimeConfig::default();
    assert_eq!(
        config,
        RuntimeConfig { cuda_enabled: false, asm_enabled: false, arena_size: 64 * 1024 * 1024 }
    );
    assert_eq!(init(config), Ok(()));
    assert_eq!(
        init(RuntimeConfig { cuda_enabled: true, asm_enabled: true, arena_size: 0 }),
        Ok(())
    );
}

#[test]
fn native_code_knows_each_value_by_a_number() {
    assert_eq!(DispatchTarget::Cpu.code(), 0);
    assert_eq!(DispatchTarget::CpuAsm.code(), 1);
    assert_eq!(DispatchTarget::Gpu.code(), 2);
    assert_eq!(GpuPreference::Performance.code(), 0);
    assert_eq!(GpuPreference::PreferCuda.code(), 1);
    assert_eq!(GpuPreference::PreferHip.code(), 2);
    assert_eq!(GpuPreference::PreferCpu.code(), 3);
    let backends = [
        GpuBackend::Absent,
        GpuBackend::Cuda,
        GpuBackend::HipAmd,
        GpuBackend::HipNvidia,
        GpuBackend::HipCpu,
    ];
    for (number, backend) in backends.iter().enumerate() {
        assert_eq!(backend.code(), number as u32);
        assert_eq!(GpuBackend::from_code(number as u32), Some(*backend));
    }
    assert_eq!(GpuBackend::from_code(5), None);
}

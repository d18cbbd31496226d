use crate::framebuffer::Surface;
use vstd::prelude::*;

verus! {

/// One physical memory region descriptor from the bootloader's map,
/// handed through to the frame-allocator collaborator.
#[derive(Clone, Copy, PartialEq, Eq, Structural, Debug)]
pub struct MemoryRegion {
    pub start: u64,
    pub end: u64,
    pub usable: bool,
}

/// The transient record the bootloader hands the boot sequencer. Each
/// optional field carries its own policy: a missing pixel surface or
/// memory offset halts the boot, a missing firmware-table pointer only
/// degrades it.
pub struct BootContext {
    pub framebuffer: Option<Surface>,
    pub physical_memory_offset: Option<u64>,
    pub rsdp_addr: Option<u64>,
    pub memory_regions: Vec<MemoryRegion>,
}

/// How far the fixed boot order has progressed.
#[derive(Clone, Copy, PartialEq, Eq, Structural, Debug)]
pub enum BootStage {
    Start,
    ConsoleUp,
    DescriptorTablesUp,
    InterruptsUp,
    InterruptsOn,
    MemoryUp,
    HeapUp,
    Done,
}

/// The fatal boot preconditions: each halts the machine after
/// best-effort diagnostics, with no retry.
#[derive(Clone, Copy, PartialEq, Eq, Structural, Debug)]
pub enum BootError {
    MissingFramebuffer,
    MissingMemoryOffset,
    HeapInitFailed,
}

/// What the boot sequencer must do next. Every step but `Halt` and
/// `Finished` names one subsystem to bring up, console first so that
/// all later steps may log.
#[derive(Clone, Copy, PartialEq, Eq, Structural, Debug)]
pub enum BootAction {
    InitConsole,
    InitDescriptorTables,
    InitInterrupts,
    EnableInterrupts,
    InitMemory(u64),
    InitHeap,
    ProbeFirmwareTables,
    Halt(BootError),
    Finished,
}

/// The decision at each stage of the fixed order: console, descriptor
/// tables, interrupts, interrupt enable, memory mapping at the given
/// physical offset, heap, firmware-table probe. The two mandatory boot
/// data fields halt the boot where absent.
pub open spec fn spec_boot_action(
    stage: BootStage,
    has_framebuffer: bool,
    offset: Option<u64>,
) -> BootAction {
    match stage {
        BootStage::Start => if has_framebuffer {
            BootAction::InitConsole
        } else {
            BootAction::Halt(BootError::MissingFramebuffer)
        },
        BootStage::ConsoleUp => BootAction::InitDescriptorTables,
        BootStage::DescriptorTablesUp => BootAction::InitInterrupts,
        BootStage::InterruptsUp => BootAction::EnableInterrupts,
        BootStage::InterruptsOn => match offset {
            Some(o) => BootAction::InitMemory(o),
            None => BootAction::Halt(BootError::MissingMemoryOffset),
        },
        BootStage::MemoryUp => BootAction::InitHeap,
        BootStage::HeapUp => BootAction::ProbeFirmwareTables,
        BootStage::Done => BootAction::Finished,
    }
}

/// The stage reached when the current stage's step succeeds.
pub open spec fn spec_next_stage(stage: BootStage) -> BootStage {
    match stage {
        BootStage::Start => BootStage::ConsoleUp,
        BootStage::ConsoleUp => BootStage::DescriptorTablesUp,
        BootStage::DescriptorTablesUp => BootStage::InterruptsUp,
        BootStage::InterruptsUp => BootStage::InterruptsOn,
        BootStage::InterruptsOn => BootStage::MemoryUp,
        BootStage::MemoryUp => BootStage::HeapUp,
        BootStage::HeapUp => BootStage::Done,
        BootStage::Done => BootStage::Done,
    }
}

/// Decides the next initialization step. The caller performs the named
/// action — the console install, the external collaborators, the
/// firmware probe — and reports back through `advance`; on `Halt` it
/// stops the machine, on `Finished` the boot is complete.
pub fn init(stage: &BootStage, ctx: &BootContext) -> (a: BootAction)
    ensures
        a == spec_boot_action(*stage, ctx.framebuffer is Some, ctx.physical_memory_offset),
{
    match *stage {
        BootStage::Start => {
            if ctx.framebuffer.is_some() {
                BootAction::InitConsole
            } else {
                BootAction::Halt(BootError::MissingFramebuffer)
            }
        },
        BootStage::ConsoleUp => BootAction::InitDescriptorTables,
        BootStage::DescriptorTablesUp => BootAction::InitInterrupts,
        BootStage::InterruptsUp => BootAction::EnableInterrupts,
        BootStage::InterruptsOn => {
            match ctx.physical_memory_offset {
                Some(o) => BootAction::InitMemory(o),
                None => BootAction::Halt(BootError::MissingMemoryOffset),
            }
        },
        BootStage::MemoryUp => BootAction::InitHeap,
        BootStage::HeapUp => BootAction::ProbeFirmwareTables,
        BootStage::Done => BootAction::Finished,
    }
}

/// Records the outcome of the step just performed. Heap initialization
/// is the one collaborator that reports failure rather than halting on
/// its own, and its failure is fatal; every other step either succeeds
/// or never returns.
pub fn advance(stage: &BootStage, step_ok: bool) -> (r: Result<BootStage, BootError>)
    requires
        step_ok || *stage is MemoryUp,
    ensures
        step_ok ==> r == Ok::<BootStage, BootError>(spec_next_stage(*stage)),
        !step_ok ==> r == Err::<BootStage, BootError>(BootError::HeapInitFailed),
{
    if step_ok {
        Ok(
            match *stage {
                BootStage::Start => BootStage::ConsoleUp,
                BootStage::ConsoleUp => BootStage::DescriptorTablesUp,
                BootStage::DescriptorTablesUp => BootStage::InterruptsUp,
                BootStage::InterruptsUp => BootStage::InterruptsOn,
                BootStage::InterruptsOn => BootStage::MemoryUp,
                BootStage::MemoryUp => BootStage::HeapUp,
                BootStage::HeapUp => BootStage::Done,
                BootStage::Done => BootStage::Done,
            },
        )
    } else {
        Err(BootError::HeapInitFailed)
    }
}

/// The fixed boot order, end to end: with both mandatory boot data
/// fields present, the sequencer performs exactly these steps in exactly
/// this order, whatever the firmware-table pointer says.
pub proof fn lemma_boot_order(offset: u64)
    ensures
        spec_boot_action(BootStage::Start, true, Some(offset)) == BootAction::InitConsole,
        spec_next_stage(BootStage::Start) == BootStage::ConsoleUp,
        spec_boot_action(BootStage::ConsoleUp, true, Some(offset))
            == BootAction::InitDescriptorTables,
        spec_next_stage(BootStage::ConsoleUp) == BootStage::DescriptorTablesUp,
        spec_boot_action(BootStage::DescriptorTablesUp, true, Some(offset))
            == BootAction::InitInterrupts,
        spec_next_stage(BootStage::DescriptorTablesUp) == BootStage::InterruptsUp,
        spec_boot_action(BootStage::InterruptsUp, true, Some(offset))
            == BootAction::EnableInterrupts,
        spec_next_stage(BootStage::InterruptsUp) == BootStage::InterruptsOn,
        spec_boot_action(BootStage::InterruptsOn, true, Some(offset)) == BootAction::InitMemory(
            offset,
        ),
        spec_next_stage(BootStage::InterruptsOn) == BootStage::MemoryUp,
        spec_boot_action(BootStage::MemoryUp, true, Some(offset)) == BootAction::InitHeap,
        spec_next_stage(BootStage::MemoryUp) == BootStage::HeapUp,
        spec_boot_action(BootStage::HeapUp, true, Some(offset))
            == BootAction::ProbeFirmwareTables,
        spec_next_stage(BootStage::HeapUp) == BootStage::Done,
        spec_boot_action(BootStage::Done, true, Some(offset)) == BootAction::Finished,
{
}

} // verus!

//! The RISC-V general-purpose register file as saved on a trap, the
//! register indices used to address it, and the decoded form of a trap
//! cause.

use vstd::prelude::*;

verus! {

/// Interrupt bit of the `scause` register: set when the trap was an
/// interrupt rather than an exception.
pub const SCAUSE_INTERRUPT_BIT: u64 = 0x8000_0000_0000_0000;

/// Index of a general-purpose register, by its ABI name.
#[derive(Clone, Copy, Debug, PartialEq, Eq, Structural)]
pub enum GprIndex {
    Zero,
    RA,
    SP,
    GP,
    TP,
    T0,
    T1,
    T2,
    S0,
    S1,
    A0,
    A1,
    A2,
    A3,
    A4,
    A5,
    A6,
    A7,
    S2,
    S3,
    S4,
    S5,
    S6,
    S7,
    S8,
    S9,
    S10,
    S11,
    T3,
    T4,
    T5,
    T6,
}

impl GprIndex {
    /// The position of this register in the register file.
    pub open spec fn spec_index(self) -> int {
        match self {
            GprIndex::Zero => 0,
            GprIndex::RA => 1,
            GprIndex::SP => 2,
            GprIndex::GP => 3,
            GprIndex::TP => 4,
            GprIndex::T0 => 5,
            GprIndex::T1 => 6,
            GprIndex::T2 => 7,
            GprIndex::S0 => 8,
            GprIndex::S1 => 9,
            GprIndex::A0 => 10,
            GprIndex::A1 => 11,
            GprIndex::A2 => 12,
            GprIndex::A3 => 13,
            GprIndex::A4 => 14,
            GprIndex::A5 => 15,
            GprIndex::A6 => 16,
            GprIndex::A7 => 17,
            GprIndex::S2 => 18,
            GprIndex::S3 => 19,
            GprIndex::S4 => 20,
            GprIndex::S5 => 21,
            GprIndex::S6 => 22,
            GprIndex::S7 => 23,
            GprIndex::S8 => 24,
            GprIndex::S9 => 25,
            GprIndex::S10 => 26,
            GprIndex::S11 => 27,
            GprIndex::T3 => 28,
            GprIndex::T4 => 29,
            GprIndex::T5 => 30,
            GprIndex::T6 => 31,
        }
    }

    /// The position of this register in the register file.
    pub fn index(&self) -> (r: usize)
        ensures
            r == self.spec_index(),
            r < 32,
    {
        match self {
            GprIndex::Zero => 0,
            GprIndex::RA => 1,
            GprIndex::SP => 2,
            GprIndex::GP => 3,
            GprIndex::TP => 4,
            GprIndex::T0 => 5,
            GprIndex::T1 => 6,
            GprIndex::T2 => 7,
            GprIndex::S0 => 8,
            GprIndex::S1 => 9,
            GprIndex::A0 => 10,
            GprIndex::A1 => 11,
            GprIndex::A2 => 12,
            GprIndex::A3 => 13,
            GprIndex::A4 => 14,
            GprIndex::A5 => 15,
            GprIndex::A6 => 16,
            GprIndex::A7 => 17,
            GprIndex::S2 => 18,
            GprIndex::S3 => 19,
            GprIndex::S4 => 20,
            GprIndex::S5 => 21,
            GprIndex::S6 => 22,
            GprIndex::S7 => 23,
            GprIndex::S8 => 24,
            GprIndex::S9 => 25,
            GprIndex::S10 => 26,
            GprIndex::S11 => 27,
            GprIndex::T3 => 28,
            GprIndex::T4 => 29,
            GprIndex::T5 => 30,
            GprIndex::T6 => 31,
        }
    }
}

/// The 32 general-purpose registers of a hart, as saved on a trap.
#[derive(Clone, Copy, Debug, PartialEq, Eq)]
pub struct GeneralPurposeRegisters {
    pub regs: [u64; 32],
}

impl GeneralPurposeRegisters {
    /// A register file with every register zero.
    pub fn new() -> (r: Self)
        ensures
            forall|i: int| 0 <= i < 32 ==> r.regs@[i] == 0,
    {
        GeneralPurposeRegisters { regs: [0; 32] }
    }

    /// Reads the register at `idx`.
    pub fn reg(&self, idx: GprIndex) -> (r: u64)
        ensures
            r == self.regs@[idx.spec_index()],
    {
        self.regs[idx.index()]
    }

    /// Writes `val` to the register at `idx`.
    pub fn set_reg(&mut self, idx: GprIndex, val: u64)
        ensures
            final(self).regs@ == old(self).regs@.update(idx.spec_index(), val),
    {
        self.regs[idx.index()] = val;
    }

    /// The argument registers A0 through A7, in order.
    pub fn a_regs(&self) -> (r: [u64; 8])
        ensures
            forall|i: int| 0 <= i < 8 ==> r@[i] == self.regs@[10 + i],
    {
        [
            self.regs[10],
            self.regs[11],
            self.regs[12],
            self.regs[13],
            self.regs[14],
            self.regs[15],
            self.regs[16],
            self.regs[17],
        ]
    }
}

/// The synchronous exceptions a trap can report, by their `scause` codes.
#[derive(Clone, Copy, Debug, PartialEq, Eq, Structural)]
pub enum Exception {
    InstructionMisaligned,
    InstructionFault,
    IllegalInstruction,
    Breakpoint,
    LoadMisaligned,
    LoadFault,
    StoreMisaligned,
    StoreFault,
    UserEnvCall,
    SupervisorEnvCall,
    VirtualSupervisorEnvCall,
    MachineEnvCall,
    InstructionPageFault,
    LoadPageFault,
    StorePageFault,
    GuestInstructionPageFault,
    GuestLoadPageFault,
    VirtualInstruction,
    GuestStorePageFault,
}

/// The interrupts a trap can report, by their `scause` codes.
#[derive(Clone, Copy, Debug, PartialEq, Eq, Structural)]
pub enum Interrupt {
    SupervisorSoft,
    VirtualSupervisorSoft,
    SupervisorTimer,
    VirtualSupervisorTimer,
    SupervisorExternal,
    VirtualSupervisorExternal,
}

/// A decoded trap cause: either an exception or an interrupt.
#[derive(Clone, Copy, Debug, PartialEq, Eq, Structural)]
pub enum Trap {
    Exception(Exception),
    Interrupt(Interrupt),
}

/// The decoding of an `scause` value: the top bit selects interrupts, the
/// remaining bits hold the cause code.
pub open spec fn spec_trap_of_scause(scause: u64) -> Option<Trap> {
    if scause >= SCAUSE_INTERRUPT_BIT {
        match (scause - SCAUSE_INTERRUPT_BIT) as u64 {
            1u64 => Some(Trap::Interrupt(Interrupt::SupervisorSoft)),
            2u64 => Some(Trap::Interrupt(Interrupt::VirtualSupervisorSoft)),
            5u64 => Some(Trap::Interrupt(Interrupt::SupervisorTimer)),
            6u64 => Some(Trap::Interrupt(Interrupt::VirtualSupervisorTimer)),
            9u64 => Some(Trap::Interrupt(Interrupt::SupervisorExternal)),
            10u64 => Some(Trap::Interrupt(Interrupt::VirtualSupervisorExternal)),
            _ => None,
        }
    } else {
        match scause {
            0u64 => Some(Trap::Exception(Exception::InstructionMisaligned)),
            1u64 => Some(Trap::Exception(Exception::InstructionFault)),
            2u64 => Some(Trap::Exception(Exception::IllegalInstruction)),
            3u64 => Some(Trap::Exception(Exception::Breakpoint)),
            4u64 => Some(Trap::Exception(Exception::LoadMisaligned)),
            5u64 => Some(Trap::Exception(Exception::LoadFault)),
            6u64 => Some(Trap::Exception(Exception::StoreMisaligned)),
            7u64 => Some(Trap::Exception(Exception::StoreFault)),
            8u64 => Some(Trap::Exception(Exception::UserEnvCall)),
            9u64 => Some(Trap::Exception(Exception::SupervisorEnvCall)),
            10u64 => Some(Trap::Exception(Exception::VirtualSupervisorEnvCall)),
            11u64 => Some(Trap::Exception(Exception::MachineEnvCall)),
            12u64 => Some(Trap::Exception(Exception::InstructionPageFault)),
            13u64 => Some(Trap::Exception(Exception::LoadPageFault)),
            15u64 => Some(Trap::Exception(Exception::StorePageFault)),
            20u64 => Some(Trap::Exception(Exception::GuestInstructionPageFault)),
            21u64 => Some(Trap::Exception(Exception::GuestLoadPageFault)),
            22u64 => Some(Trap::Exception(Exception::VirtualInstruction)),
            23u64 => Some(Trap::Exception(Exception::GuestStorePageFault)),
            _ => None,
        }
    }
}

impl Trap {
    /// Decodes a saved `scause` value; unknown codes yield nothing.
    pub fn from_scause(scause: u64) -> (r: Option<Trap>)
        ensures
            r == spec_trap_of_scause(scause),
    {
        if scause >= SCAUSE_INTERRUPT_BIT {
            match scause - SCAUSE_INTERRUPT_BIT {
                1 => Some(Trap::Interrupt(Interrupt::SupervisorSoft)),
                2 => Some(Trap::Interrupt(Interrupt::VirtualSupervisorSoft)),
                5 => Some(Trap::Interrupt(Interrupt::SupervisorTimer)),
                6 => Some(Trap::Interrupt(Interrupt::VirtualSupervisorTimer)),
                9 => Some(Trap::Interrupt(Interrupt::SupervisorExternal)),
                10 => Some(Trap::Interrupt(Interrupt::VirtualSupervisorExternal)),
                _ => None,
            }
        } else {
            match scause {
                0 => Some(Trap::Exception(Exception::InstructionMisaligned)),
                1 => Some(Trap::Exception(Exception::InstructionFault)),
                2 => Some(Trap::Exception(Exception::IllegalInstruction)),
                3 => Some(Trap::Exception(Exception::Breakpoint)),
                4 => Some(Trap::Exception(Exception::LoadMisaligned)),
                5 => Some(Trap::Exception(Exception::LoadFault)),
                6 => Some(Trap::Exception(Exception::StoreMisaligned)),
                7 => Some(Trap::Exception(Exception::StoreFault)),
                8 => Some(Trap::Exception(Exception::UserEnvCall)),
                9 => Some(Trap::Exception(Exception::SupervisorEnvCall)),
                10 => Some(Trap::Exception(Exception::VirtualSupervisorEnvCall)),
                11 => Some(Trap::Exception(Exception::MachineEnvCall)),
                12 => Some(Trap::Exception(Exception::InstructionPageFault)),
                13 => Some(Trap::Exception(Exception::LoadPageFault)),
                15 => Some(Trap::Exception(Exception::StorePageFault)),
                20 => Some(Trap::Exception(Exception::GuestInstructionPageFault)),
                21 => Some(Trap::Exception(Exception::GuestLoadPageFault)),
                22 => Some(Trap::Exception(Exception::VirtualInstruction)),
                23 => Some(Trap::Exception(Exception::GuestStorePageFault)),
                _ => None,
            }
        }
    }
}

} // verus!

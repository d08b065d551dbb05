//! SBI message parsing and encoding. [`SbiMessage`] is an enum of all the
//! SBI extensions the hypervisor speaks; for each extension a function enum
//! carries that extension's decoded arguments. The calling convention
//! passes up to 8 arguments in registers A0..A7: A7 selects the extension,
//! A6 the function within it, and a call returns an error code in A0 and a
//! return value in A1.

use vstd::prelude::*;

use crate::regs::{GeneralPurposeRegisters, GprIndex};

verus! {

pub const EXT_PUT_CHAR: u64 = 0x01;

pub const EXT_BASE: u64 = 0x10;

pub const EXT_HART_STATE: u64 = 0x48534D;

pub const EXT_RESET: u64 = 0x53525354;

pub const EXT_TEE: u64 = 0x544545;

pub const SBI_SUCCESS: i64 = 0;

pub const SBI_ERR_FAILED: i64 = -1;

pub const SBI_ERR_NOT_SUPPORTED: i64 = -2;

pub const SBI_ERR_INVALID_PARAM: i64 = -3;

pub const SBI_ERR_DENIED: i64 = -4;

pub const SBI_ERR_INVALID_ADDRESS: i64 = -5;

pub const SBI_ERR_ALREADY_AVAILABLE: i64 = -6;

pub const SBI_ERR_ALREADY_STARTED: i64 = -7;

pub const SBI_ERR_ALREADY_STOPPED: i64 = -8;

/// Errors passed over the SBI protocol.
#[derive(Clone, Copy, Debug, PartialEq, Eq, Structural)]
pub enum Error {
    InvalidAddress,
    InvalidParam,
    Failed,
    NotSupported,
    UnknownSbiExtension,
}

impl Error {
    /// The error a wire code decodes to: unrecognized codes collapse to
    /// `Failed`.
    pub open spec fn spec_from_code(e: i64) -> Error {
        if e == SBI_ERR_INVALID_ADDRESS {
            Error::InvalidAddress
        } else if e == SBI_ERR_INVALID_PARAM {
            Error::InvalidParam
        } else if e == SBI_ERR_NOT_SUPPORTED {
            Error::NotSupported
        } else {
            Error::Failed
        }
    }

    /// The wire code of this error.
    pub open spec fn spec_code(self) -> i64 {
        match self {
            Error::InvalidAddress => SBI_ERR_INVALID_ADDRESS,
            Error::InvalidParam => SBI_ERR_INVALID_PARAM,
            Error::Failed => SBI_ERR_FAILED,
            Error::NotSupported => SBI_ERR_NOT_SUPPORTED,
            Error::UnknownSbiExtension => SBI_ERR_INVALID_PARAM,
        }
    }

    /// Parses the given error code to an `Error`.
    pub fn from_code(e: i64) -> (r: Self)
        ensures
            r == Error::spec_from_code(e),
    {
        match e {
            SBI_ERR_INVALID_ADDRESS => Error::InvalidAddress,
            SBI_ERR_INVALID_PARAM => Error::InvalidParam,
            SBI_ERR_NOT_SUPPORTED => Error::NotSupported,
            _ => Error::Failed,
        }
    }

    /// Converts this error to the 64-bit code returned over SBI.
    pub fn to_code(&self) -> (r: i64)
        ensures
            r == self.spec_code(),
    {
        match self {
            Error::InvalidAddress => SBI_ERR_INVALID_ADDRESS,
            Error::InvalidParam => SBI_ERR_INVALID_PARAM,
            Error::Failed => SBI_ERR_FAILED,
            Error::NotSupported => SBI_ERR_NOT_SUPPORTED,
            Error::UnknownSbiExtension => SBI_ERR_INVALID_PARAM,
        }
    }
}

/// Functions defined for the Base extension.
#[derive(Clone, Copy, Debug, PartialEq, Eq, Structural)]
pub enum BaseFunction {
    GetSpecificationVersion,
    GetImplementationID,
    GetImplementationVersion,
    GetMachineVendorID,
    GetMachineArchitectureID,
    GetMachineImplementationID,
}

impl BaseFunction {
    /// The decoding of the function selector A6 for the Base extension.
    pub open spec fn spec_from_func_id(a6: u64) -> Result<BaseFunction, Error> {
        match a6 {
            0u64 => Ok(BaseFunction::GetSpecificationVersion),
            1u64 => Ok(BaseFunction::GetImplementationID),
            2u64 => Ok(BaseFunction::GetImplementationVersion),
            3u64 => Ok(BaseFunction::GetMachineVendorID),
            4u64 => Ok(BaseFunction::GetMachineArchitectureID),
            5u64 => Ok(BaseFunction::GetMachineImplementationID),
            _ => Err(Error::InvalidParam),
        }
    }

    /// Decodes the function selector A6 for the Base extension.
    pub fn from_func_id(a6: u64) -> (r: Result<Self, Error>)
        ensures
            r == BaseFunction::spec_from_func_id(a6),
    {
        match a6 {
            0 => Ok(BaseFunction::GetSpecificationVersion),
            1 => Ok(BaseFunction::GetImplementationID),
            2 => Ok(BaseFunction::GetImplementationVersion),
            3 => Ok(BaseFunction::GetMachineVendorID),
            4 => Ok(BaseFunction::GetMachineArchitectureID),
            5 => Ok(BaseFunction::GetMachineImplementationID),
            _ => Err(Error::InvalidParam),
        }
    }
}

/// Functions defined for the hart-state extension.
#[derive(Clone, Copy, Debug, PartialEq, Eq, Structural)]
pub enum StateFunction {
    HartStart,
    HartStop,
    HartStatus,
    HartSuspend,
}

impl StateFunction {
    /// The decoding of the function selector A6 for the hart-state
    /// extension.
    pub open spec fn spec_from_func_id(a6: u64) -> Result<StateFunction, Error> {
        match a6 {
            0u64 => Ok(StateFunction::HartStart),
            1u64 => Ok(StateFunction::HartStop),
            2u64 => Ok(StateFunction::HartStatus),
            3u64 => Ok(StateFunction::HartSuspend),
            _ => Err(Error::InvalidParam),
        }
    }

    /// Decodes the function selector A6 for the hart-state extension.
    pub fn from_func_id(a6: u64) -> (r: Result<Self, Error>)
        ensures
            r == StateFunction::spec_from_func_id(a6),
    {
        match a6 {
            0 => Ok(StateFunction::HartStart),
            1 => Ok(StateFunction::HartStop),
            2 => Ok(StateFunction::HartStatus),
            3 => Ok(StateFunction::HartSuspend),
            _ => Err(Error::InvalidParam),
        }
    }
}

/// What a reset request asks for.
#[derive(Clone, Copy, Debug, PartialEq, Eq, Structural)]
pub enum ResetType {
    Shutdown,
    ColdReset,
    WarmReset,
}

impl ResetType {
    /// The decoding of a reset-type register value.
    pub open spec fn spec_from_reg(a: u64) -> Result<ResetType, Error> {
        match a {
            0u64 => Ok(ResetType::Shutdown),
            1u64 => Ok(ResetType::ColdReset),
            2u64 => Ok(ResetType::WarmReset),
            _ => Err(Error::InvalidParam),
        }
    }

    /// The wire value of this reset type.
    pub open spec fn spec_reg(self) -> u64 {
        match self {
            ResetType::Shutdown => 0,
            ResetType::ColdReset => 1,
            ResetType::WarmReset => 2,
        }
    }

    /// Decodes a reset-type register value.
    pub fn from_reg(a: u64) -> (r: Result<Self, Error>)
        ensures
            r == ResetType::spec_from_reg(a),
    {
        match a {
            0 => Ok(ResetType::Shutdown),
            1 => Ok(ResetType::ColdReset),
            2 => Ok(ResetType::WarmReset),
            _ => Err(Error::InvalidParam),
        }
    }

    /// The wire value of this reset type.
    pub fn as_reg(&self) -> (r: u64)
        ensures
            r == self.spec_reg(),
    {
        match self {
            ResetType::Shutdown => 0,
            ResetType::ColdReset => 1,
            ResetType::WarmReset => 2,
        }
    }
}

/// Why a reset was requested.
#[derive(Clone, Copy, Debug, PartialEq, Eq, Structural)]
pub enum ResetReason {
    NoReason,
    SystemFailure,
}

impl ResetReason {
    /// The decoding of a reset-reason register value.
    pub open spec fn spec_from_reg(a: u64) -> Result<ResetReason, Error> {
        match a {
            0u64 => Ok(ResetReason::NoReason),
            2u64 => Ok(ResetReason::SystemFailure),
            _ => Err(Error::InvalidParam),
        }
    }

    /// The wire value of this reset reason.
    pub open spec fn spec_reg(self) -> u64 {
        match self {
            ResetReason::NoReason => 0,
            ResetReason::SystemFailure => 2,
        }
    }

    /// Decodes a reset-reason register value.
    pub fn from_reg(a: u64) -> (r: Result<Self, Error>)
        ensures
            r == ResetReason::spec_from_reg(a),
    {
        match a {
            0 => Ok(ResetReason::NoReason),
            2 => Ok(ResetReason::SystemFailure),
            _ => Err(Error::InvalidParam),
        }
    }

    /// The wire value of this reset reason.
    pub fn as_reg(&self) -> (r: u64)
        ensures
            r == self.spec_reg(),
    {
        match self {
            ResetReason::NoReason => 0,
            ResetReason::SystemFailure => 2,
        }
    }
}

/// Functions for the Reset extension. On the wire the reset type travels
/// in A0 and the reason in A1, both when parsing and when emitting.
#[derive(Clone, Copy, Debug, PartialEq, Eq, Structural)]
pub enum ResetFunction {
    Reset { reset_type: ResetType, reason: ResetReason },
}

impl ResetFunction {
    /// A plain shutdown request.
    pub fn shutdown() -> (r: Self)
        ensures
            r == (ResetFunction::Reset {
                reset_type: ResetType::Shutdown,
                reason: ResetReason::NoReason,
            }),
    {
        ResetFunction::Reset { reset_type: ResetType::Shutdown, reason: ResetReason::NoReason }
    }

    /// The decoding of a reset request from A6, A0 and A1.
    pub open spec fn spec_from_regs(a6: u64, a0: u64, a1: u64) -> Result<ResetFunction, Error> {
        if a6 != 0 {
            Err(Error::InvalidParam)
        } else {
            match ResetType::spec_from_reg(a0) {
                Ok(reset_type) => match ResetReason::spec_from_reg(a1) {
                    Ok(reason) => Ok(ResetFunction::Reset { reset_type, reason }),
                    Err(e) => Err(e),
                },
                Err(e) => Err(e),
            }
        }
    }

    /// Decodes a reset request from A6, A0 and A1.
    pub fn from_regs(a6: u64, a0: u64, a1: u64) -> (r: Result<Self, Error>)
        ensures
            r == ResetFunction::spec_from_regs(a6, a0, a1),
    {
        if a6 != 0 {
            return Err(Error::InvalidParam);
        }
        let reset_type = match ResetType::from_reg(a0) {
            Ok(t) => t,
            Err(e) => {
                return Err(e);
            },
        };
        let reason = match ResetReason::from_reg(a1) {
            Ok(t) => t,
            Err(e) => {
                return Err(e);
            },
        };
        Ok(ResetFunction::Reset { reset_type, reason })
    }

    /// The A0 value of this request: the reset type.
    pub open spec fn spec_a0(self) -> u64 {
        match self {
            ResetFunction::Reset { reset_type, reason } => reset_type.spec_reg(),
        }
    }

    /// The A1 value of this request: the reset reason.
    pub open spec fn spec_a1(self) -> u64 {
        match self {
            ResetFunction::Reset { reset_type, reason } => reason.spec_reg(),
        }
    }

    /// The A0 value of this request: the reset type.
    pub fn get_a0(&self) -> (r: u64)
        ensures
            r == self.spec_a0(),
    {
        match self {
            ResetFunction::Reset { reset_type, reason: _ } => reset_type.as_reg(),
        }
    }

    /// The A1 value of this request: the reset reason.
    pub fn get_a1(&self) -> (r: u64)
        ensures
            r == self.spec_a1(),
    {
        match self {
            ResetFunction::Reset { reset_type: _, reason } => reason.as_reg(),
        }
    }
}

/// The functions of the TEE extension, by which the host drives the
/// lifecycle of its confidential guests.
#[derive(Clone, Copy, Debug, PartialEq, Eq, Structural)]
pub enum TeeFunction {
    /// Creates a TVM from 5 contiguous, 16 KiB-aligned 4 KiB donor pages:
    /// four for the top-level page table, the fifth for state tracking.
    /// A6 = 0, A0 = address of the donor pages.
    TvmCreate(u64),
    /// Destroys a TVM created with `TvmCreate`.
    /// A6 = 1, A0 = guest id returned from `TvmCreate`.
    TvmDestroy { guest_id: u64 },
    /// Adds 4 KiB pages to a TVM's page-table pool. Pages must be added to
    /// the page table before mappings for more memory can be made.
    /// A6 = 2, A0 = guest id, A1 = address of the first page, A2 = count.
    AddPageTablePages { guest_id: u64, page_addr: u64, num_pages: u64 },
    /// Adds data pages to a TVM.
    /// A6 = 3, A0 = guest id, A1 = address of the first page,
    /// A2 = page type (0 = 4 KiB, 1 = 2 MiB, 2 = 1 GiB, 3 = 512 GiB),
    /// A3 = count, A4 = guest physical address, A5 = if zero, the pages are
    /// zeroed before they are handed to the guest (allowed only before the
    /// guest is finalized; the pages join the guest's measurement).
    AddPages {
        guest_id: u64,
        page_addr: u64,
        page_type: u64,
        num_pages: u64,
        gpa: u64,
        measure_preserve: bool,
    },
    /// Moves a TVM from the initializing state to the runnable state.
    /// A6 = 4, A0 = guest id.
    Finalize { guest_id: u64 },
    /// Runs the given TVM.
    /// A6 = 5, A0 = guest id.
    Run { guest_id: u64 },
    /// Removes pages previously added with `AddPages`.
    /// A6 = 6, A0 = guest id, A1 = guest address to unmap, A2 = address to
    /// remap the pages to in the requestor (accepted but unused), A3 =
    /// count.
    RemovePages { guest_id: u64, gpa: u64, remap_addr: u64, num_pages: u64 },
    /// Writes the guest's measurement to the given page.
    /// A6 = 7, A0 = guest id, A1 = measurement version, A2 = measurement
    /// type, A3 = page address.
    GetGuestMeasurement { guest_id: u64, measurement_version: u64, measurement_type: u64, page_addr: u64 },
}

impl TeeFunction {
    /// The decoding of a TEE call from the argument registers A0..A7
    /// (`args[6]` is A6, the function selector).
    pub open spec fn spec_from_regs(args: Seq<u64>) -> Result<TeeFunction, Error> {
        match args[6] {
            0u64 => Ok(TeeFunction::TvmCreate(args[0])),
            1u64 => Ok(TeeFunction::TvmDestroy { guest_id: args[0] }),
            2u64 => Ok(
                TeeFunction::AddPageTablePages {
                    guest_id: args[0],
                    page_addr: args[1],
                    num_pages: args[2],
                },
            ),
            3u64 => Ok(
                TeeFunction::AddPages {
                    guest_id: args[0],
                    page_addr: args[1],
                    page_type: args[2],
                    num_pages: args[3],
                    gpa: args[4],
                    measure_preserve: args[5] == 0,
                },
            ),
            4u64 => Ok(TeeFunction::Finalize { guest_id: args[0] }),
            5u64 => Ok(TeeFunction::Run { guest_id: args[0] }),
            6u64 => Ok(
                TeeFunction::RemovePages {
                    guest_id: args[0],
                    gpa: args[1],
                    remap_addr: args[2],
                    num_pages: args[3],
                },
            ),
            7u64 => Ok(
                TeeFunction::GetGuestMeasurement {
                    guest_id: args[0],
                    measurement_version: args[1],
                    measurement_type: args[2],
                    page_addr: args[3],
                },
            ),
            _ => Err(Error::InvalidParam),
        }
    }

    /// Decodes a TEE call; takes the argument registers A0..A7 as input.
    pub fn from_regs(args: &[u64]) -> (r: Result<Self, Error>)
        requires
            args@.len() >= 7,
        ensures
            r == TeeFunction::spec_from_regs(args@),
    {
        match args[6] {
            0 => Ok(TeeFunction::TvmCreate(args[0])),
            1 => Ok(TeeFunction::TvmDestroy { guest_id: args[0] }),
            2 => Ok(
                TeeFunction::AddPageTablePages {
                    guest_id: args[0],
                    page_addr: args[1],
                    num_pages: args[2],
                },
            ),
            3 => Ok(
                TeeFunction::AddPages {
                    guest_id: args[0],
                    page_addr: args[1],
                    page_type: args[2],
                    num_pages: args[3],
                    gpa: args[4],
                    measure_preserve: args[5] == 0,
                },
            ),
            4 => Ok(TeeFunction::Finalize { guest_id: args[0] }),
            5 => Ok(TeeFunction::Run { guest_id: args[0] }),
            6 => Ok(
                TeeFunction::RemovePages {
                    guest_id: args[0],
                    gpa: args[1],
                    remap_addr: args[2],
                    num_pages: args[3],
                },
            ),
            7 => Ok(
                TeeFunction::GetGuestMeasurement {
                    guest_id: args[0],
                    measurement_version: args[1],
                    measurement_type: args[2],
                    page_addr: args[3],
                },
            ),
            _ => Err(Error::InvalidParam),
        }
    }

    /// The function selector A6 of this call.
    pub open spec fn spec_a6(self) -> u64 {
        match self {
            TeeFunction::TvmCreate(_) => 0,
            TeeFunction::TvmDestroy { .. } => 1,
            TeeFunction::AddPageTablePages { .. } => 2,
            TeeFunction::AddPages { .. } => 3,
            TeeFunction::Finalize { .. } => 4,
            TeeFunction::Run { .. } => 5,
            TeeFunction::RemovePages { .. } => 6,
            TeeFunction::GetGuestMeasurement { .. } => 7,
        }
    }

    /// The A0 argument of this call.
    pub open spec fn spec_a0(self) -> u64 {
        match self {
            TeeFunction::TvmCreate(page_addr) => page_addr,
            TeeFunction::TvmDestroy { guest_id } => guest_id,
            TeeFunction::AddPageTablePages { guest_id, .. } => guest_id,
            TeeFunction::AddPages { guest_id, .. } => guest_id,
            TeeFunction::Finalize { guest_id } => guest_id,
            TeeFunction::Run { guest_id } => guest_id,
            TeeFunction::RemovePages { guest_id, .. } => guest_id,
            TeeFunction::GetGuestMeasurement { guest_id, .. } => guest_id,
        }
    }

    /// The A1 argument of this call.
    pub open spec fn spec_a1(self) -> u64 {
        match self {
            TeeFunction::AddPageTablePages { page_addr, .. } => page_addr,
            TeeFunction::AddPages { page_addr, .. } => page_addr,
            TeeFunction::RemovePages { gpa, .. } => gpa,
            TeeFunction::GetGuestMeasurement { measurement_version, .. } => measurement_version,
            _ => 0,
        }
    }

    /// The A2 argument of this call.
    pub open spec fn spec_a2(self) -> u64 {
        match self {
            TeeFunction::AddPageTablePages { num_pages, .. } => num_pages,
            TeeFunction::AddPages { page_type, .. } => page_type,
            TeeFunction::RemovePages { remap_addr, .. } => remap_addr,
            TeeFunction::GetGuestMeasurement { measurement_type, .. } => measurement_type,
            _ => 0,
        }
    }

    /// The A3 argument of this call.
    pub open spec fn spec_a3(self) -> u64 {
        match self {
            TeeFunction::AddPages { num_pages, .. } => num_pages,
            TeeFunction::RemovePages { num_pages, .. } => num_pages,
            TeeFunction::GetGuestMeasurement { page_addr, .. } => page_addr,
            _ => 0,
        }
    }

    /// The A4 argument of this call.
    pub open spec fn spec_a4(self) -> u64 {
        match self {
            TeeFunction::AddPages { gpa, .. } => gpa,
            _ => 0,
        }
    }

    /// The A5 argument of this call.
    pub open spec fn spec_a5(self) -> u64 {
        match self {
            TeeFunction::AddPages { measure_preserve, .. } => if measure_preserve {
                0
            } else {
                1
            },
            _ => 0,
        }
    }

    /// The function selector A6 of this call.
    pub fn a6(&self) -> (r: u64)
        ensures
            r == self.spec_a6(),
    {
        match self {
            TeeFunction::TvmCreate(_) => 0,
            TeeFunction::TvmDestroy { .. } => 1,
            TeeFunction::AddPageTablePages { .. } => 2,
            TeeFunction::AddPages { .. } => 3,
            TeeFunction::Finalize { .. } => 4,
            TeeFunction::Run { .. } => 5,
            TeeFunction::RemovePages { .. } => 6,
            TeeFunction::GetGuestMeasurement { .. } => 7,
        }
    }

    /// The A0 argument of this call.
    pub fn a0(&self) -> (r: u64)
        ensures
            r == self.spec_a0(),
    {
        match self {
            TeeFunction::TvmCreate(page_addr) => *page_addr,
            TeeFunction::TvmDestroy { guest_id } => *guest_id,
            TeeFunction::AddPageTablePages { guest_id, .. } => *guest_id,
            TeeFunction::AddPages { guest_id, .. } => *guest_id,
            TeeFunction::Finalize { guest_id } => *guest_id,
            TeeFunction::Run { guest_id } => *guest_id,
            TeeFunction::RemovePages { guest_id, .. } => *guest_id,
            TeeFunction::GetGuestMeasurement { guest_id, .. } => *guest_id,
        }
    }

    /// The A1 argument of this call.
    pub fn a1(&self) -> (r: u64)
        ensures
            r == self.spec_a1(),
    {
        match self {
            TeeFunction::AddPageTablePages { page_addr, .. } => *page_addr,
            TeeFunction::AddPages { page_addr, .. } => *page_addr,
            TeeFunction::RemovePages { gpa, .. } => *gpa,
            TeeFunction::GetGuestMeasurement { measurement_version, .. } => *measurement_version,
            _ => 0,
        }
    }

    /// The A2 argument of this call.
    pub fn a2(&self) -> (r: u64)
        ensures
            r == self.spec_a2(),
    {
        match self {
            TeeFunction::AddPageTablePages { num_pages, .. } => *num_pages,
            TeeFunction::AddPages { page_type, .. } => *page_type,
            TeeFunction::RemovePages { remap_addr, .. } => *remap_addr,
            TeeFunction::GetGuestMeasurement { measurement_type, .. } => *measurement_type,
            _ => 0,
        }
    }

    /// The A3 argument of this call.
    pub fn a3(&self) -> (r: u64)
        ensures
            r == self.spec_a3(),
    {
        match self {
            TeeFunction::AddPages { num_pages, .. } => *num_pages,
            TeeFunction::RemovePages { num_pages, .. } => *num_pages,
            TeeFunction::GetGuestMeasurement { page_addr, .. } => *page_addr,
            _ => 0,
        }
    }

    /// The A4 argument of this call.
    pub fn a4(&self) -> (r: u64)
        ensures
            r == self.spec_a4(),
    {
        match self {
            TeeFunction::AddPages { gpa, .. } => *gpa,
            _ => 0,
        }
    }

    /// The A5 argument of this call.
    pub fn a5(&self) -> (r: u64)
        ensures
            r == self.spec_a5(),
    {
        match self {
            TeeFunction::AddPages { measure_preserve, .. } => {
                if *measure_preserve {
                    0
                } else {
                    1
                }
            },
            _ => 0,
        }
    }

    /// Interprets the A0/A1 values returned for this call: A0 carries the
    /// error code (zero on success) and A1 the return value.
    pub fn result(&self, a0: u64, a1: u64) -> (r: Result<u64, Error>)
        ensures
            a0 == 0 ==> r == Ok::<u64, Error>(a1),
            a0 != 0 ==> r == Err::<u64, Error>(Error::spec_from_code(a0 as i64)),
    {
        match a0 {
            0 => Ok(a1),
            e => Err(Error::from_code(e as i64)),
        }
    }
}

/// The two registers an SBI call returns: an error code in A0 and a return
/// value in A1.
#[derive(Clone, Copy, Debug, PartialEq, Eq, Structural)]
pub struct SbiReturn {
    pub error_code: i64,
    pub return_value: u64,
}

impl SbiReturn {
    /// A successful return carrying `return_value`.
    pub fn success(return_value: u64) -> (r: Self)
        ensures
            r == (SbiReturn { error_code: SBI_SUCCESS, return_value }),
    {
        SbiReturn { error_code: SBI_SUCCESS, return_value }
    }
}

impl From<Error> for SbiReturn {
    /// The return an error maps to: its code, with a zero return value.
    fn from(error: Error) -> SbiReturn {
        SbiReturn { error_code: error.to_code(), return_value: 0 }
    }
}

impl vstd::std_specs::convert::FromSpecImpl<Error> for SbiReturn {
    open spec fn obeys_from_spec() -> bool {
        true
    }

    open spec fn from_spec(error: Error) -> SbiReturn {
        SbiReturn { error_code: error.spec_code(), return_value: 0 }
    }
}

impl From<Result<u64, Error>> for SbiReturn {
    /// The return a result maps to: success with the carried value, or the
    /// error's code.
    fn from(result: Result<u64, Error>) -> SbiReturn {
        match result {
            Ok(rv) => Self::success(rv),
            Err(e) => Self::from(e),
        }
    }
}

impl vstd::std_specs::convert::FromSpecImpl<Result<u64, Error>> for SbiReturn {
    open spec fn obeys_from_spec() -> bool {
        true
    }

    open spec fn from_spec(result: Result<u64, Error>) -> SbiReturn {
        match result {
            Ok(rv) => SbiReturn { error_code: SBI_SUCCESS, return_value: rv },
            Err(e) => SbiReturn { error_code: e.spec_code(), return_value: 0 },
        }
    }
}

/// An SBI message: one of the extensions the hypervisor speaks, with its
/// decoded arguments.
#[derive(Clone, Copy, Debug, PartialEq, Eq, Structural)]
pub enum SbiMessage {
    Base(BaseFunction),
    PutChar(u64),
    HartState(StateFunction),
    Reset(ResetFunction),
    Tee(TeeFunction),
}

impl SbiMessage {
    /// The decoding of a message from a saved register file (A7 selects the
    /// extension, the other argument registers are interpreted per
    /// extension).
    pub open spec fn spec_from_regs(regs: Seq<u64>) -> Result<SbiMessage, Error> {
        let a7 = regs[17];
        if a7 == EXT_PUT_CHAR {
            Ok(SbiMessage::PutChar(regs[10]))
        } else if a7 == EXT_BASE {
            match BaseFunction::spec_from_func_id(regs[16]) {
                Ok(f) => Ok(SbiMessage::Base(f)),
                Err(e) => Err(e),
            }
        } else if a7 == EXT_HART_STATE {
            match StateFunction::spec_from_func_id(regs[16]) {
                Ok(f) => Ok(SbiMessage::HartState(f)),
                Err(e) => Err(e),
            }
        } else if a7 == EXT_RESET {
            match ResetFunction::spec_from_regs(regs[16], regs[10], regs[11]) {
                Ok(f) => Ok(SbiMessage::Reset(f)),
                Err(e) => Err(e),
            }
        } else if a7 == EXT_TEE {
            match TeeFunction::spec_from_regs(regs.subrange(10, 18)) {
                Ok(f) => Ok(SbiMessage::Tee(f)),
                Err(e) => Err(e),
            }
        } else {
            Err(Error::UnknownSbiExtension)
        }
    }

    /// Creates an `SbiMessage` from the given saved register state.
    /// Intended for use from the ecall handler: A7 must contain a valid SBI
    /// extension and the other A registers are interpreted based on the
    /// extension A7 selects.
    pub fn from_regs(gprs: &GeneralPurposeRegisters) -> (r: Result<Self, Error>)
        ensures
            r == SbiMessage::spec_from_regs(gprs.regs@),
    {
        let a7 = gprs.reg(GprIndex::A7);
        if a7 == EXT_PUT_CHAR {
            Ok(SbiMessage::PutChar(gprs.reg(GprIndex::A0)))
        } else if a7 == EXT_BASE {
            match BaseFunction::from_func_id(gprs.reg(GprIndex::A6)) {
                Ok(f) => Ok(SbiMessage::Base(f)),
                Err(e) => Err(e),
            }
        } else if a7 == EXT_HART_STATE {
            match StateFunction::from_func_id(gprs.reg(GprIndex::A6)) {
                Ok(f) => Ok(SbiMessage::HartState(f)),
                Err(e) => Err(e),
            }
        } else if a7 == EXT_RESET {
            match ResetFunction::from_regs(
                gprs.reg(GprIndex::A6),
                gprs.reg(GprIndex::A0),
                gprs.reg(GprIndex::A1),
            ) {
                Ok(f) => Ok(SbiMessage::Reset(f)),
                Err(e) => Err(e),
            }
        } else if a7 == EXT_TEE {
            let a_regs = gprs.a_regs();
            proof {
                assert(a_regs@ =~= gprs.regs@.subrange(10, 18));
            }
            match TeeFunction::from_regs(a_regs.as_slice()) {
                Ok(f) => Ok(SbiMessage::Tee(f)),
                Err(e) => Err(e),
            }
        } else {
            Err(Error::UnknownSbiExtension)
        }
    }

    /// The A7 value of this message: its extension number.
    pub open spec fn spec_a7(self) -> u64 {
        match self {
            SbiMessage::Base(_) => EXT_BASE,
            SbiMessage::PutChar(_) => EXT_PUT_CHAR,
            SbiMessage::HartState(_) => EXT_HART_STATE,
            SbiMessage::Reset(_) => EXT_RESET,
            SbiMessage::Tee(_) => EXT_TEE,
        }
    }

    /// Returns the A7 register value for this message.
    pub fn a7(&self) -> (r: u64)
        ensures
            r == self.spec_a7(),
    {
        match self {
            SbiMessage::Base(_) => EXT_BASE,
            SbiMessage::PutChar(_) => EXT_PUT_CHAR,
            SbiMessage::HartState(_) => EXT_HART_STATE,
            SbiMessage::Reset(_) => EXT_RESET,
            SbiMessage::Tee(_) => EXT_TEE,
        }
    }

    /// The A6 value of this message: its function selector.
    pub open spec fn spec_a6(self) -> u64 {
        match self {
            SbiMessage::Tee(f) => f.spec_a6(),
            _ => 0,
        }
    }

    /// Returns the A6 register value for this message.
    pub fn a6(&self) -> (r: u64)
        ensures
            r == self.spec_a6(),
    {
        match self {
            SbiMessage::Base(_) => 0,
            SbiMessage::HartState(_) => 0,
            SbiMessage::PutChar(_) => 0,
            SbiMessage::Reset(_) => 0,
            SbiMessage::Tee(f) => f.a6(),
        }
    }

    /// Returns the A5 register value for this message.
    pub fn a5(&self) -> (r: u64)
        ensures
            r == (match *self {
                SbiMessage::Tee(f) => f.spec_a5(),
                _ => 0,
            }),
    {
        match self {
            SbiMessage::Tee(f) => f.a5(),
            _ => 0,
        }
    }

    /// Returns the A4 register value for this message.
    pub fn a4(&self) -> (r: u64)
        ensures
            r == (match *self {
                SbiMessage::Tee(f) => f.spec_a4(),
                _ => 0,
            }),
    {
        match self {
            SbiMessage::Tee(f) => f.a4(),
            _ => 0,
        }
    }

    /// Returns the A3 register value for this message.
    pub fn a3(&self) -> (r: u64)
        ensures
            r == (match *self {
                SbiMessage::Tee(f) => f.spec_a3(),
                _ => 0,
            }),
    {
        match self {
            SbiMessage::Tee(f) => f.a3(),
            _ => 0,
        }
    }

    /// Returns the A2 register value for this message.
    pub fn a2(&self) -> (r: u64)
        ensures
            r == (match *self {
                SbiMessage::Tee(f) => f.spec_a2(),
                _ => 0,
            }),
    {
        match self {
            SbiMessage::Tee(f) => f.a2(),
            _ => 0,
        }
    }

    /// Returns the A1 register value for this message.
    pub fn a1(&self) -> (r: u64)
        ensures
            r == (match *self {
                SbiMessage::Reset(f) => f.spec_a1(),
                SbiMessage::Tee(f) => f.spec_a1(),
                _ => 0,
            }),
    {
        match self {
            SbiMessage::Reset(f) => f.get_a1(),
            SbiMessage::Tee(f) => f.a1(),
            _ => 0,
        }
    }

    /// Returns the A0 register value for this message.
    pub fn a0(&self) -> (r: u64)
        ensures
            r == (match *self {
                SbiMessage::Reset(f) => f.spec_a0(),
                SbiMessage::PutChar(c) => c,
                SbiMessage::Tee(f) => f.spec_a0(),
                _ => 0,
            }),
    {
        match self {
            SbiMessage::Reset(f) => f.get_a0(),
            SbiMessage::PutChar(c) => *c,
            SbiMessage::Tee(f) => f.a0(),
            _ => 0,
        }
    }

    /// Interprets the A0/A1 values returned after this message has been
    /// handled by the firmware, based on the extension and function.
    pub fn result(&self, a0: u64, a1: u64) -> (r: Result<u64, Error>)
        ensures
            r == (match *self {
                SbiMessage::Base(_) => if a0 == 0 {
                    Ok::<u64, Error>(a1)
                } else {
                    Err::<u64, Error>(Error::InvalidParam)
                },
                SbiMessage::HartState(_) => Ok::<u64, Error>(a1),
                SbiMessage::PutChar(_) => Ok::<u64, Error>(0),
                SbiMessage::Reset(_) => Err::<u64, Error>(Error::InvalidParam),
                SbiMessage::Tee(_) => if a0 == 0 {
                    Ok::<u64, Error>(a1)
                } else {
                    Err::<u64, Error>(Error::spec_from_code(a0 as i64))
                },
            }),
    {
        match self {
            SbiMessage::Base(_) => {
                if a0 == 0 {
                    Ok(a1)
                } else {
                    Err(Error::InvalidParam)
                }
            },
            SbiMessage::HartState(_) => Ok(a1),
            SbiMessage::PutChar(_) => Ok(0),
            SbiMessage::Reset(_) => Err(Error::InvalidParam),
            SbiMessage::Tee(f) => f.result(a0, a1),
        }
    }
}

} // verus!

use salus_core::regs::{Exception, GeneralPurposeRegisters, GprIndex, Interrupt, Trap};
use salus_core::sbi::{
    BaseFunction, Error, ResetFunction, ResetReason, ResetType, SbiMessage, SbiReturn,
    StateFunction, TeeFunction, EXT_BASE, EXT_HART_STATE, EXT_PUT_CHAR, EXT_RESET, EXT_TEE,
    SBI_ERR_INVALID_PARAM, SBI_ERR_NOT_SUPPORTED, SBI_SUCCESS,
};

fn regs_with(a7: u64, a6: u64, a: [u64; 6]) -> GeneralPurposeRegisters {
    let mut gprs = GeneralPurposeRegisters::new();
    gprs.set_reg(GprIndex::A7, a7);
    gprs.set_reg(GprIndex::A6, a6);
    gprs.set_reg(GprIndex::A0, a[0]);
    gprs.set_reg(GprIndex::A1, a[1]);
    gprs.set_reg(GprIndex::A2, a[2]);
    gprs.set_reg(GprIndex::A3, a[3]);
    gprs.set_reg(GprIndex::A4, a[4]);
    gprs.set_reg(GprIndex::A5, a[5]);
    gprs
}

#[test]
fn error_codes_round_trip() {
    assert_eq!(Error::from_code(-5), Error::InvalidAddress);
    assert_eq!(Error::from_code(-3), Error::InvalidParam);
    assert_eq!(Error::from_code(-2), Error::NotSupported);
    assert_eq!(Error::from_code(-1), Error::Failed);
    // Unrecognized codes collapse to Failed.
    assert_eq!(Error::from_code(-77), Error::Failed);
    assert_eq!(Error::InvalidAddress.to_code(), -5);
    assert_eq!(Error::InvalidParam.to_code(), -3);
    assert_eq!(Error::Failed.to_code(), -1);
    assert_eq!(Error::NotSupported.to_code(), -2);
    assert_eq!(Error::UnknownSbiExtension.to_code(), SBI_ERR_INVALID_PARAM);
}

#[test]
fn base_and_state_selectors() {
    assert_eq!(
        BaseFunction::from_func_id(0).unwrap(),
        BaseFunction::GetSpecificationVersion
    );
    assert_eq!(
        BaseFunction::from_func_id(5).unwrap(),
        BaseFunction::GetMachineImplementationID
    );
    assert_eq!(BaseFunction::from_func_id(6).unwrap_err(), Error::InvalidParam);
    assert_eq!(StateFunction::from_func_id(3).unwrap(), StateFunction::HartSuspend);
    assert_eq!(StateFunction::from_func_id(4).unwrap_err(), Error::InvalidParam);
}

#[test]
fn reset_encoding_is_symmetric() {
    let f = ResetFunction::from_regs(0, 2, 2).unwrap();
    let ResetFunction::Reset { reset_type, reason } = f;
    assert_eq!(reset_type, ResetType::WarmReset);
    assert_eq!(reason, ResetReason::SystemFailure);
    // The reset type travels in A0 and the reason in A1, both directions.
    assert_eq!(f.get_a0(), 2);
    assert_eq!(f.get_a1(), 2);
    let s = ResetFunction::shutdown();
    assert_eq!(s.get_a0(), 0);
    assert_eq!(s.get_a1(), 0);
    assert_eq!(ResetFunction::from_regs(0, s.get_a0(), s.get_a1()).unwrap(), s);
    assert_eq!(ResetFunction::from_regs(1, 0, 0).unwrap_err(), Error::InvalidParam);
    assert_eq!(ResetFunction::from_regs(0, 3, 0).unwrap_err(), Error::InvalidParam);
    assert_eq!(ResetFunction::from_regs(0, 0, 1).unwrap_err(), Error::InvalidParam);
}

#[test]
fn tee_decode_all_functions() {
    let args: [u64; 8] = [0x10_0000, 0, 0, 0, 0, 0, 0, 0];
    assert_eq!(
        TeeFunction::from_regs(&args).unwrap(),
        TeeFunction::TvmCreate(0x10_0000)
    );
    let args: [u64; 8] = [7, 0x20_0000, 4, 0, 0, 0, 2, 0];
    assert_eq!(
        TeeFunction::from_regs(&args).unwrap(),
        TeeFunction::AddPageTablePages { guest_id: 7, page_addr: 0x20_0000, num_pages: 4 }
    );
    let args: [u64; 8] = [7, 0x20_0000, 0, 4, 0x8000_0000, 0, 3, 0];
    assert_eq!(
        TeeFunction::from_regs(&args).unwrap(),
        TeeFunction::AddPages {
            guest_id: 7,
            page_addr: 0x20_0000,
            page_type: 0,
            num_pages: 4,
            gpa: 0x8000_0000,
            measure_preserve: true,
        }
    );
    let args: [u64; 8] = [7, 0, 0, 0, 0, 0, 4, 0];
    assert_eq!(
        TeeFunction::from_regs(&args).unwrap(),
        TeeFunction::Finalize { guest_id: 7 }
    );
    let args: [u64; 8] = [7, 0, 0, 0, 0, 0, 5, 0];
    assert_eq!(TeeFunction::from_regs(&args).unwrap(), TeeFunction::Run { guest_id: 7 });
    let args: [u64; 8] = [7, 0x8000_0000, 0x30_0000, 2, 0, 0, 6, 0];
    assert_eq!(
        TeeFunction::from_regs(&args).unwrap(),
        TeeFunction::RemovePages {
            guest_id: 7,
            gpa: 0x8000_0000,
            remap_addr: 0x30_0000,
            num_pages: 2,
        }
    );
    let args: [u64; 8] = [7, 1, 1, 0x40_0000, 0, 0, 7, 0];
    assert_eq!(
        TeeFunction::from_regs(&args).unwrap(),
        TeeFunction::GetGuestMeasurement {
            guest_id: 7,
            measurement_version: 1,
            measurement_type: 1,
            page_addr: 0x40_0000,
        }
    );
    let args: [u64; 8] = [0, 0, 0, 0, 0, 0, 8, 0];
    assert_eq!(TeeFunction::from_regs(&args).unwrap_err(), Error::InvalidParam);
}

#[test]
fn tee_encode_round_trips() {
    let f = TeeFunction::AddPages {
        guest_id: 9,
        page_addr: 0x20_0000,
        page_type: 1,
        num_pages: 4,
        gpa: 0x8000_0000,
        measure_preserve: false,
    };
    let args: [u64; 8] = [f.a0(), f.a1(), f.a2(), f.a3(), f.a4(), f.a5(), f.a6(), 0];
    assert_eq!(TeeFunction::from_regs(&args).unwrap(), f);
    assert_eq!(f.a6(), 3);
    assert_eq!(f.a5(), 1);
    let d = TeeFunction::TvmDestroy { guest_id: 9 };
    let args: [u64; 8] = [d.a0(), d.a1(), d.a2(), d.a3(), d.a4(), d.a5(), d.a6(), 0];
    assert_eq!(TeeFunction::from_regs(&args).unwrap(), d);
    assert_eq!(d.result(0, 55).unwrap(), 55);
    assert_eq!(d.result(-3i64 as u64, 0).unwrap_err(), Error::InvalidParam);
}

#[test]
fn message_decode_by_extension() {
    let m = SbiMessage::from_regs(&regs_with(EXT_PUT_CHAR, 0, [65, 0, 0, 0, 0, 0])).unwrap();
    assert_eq!(m, SbiMessage::PutChar(65));
    assert_eq!(m.a7(), EXT_PUT_CHAR);
    assert_eq!(m.a0(), 65);

    let m = SbiMessage::from_regs(&regs_with(EXT_BASE, 1, [0, 0, 0, 0, 0, 0])).unwrap();
    assert_eq!(m, SbiMessage::Base(BaseFunction::GetImplementationID));
    assert_eq!(m.a7(), EXT_BASE);

    let m = SbiMessage::from_regs(&regs_with(EXT_HART_STATE, 2, [0, 0, 0, 0, 0, 0])).unwrap();
    assert_eq!(m, SbiMessage::HartState(StateFunction::HartStatus));

    let m = SbiMessage::from_regs(&regs_with(EXT_RESET, 0, [0, 0, 0, 0, 0, 0])).unwrap();
    assert_eq!(m, SbiMessage::Reset(ResetFunction::shutdown()));

    let m = SbiMessage::from_regs(&regs_with(EXT_TEE, 4, [7, 0, 0, 0, 0, 0])).unwrap();
    assert_eq!(m, SbiMessage::Tee(TeeFunction::Finalize { guest_id: 7 }));
    assert_eq!(m.a7(), EXT_TEE);
    assert_eq!(m.a6(), 4);
    assert_eq!(m.a0(), 7);

    let e = SbiMessage::from_regs(&regs_with(0x99, 0, [0, 0, 0, 0, 0, 0])).unwrap_err();
    assert_eq!(e, Error::UnknownSbiExtension);
}

#[test]
fn message_results() {
    let m = SbiMessage::PutChar(65);
    assert_eq!(m.result(0, 0).unwrap(), 0);
    let m = SbiMessage::Base(BaseFunction::GetImplementationID);
    assert_eq!(m.result(0, 42).unwrap(), 42);
    assert_eq!(m.result(1, 42).unwrap_err(), Error::InvalidParam);
    let m = SbiMessage::Tee(TeeFunction::Run { guest_id: 2 });
    assert_eq!(m.result(0, 9).unwrap(), 9);
    assert_eq!(
        m.result(SBI_ERR_NOT_SUPPORTED as u64, 0).unwrap_err(),
        Error::NotSupported
    );
    let ret = SbiReturn::success(5);
    assert_eq!(ret.error_code, SBI_SUCCESS);
    assert_eq!(ret.return_value, 5);
    let ret: SbiReturn = Error::NotSupported.into();
    assert_eq!(ret.error_code, SBI_ERR_NOT_SUPPORTED);
    let ret: SbiReturn = Ok::<u64, Error>(7).into();
    assert_eq!(ret, SbiReturn { error_code: SBI_SUCCESS, return_value: 7 });
}

#[test]
fn trap_decoding() {
    assert_eq!(
        Trap::from_scause(10).unwrap(),
        Trap::Exception(Exception::VirtualSupervisorEnvCall)
    );
    assert_eq!(
        Trap::from_scause(21).unwrap(),
        Trap::Exception(Exception::GuestLoadPageFault)
    );
    assert_eq!(
        Trap::from_scause(0x8000_0000_0000_0005).unwrap(),
        Trap::Interrupt(Interrupt::SupervisorTimer)
    );
    assert!(Trap::from_scause(14).is_none());
    assert!(Trap::from_scause(0x8000_0000_0000_0003).is_none());
}

use flasher::active::ActiveFlasher;
use flasher::config::{
    AddressRange, FlashAlgorithm, FlashProperties, FlashRegion, SectorDescription,
};
use flasher::error::{FlasherError, TargetError};
use flasher::flasher::{Flasher, Setup};
use flasher::operation::{Erase, Operation, Program, Verify};
use flasher::procedure::{Outcome, Output, Procedure};
use flasher::target::{
    Command, Core, CoreRegisterAddress, RegisterDescription, RegisterFile, Reply, Session,
};

const fn register(name: &'static str, number: u16) -> RegisterDescription {
    RegisterDescription { name, address: CoreRegisterAddress(number) }
}

const PLATFORM: [RegisterDescription; 10] = [
    register("R0", 0),
    register("R1", 1),
    register("R2", 2),
    register("R3", 3),
    register("R4", 4),
    register("R5", 5),
    register("R6", 6),
    register("R7", 7),
    register("R8", 8),
    register("R9", 9),
];

const ARGUMENTS: [RegisterDescription; 4] =
    [register("a1", 0), register("a2", 1), register("a3", 2), register("a4", 3)];

const RESULTS: [RegisterDescription; 1] = [register("a1", 0)];

const REGISTERS: &RegisterFile = &RegisterFile {
    platform_registers: &PLATFORM,
    program_counter: &register("PC", 15),
    stack_pointer: &register("SP", 13),
    return_address: &register("LR", 14),
    argument_registers: &ARGUMENTS,
    result_registers: &RESULTS,
};

fn algorithm() -> FlashAlgorithm {
    FlashAlgorithm {
        load_address: 0x2000_0000,
        instructions: vec![0xbf00_4770],
        pc_init: None,
        pc_uninit: Some(0x2000_0011),
        pc_program_page: 0x2000_0021,
        pc_erase_sector: 0x2000_0031,
        pc_erase_all: None,
        static_base: 0x2000_0400,
        begin_stack: 0x2000_1000,
        begin_data: 0x2000_2000,
        page_buffers: vec![0x2000_3000, 0x2000_4000],
        flash_properties: FlashProperties {
            address_range: AddressRange { start: 0x0800_0000, end: 0x0801_0000 },
            page_size: 0x100,
            sectors: vec![SectorDescription { size: 0x400, address: 0 }],
        },
    }
}

fn region() -> FlashRegion {
    FlashRegion {
        range: AddressRange { start: 0x0800_0000, end: 0x0801_0000 },
        is_boot_memory: false,
    }
}

fn failed(message: &str) -> Reply {
    Reply::Failed(fault(message))
}

fn fault(message: &str) -> TargetError {
    TargetError { message: message.to_string() }
}

fn expect(procedure: &mut Procedure, command: Command, reply: Reply) {
    assert_eq!(procedure.command(), Some(&command));
    procedure.resume(reply);
}

fn set(procedure: &mut Procedure, number: u16, value: u32) {
    let register = CoreRegisterAddress(number);
    expect(procedure, Command::WriteCoreReg { register, value }, Reply::Done);
}

fn returned(procedure: &mut Procedure, result: u32) {
    expect(procedure, Command::WaitForCoreHalted, Reply::Done);
    let register = CoreRegisterAddress(0);
    expect(procedure, Command::ReadCoreReg { register }, Reply::Word(result));
}

/// Hands a flasher that is ready to `work`.
fn with<O: Operation>(
    algorithm: &FlashAlgorithm,
    debug_log: bool,
    work: impl FnOnce(&ActiveFlasher<'_, O>),
) {
    let region = region();
    let session = Session { core: Core { registers: REGISTERS, debug_log } };
    let mut flasher = Flasher::new(session, algorithm, &region);
    let mut initialization = flasher.init::<O>(None, None).unwrap();
    for reply in [Reply::Done, Reply::Done, Reply::Done, Reply::Done, Reply::Done] {
        assert!(initialization.command().is_some());
        initialization.resume(reply);
    }
    initialization.resume(Reply::Words(algorithm.instructions.clone()));
    assert!(initialization.command().is_none());
    match initialization.finish() {
        Some(Setup::Ready(active)) => work(&active),
        _ => panic!("the flasher is not ready"),
    }
}

#[test]
fn getters_give_what_the_flasher_works_with() {
    let algorithm = algorithm();
    with::<Verify>(&algorithm, false, |active| {
        assert_eq!(*active.region(), region());
        assert_eq!(active.flash_algorithm().load_address, 0x2000_0000);
        assert!(!active.target_core().debug_log);
    });
    with::<Verify>(&algorithm, true, |active| assert!(active.target_core().debug_log));
}

#[test]
fn erase_sector_calls_the_routine_and_waits() {
    let algorithm = algorithm();
    with::<Erase>(&algorithm, false, |active| {
        let mut erase = active.erase_sector(0x0800_0400);
        set(&mut erase, 15, 0x2000_0031);
        set(&mut erase, 0, 0x0800_0400);
        set(&mut erase, 14, 0x2000_0001);
        expect(&mut erase, Command::Run, Reply::Done);
        for _ in 0..100 {
            expect(&mut erase, Command::WaitForCoreHalted, failed("timeout"));
        }
        returned(&mut erase, 0);
        assert_eq!(erase.command(), None);
        assert_eq!(erase.outcome(), Some(Outcome::Completed(Output::Unit)));
    });
}

#[test]
fn erase_sector_fails_with_the_code_of_the_routine() {
    let algorithm = algorithm();
    with::<Erase>(&algorithm, false, |active| {
        let mut erase = active.erase_sector(0);
        set(&mut erase, 15, 0x2000_0031);
        set(&mut erase, 0, 0);
        set(&mut erase, 14, 0x2000_0001);
        expect(&mut erase, Command::Run, Reply::Done);
        returned(&mut erase, 7);
        let error = FlasherError::RoutineCallFailed { name: "erase_sector", errorcode: 7 };
        assert_eq!(erase.outcome(), Some(Outcome::Failed(error)));
    });
}

#[test]
fn a_failed_register_write_ends_the_call() {
    let algorithm = algorithm();
    with::<Erase>(&algorithm, false, |active| {
        let mut erase = active.erase_sector(0);
        set(&mut erase, 15, 0x2000_0031);
        let register = CoreRegisterAddress(0);
        expect(&mut erase, Command::WriteCoreReg { register, value: 0 }, failed("no"));
        assert_eq!(erase.command(), None);
        assert_eq!(erase.outcome(), Some(Outcome::Failed(FlasherError::Core(fault("no")))));
    });
}

#[test]
fn a_core_that_does_not_run_ends_the_call() {
    let algorithm = algorithm();
    with::<Erase>(&algorithm, false, |active| {
        let mut erase = active.erase_sector(0);
        set(&mut erase, 15, 0x2000_0031);
        set(&mut erase, 0, 0);
        set(&mut erase, 14, 0x2000_0001);
        expect(&mut erase, Command::Run, failed("locked"));
        assert_eq!(erase.outcome(), Some(Outcome::Failed(FlasherError::Core(fault("locked")))));
    });
}

#[test]
fn a_result_that_cannot_be_read_ends_the_call() {
    let algorithm = algorithm();
    with::<Erase>(&algorithm, false, |active| {
        let mut erase = active.erase_sector(0);
        set(&mut erase, 15, 0x2000_0031);
        set(&mut erase, 0, 0);
        set(&mut erase, 14, 0x2000_0001);
        expect(&mut erase, Command::Run, Reply::Done);
        expect(&mut erase, Command::WaitForCoreHalted, Reply::Done);
        assert!(erase.command().is_some());
        erase.resume(failed("gone"));
        assert_eq!(erase.outcome(), Some(Outcome::Failed(FlasherError::Core(fault("gone")))));
    });
}

#[test]
fn the_debug_log_reads_each_register_back() {
    let algorithm = algorithm();
    with::<Erase>(&algorithm, true, |active| {
        let mut erase = active.erase_sector(4);
        for (number, value) in [(15, 0x2000_0031), (0, 4), (14, 0x2000_0001)] {
            set(&mut erase, number, value);
            let register = CoreRegisterAddress(number);
            expect(&mut erase, Command::ReadCoreReg { register }, Reply::Word(value));
        }
        expect(&mut erase, Command::Run, Reply::Done);
        returned(&mut erase, 0);
        assert_eq!(erase.outcome(), Some(Outcome::Completed(Output::Unit)));
    });
}

#[test]
fn the_debug_log_fails_where_a_register_cannot_be_read_back() {
    let algorithm = algorithm();
    with::<Erase>(&algorithm, true, |active| {
        let mut erase = active.erase_sector(4);
        set(&mut erase, 15, 0x2000_0031);
        let register = CoreRegisterAddress(15);
        expect(&mut erase, Command::ReadCoreReg { register }, failed("dark"));
        assert_eq!(erase.outcome(), Some(Outcome::Failed(FlasherError::Core(fault("dark")))));
    });
}

#[test]
fn erase_all_is_not_supported_without_a_routine() {
    let algorithm = algorithm();
    with::<Erase>(&algorithm, false, |active| {
        assert!(matches!(active.erase_all(), Err(FlasherError::NotSupported("erase_all"))));
    });
}

#[test]
fn erase_all_calls_its_routine_without_arguments() {
    let mut algorithm = algorithm();
    algorithm.pc_erase_all = Some(0x2000_0041);
    with::<Erase>(&algorithm, false, |active| {
        let mut erase = active.erase_all().ok().unwrap();
        set(&mut erase, 15, 0x2000_0041);
        set(&mut erase, 14, 0x2000_0001);
        expect(&mut erase, Command::Run, Reply::Done);
        returned(&mut erase, 1);
        let error = FlasherError::RoutineCallFailed { name: "erase_all", errorcode: 1 };
        assert_eq!(erase.outcome(), Some(Outcome::Failed(error)));
    });
}

#[test]
fn program_page_transfers_the_data_and_calls_the_routine() {
    let algorithm = algorithm();
    with::<Program>(&algorithm, false, |active| {
        let mut program = active.program_page(0x0800_0100, &[1, 2, 3]);
        let bytes = vec![1, 2, 3];
        expect(
            &mut program,
            Command::WriteBlock8 { address: 0x2000_2000, bytes },
            Reply::Done,
        );
        set(&mut program, 15, 0x2000_0021);
        set(&mut program, 0, 0x0800_0100);
        set(&mut program, 1, 3);
        set(&mut program, 2, 0x2000_2000);
        set(&mut program, 14, 0x2000_0001);
        expect(&mut program, Command::Run, Reply::Done);
        returned(&mut program, 0);
        assert_eq!(program.outcome(), Some(Outcome::Completed(Output::Unit)));
    });
}

#[test]
fn program_page_fails_with_the_code_of_the_routine() {
    let algorithm = algorithm();
    with::<Program>(&algorithm, false, |active| {
        let mut program = active.program_page(0, &[]);
        program.resume(Reply::Done);
        for _ in 0..6 {
            program.resume(Reply::Done);
        }
        returned(&mut program, 0xffff_ffff);
        let error =
            FlasherError::RoutineCallFailed { name: "program_page", errorcode: 0xffff_ffff };
        assert_eq!(program.outcome(), Some(Outcome::Failed(error)));
    });
}

#[test]
fn program_page_calls_nothing_if_the_data_did_not_get_there() {
    let algorithm = algorithm();
    with::<Program>(&algorithm, false, |active| {
        let mut program = active.program_page(0, &[9]);
        program.resume(failed("bus"));
        assert_eq!(program.command(), None);
        assert_eq!(program.outcome(), Some(Outcome::Failed(FlasherError::Memory(fault("bus")))));
    });
}

#[test]
fn a_page_buffer_is_loaded_where_the_routine_then_finds_it() {
    let algorithm = algorithm();
    with::<Program>(&algorithm, false, |active| {
        let mut load = active.load_page_buffer(0x0800_0200, &[5, 6], 1).ok().unwrap();
        let bytes = vec![5, 6];
        expect(&mut load, Command::WriteBlock8 { address: 0x2000_4000, bytes }, Reply::Done);
        assert_eq!(load.outcome(), Some(Outcome::Completed(Output::Unit)));

        let mut start = active.start_program_page_with_buffer(0x0800_0200, 1).ok().unwrap();
        set(&mut start, 15, 0x2000_0021);
        set(&mut start, 0, 0x0800_0200);
        set(&mut start, 1, 0x100);
        set(&mut start, 2, 0x2000_4000);
        set(&mut start, 14, 0x2000_0001);
        expect(&mut start, Command::Run, Reply::Done);
        assert_eq!(start.command(), None);
        assert_eq!(start.outcome(), Some(Outcome::Completed(Output::Unit)));
    });
}

#[test]
fn a_page_buffer_that_does_not_exist_is_refused() {
    let algorithm = algorithm();
    with::<Program>(&algorithm, false, |active| {
        assert!(matches!(
            active.load_page_buffer(0, &[1], 2),
            Err(FlasherError::InvalidBufferNumber { n: 2, max: 2 })
        ));
        assert!(matches!(
            active.start_program_page_with_buffer(0, 5),
            Err(FlasherError::InvalidBufferNumber { n: 5, max: 2 })
        ));
    });
}

#[test]
fn init_sets_the_static_base_and_the_stack() {
    let mut algorithm = algorithm();
    algorithm.pc_init = Some(0x2000_0009);
    let session = Session { core: Core { registers: REGISTERS, debug_log: false } };
    let region = region();
    let mut flasher = Flasher::new(session, &algorithm, &region);
    let mut initialization = flasher.init::<Verify>(Some(0x0800_1000), Some(8)).unwrap();
    for reply in [Reply::Done, Reply::Done, Reply::Done, Reply::Done, Reply::Done] {
        initialization.resume(reply);
    }
    initialization.resume(Reply::Words(algorithm.instructions.clone()));
    let writes = [
        (15, 0x2000_0009),
        (0, 0x0800_1000),
        (1, 8),
        (2, 3),
        (9, 0x2000_0400),
        (13, 0x2000_1000),
        (14, 0x2000_0001),
    ];
    for (number, value) in writes {
        let register = CoreRegisterAddress(number);
        let write = Command::WriteCoreReg { register, value };
        assert_eq!(initialization.command(), Some(&write));
        initialization.resume(Reply::Done);
    }
    initialization.resume(Reply::Done);
    initialization.resume(Reply::Done);
    initialization.resume(Reply::Word(0));
    assert!(matches!(initialization.finish(), Some(Setup::Ready(_))));
}

#[test]
fn init_can_be_called_again() {
    let algorithm = algorithm();
    with::<Erase>(&algorithm, false, |active| {
        let init = active.init(None, None);
        assert_eq!(init.command(), None);
        assert_eq!(init.outcome(), Some(Outcome::Completed(Output::Unit)));
    });
}

#[test]
fn uninit_is_told_the_operation() {
    let algorithm = algorithm();
    with::<Program>(&algorithm, false, |active| {
        let mut uninit = active.uninit();
        set(&mut uninit, 15, 0x2000_0011);
        set(&mut uninit, 0, 2);
        set(&mut uninit, 14, 0x2000_0001);
        expect(&mut uninit, Command::Run, Reply::Done);
        returned(&mut uninit, 3);
        let error = FlasherError::RoutineCallFailed { name: "uninit", errorcode: 3 };
        assert_eq!(uninit.outcome(), Some(Outcome::Failed(error)));
    });
}

#[test]
fn uninit_without_a_routine_is_completed_at_once() {
    let mut algorithm = algorithm();
    algorithm.pc_uninit = None;
    with::<Erase>(&algorithm, false, |active| {
        let uninit = active.uninit();
        assert_eq!(uninit.command(), None);
        assert_eq!(uninit.outcome(), Some(Outcome::Completed(Output::Unit)));
    });
}

#[test]
fn waiting_gives_the_result() {
    let algorithm = algorithm();
    with::<Verify>(&algorithm, false, |active| {
        let mut wait = active.wait_for_completion();
        expect(&mut wait, Command::WaitForCoreHalted, failed("busy"));
        expect(&mut wait, Command::WaitForCoreHalted, failed("busy"));
        returned(&mut wait, 42);
        assert_eq!(wait.outcome(), Some(Outcome::Completed(Output::Word(42))));
    });
}

#[test]
fn blocks_are_read_as_they_are() {
    let algorithm = algorithm();
    with::<Verify>(&algorithm, false, |active| {
        let mut words = active.read_block32(0x0800_0000, 2);
        let command = Command::ReadBlock32 { address: 0x0800_0000, length: 2 };
        expect(&mut words, command, Reply::Words(vec![1, 2]));
        assert_eq!(words.outcome(), Some(Outcome::Completed(Output::Words(vec![1, 2]))));

        let mut bytes = active.read_block8(0x0800_0004, 3);
        let command = Command::ReadBlock8 { address: 0x0800_0004, length: 3 };
        expect(&mut bytes, command, Reply::Bytes(vec![7, 8, 9]));
        assert_eq!(bytes.outcome(), Some(Outcome::Completed(Output::Bytes(vec![7, 8, 9]))));

        let mut lost = active.read_block8(0, 1);
        lost.resume(failed("bus"));
        assert_eq!(lost.outcome(), Some(Outcome::Failed(FlasherError::Memory(fault("bus")))));
        let mut lost = active.read_block32(0, 1);
        lost.resume(failed("bus"));
        assert_eq!(lost.outcome(), Some(Outcome::Failed(FlasherError::Memory(fault("bus")))));
    });
}

#[test]
fn a_procedure_that_goes_on_has_no_outcome() {
    let algorithm = algorithm();
    with::<Erase>(&algorithm, false, |active| {
        assert_eq!(active.erase_sector(0).outcome(), None);
    });
}

struct Unheard;

impl Operation for Unheard {
    fn code() -> u32 {
        9
    }

    fn operation() -> u32 {
        9
    }
}

#[test]
fn operations_have_codes_and_names() {
    assert_eq!((Erase::operation(), Erase.operation_name()), (1, "Erase"));
    assert_eq!((Program::operation(), Program.operation_name()), (2, "Program"));
    assert_eq!((Verify::operation(), Verify.operation_name()), (3, "Verify"));
    assert_eq!((Unheard::operation(), Unheard.operation_name()), (9, "Unknown Operation"));
}

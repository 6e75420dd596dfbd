use flasher::bytes::{to_little_endian, to_low_word};
use flasher::config::{
    AddressRange, FlashAlgorithm, FlashProperties, FlashRegion, SectorDescription, SectorInfo,
};
use flasher::disassembly::list_instructions;
use flasher::error::{FlasherError, TargetError};
use flasher::flasher::{Flasher, Initialization, Run, Setup};
use flasher::operation::{Erase, Operation};
use flasher::procedure::{Abort, Exchange, Outcome, Policy, Procedure};
use flasher::target::{
    Command, Core, CoreRegisterAddress, RegisterDescription, RegisterFile, Reply, Session,
};

const fn register(name: &'static str, number: u16) -> RegisterDescription {
    RegisterDescription { name, address: CoreRegisterAddress(number) }
}

const PLATFORM: [RegisterDescription; 10] = [register("R", 9); 10];

const ARGUMENTS: [RegisterDescription; 4] =
    [register("a1", 0), register("a2", 1), register("a3", 2), register("a4", 3)];

const REGISTERS: &RegisterFile = &RegisterFile {
    platform_registers: &PLATFORM,
    program_counter: &register("PC", 15),
    stack_pointer: &register("SP", 13),
    return_address: &register("LR", 14),
    argument_registers: &ARGUMENTS,
    result_registers: &ARGUMENTS,
};

const BARE: &RegisterFile = &RegisterFile {
    platform_registers: &[],
    argument_registers: &[],
    result_registers: &[],
    ..*REGISTERS
};

fn session(debug_log: bool) -> Session {
    Session { core: Core { registers: REGISTERS, debug_log } }
}

fn algorithm() -> FlashAlgorithm {
    FlashAlgorithm {
        load_address: 0x2000_0000,
        instructions: vec![0xbf00_4770, 0x4770_bf00],
        pc_init: None,
        pc_uninit: None,
        pc_program_page: 0x2000_0021,
        pc_erase_sector: 0x2000_0031,
        pc_erase_all: None,
        static_base: 0x2000_0400,
        begin_stack: 0x2000_1000,
        begin_data: 0x2000_2000,
        page_buffers: vec![],
        flash_properties: FlashProperties {
            address_range: AddressRange { start: 0x0800_0000, end: 0x0801_0000 },
            page_size: 0x100,
            sectors: vec![
                SectorDescription { size: 0x400, address: 0 },
                SectorDescription { size: 0x1000, address: 0x2000 },
            ],
        },
    }
}

fn region() -> FlashRegion {
    FlashRegion {
        range: AddressRange { start: 0x0800_0000, end: 0x0801_0000 },
        is_boot_memory: true,
    }
}

fn fault(message: &str) -> TargetError {
    TargetError { message: message.to_string() }
}

fn failed(message: &str) -> Reply {
    Reply::Failed(fault(message))
}

fn expect<O: Operation>(
    initialization: &mut Initialization<'_, O>,
    command: Command,
    reply: Reply,
) {
    assert_eq!(initialization.command(), Some(&command));
    initialization.resume(reply);
}

#[test]
fn a_new_flasher_knows_its_parts() {
    let algorithm = algorithm();
    let region = region();
    let flasher = Flasher::new(session(false), &algorithm, &region);
    assert_eq!(*flasher.region(), region);
    assert_eq!(flasher.flash_algorithm().begin_data, 0x2000_2000);
    assert!(!flasher.double_buffering_supported());
    assert!(!flasher.target_core().debug_log);
    assert_eq!(flasher.target_core().registers.program_counter().address.0, 15);
    let flasher = Flasher::new(session(true), &algorithm, &region);
    assert!(flasher.target_core().debug_log);
}

#[test]
fn the_listing_is_thumb_code_at_the_load_address() {
    let lines = list_instructions(&algorithm()).unwrap();
    assert_eq!(
        lines,
        ["0x20000000: bx lr", "0x20000002: nop", "0x20000004: nop", "0x20000006: bx lr"]
    );
    let mut float = algorithm();
    float.instructions = vec![0x0a00_eeb7];
    let lines = list_instructions(&float).unwrap();
    assert_eq!(lines.len(), 1);
    assert!(lines[0].starts_with("0x20000000: vmov.f32 s0, #1"));
    let mut empty = algorithm();
    empty.instructions = vec![];
    assert!(list_instructions(&empty).unwrap().is_empty());
}

#[test]
fn loading_writes_the_algorithm_and_reads_it_back() {
    let algorithm = algorithm();
    let region = region();
    let mut flasher = Flasher::new(session(false), &algorithm, &region);
    let mut init = flasher.init::<Erase>(None, None).unwrap();
    assert_eq!(init.listing().len(), 4);
    assert_eq!(init.listing()[0], "0x20000000: bx lr");
    expect(&mut init, Command::AttachToCore { index: 0 }, Reply::Done);
    expect(&mut init, Command::Halt, failed("deaf"));
    expect(&mut init, Command::WaitForCoreHalted, Reply::Done);
    expect(&mut init, Command::ResetAndHalt, Reply::Done);
    let words = vec![0xbf00_4770, 0x4770_bf00];
    expect(&mut init, Command::WriteBlock32 { address: 0x2000_0000, words }, Reply::Done);
    let words = vec![0xbf00_4770, 0x4770_bf00];
    expect(
        &mut init,
        Command::ReadBlock32 { address: 0x2000_0000, length: 2 },
        Reply::Words(words),
    );
    assert_eq!(init.command(), None);
    assert!(matches!(init.finish(), Some(Setup::Ready(_))));
}

#[test]
fn a_listing_that_was_made_elsewhere_is_kept() {
    let algorithm = algorithm();
    let region = region();
    let mut flasher = Flasher::new(session(false), &algorithm, &region);
    let lines = vec!["line".to_string()];
    let init = flasher.init_with_listing::<Erase>(Ok(lines), None, None).unwrap();
    assert_eq!(*init.listing(), ["line"]);
    assert_eq!(init.command(), Some(&Command::AttachToCore { index: 0 }));
    assert!(init.finish().is_none());
}

#[test]
fn without_a_listing_nothing_is_initialised() {
    let algorithm = algorithm();
    let region = region();
    let mut flasher = Flasher::new(session(false), &algorithm, &region);
    let cause = capstone::Error::OutOfMemory;
    let error = flasher::disassembly::DisassemblyError { cause };
    let result = flasher.init_with_listing::<Erase>(Err(error), None, None);
    assert!(matches!(result.err().unwrap().cause, capstone::Error::OutOfMemory));
}

#[test]
fn the_first_address_of_the_region_is_the_default() {
    let mut algorithm = algorithm();
    algorithm.pc_init = Some(0x2000_0101);
    let region = region();
    let mut flasher = Flasher::new(session(false), &algorithm, &region);
    let mut init = flasher.init::<Erase>(None, None).unwrap();
    for reply in [Reply::Done, Reply::Done, Reply::Done, Reply::Done, Reply::Done] {
        init.resume(reply);
    }
    init.resume(Reply::Words(algorithm.instructions.clone()));
    let writes = [
        (15, 0x2000_0101),
        (0, 0x0800_0000),
        (1, 0),
        (2, 1),
        (9, 0x2000_0400),
        (13, 0x2000_1000),
        (14, 0x2000_0001),
    ];
    for (number, value) in writes {
        let register = CoreRegisterAddress(number);
        expect(&mut init, Command::WriteCoreReg { register, value }, Reply::Done);
    }
    expect(&mut init, Command::Run, Reply::Done);
    expect(&mut init, Command::WaitForCoreHalted, Reply::Done);
    let register = CoreRegisterAddress(0);
    expect(&mut init, Command::ReadCoreReg { register }, Reply::Word(4));
    match init.finish() {
        Some(Setup::Failed(error)) => {
            assert_eq!(error, FlasherError::RoutineCallFailed { name: "init", errorcode: 4 })
        }
        _ => panic!("the failure of the routine was not seen"),
    }
}

#[test]
fn a_damaged_algorithm_aborts() {
    let algorithm = algorithm();
    let region = region();
    let mut flasher = Flasher::new(session(false), &algorithm, &region);
    let mut init = flasher.init::<Erase>(None, None).unwrap();
    for reply in [Reply::Done, Reply::Done, Reply::Done, Reply::Done, Reply::Done] {
        init.resume(reply);
    }
    init.resume(Reply::Words(vec![0xbf00_4770, 0]));
    assert_eq!(init.command(), None);
    match init.finish() {
        Some(Setup::Aborted(abort)) => assert_eq!(
            abort,
            Abort::AlgorithmMismatch {
                address: 0x2000_0004,
                original: 0x4770_bf00,
                read_back: 0,
                data: vec![0xbf00_4770, 0],
            }
        ),
        _ => panic!("the damage was not seen"),
    }
}

#[test]
fn failures_during_loading_are_told_apart() {
    let algorithm = algorithm();
    let region = region();
    for good in 0..6 {
        let mut flasher = Flasher::new(session(true), &algorithm, &region);
        let mut init = flasher.init::<Erase>(None, None).unwrap();
        for _ in 0..good {
            init.resume(Reply::Done);
        }
        init.resume(failed("x"));
        assert_eq!(init.command(), None);
        match (good, init.finish()) {
            (0 | 4 | 5, Some(Setup::Failed(FlasherError::Memory(error)))) => {
                assert_eq!(error, fault("x"))
            }
            (2 | 3, Some(Setup::Failed(FlasherError::Core(error)))) => {
                assert_eq!(error, fault("x"))
            }
            (1, Some(Setup::Aborted(abort))) => assert_eq!(abort, Abort::HaltFailed(fault("x"))),
            _ => panic!("not the end that was expected"),
        }
    }
}

#[test]
fn mismatch_addresses_wrap_around() {
    let mut procedure = Procedure::new(vec![Exchange {
        command: Command::ReadBlock32 { address: 0xffff_fffc, length: 2 },
        policy: Policy::ReadBack { words: vec![1, 2] },
    }]);
    procedure.resume(Reply::Words(vec![1, 3]));
    assert_eq!(
        procedure.outcome(),
        Some(Outcome::Aborted(Abort::AlgorithmMismatch {
            address: 0,
            original: 2,
            read_back: 3,
            data: vec![1, 3],
        }))
    );
}

#[derive(Debug, PartialEq)]
enum WorkError {
    Flasher(FlasherError),
    Own,
}

impl From<FlasherError> for WorkError {
    fn from(error: FlasherError) -> Self {
        WorkError::Flasher(error)
    }
}

fn load(algorithm: &FlashAlgorithm) -> Vec<Reply> {
    vec![
        Reply::Done,
        Reply::Done,
        Reply::Done,
        Reply::Done,
        Reply::Done,
        Reply::Words(algorithm.instructions.clone()),
    ]
}

#[test]
fn a_run_ends_what_it_began() {
    let mut algorithm = algorithm();
    algorithm.pc_uninit = Some(0x2000_0201);
    let region = region();
    let mut flasher = Flasher::new(session(false), &algorithm, &region);
    let mut work = flasher
        .run_erase(|active| {
            let first = active.erase_sector(0x0800_0000);
            let write = Command::WriteCoreReg {
                register: CoreRegisterAddress(15),
                value: 0x2000_0031,
            };
            assert_eq!(first.command(), Some(&write));
            Ok::<u32, WorkError>(5)
        })
        .unwrap();
    assert_eq!(work.listing().len(), 4);
    for reply in load(&algorithm) {
        assert!(work.command().is_some());
        work.resume(reply);
    }
    assert!(work.command().is_none());
    let mut teardown = match work.proceed() {
        Some(Run::Teardown(teardown)) => teardown,
        _ => panic!("the work is not being ended"),
    };
    for (number, value) in [(15, 0x2000_0201), (0, 1), (14, 0x2000_0001)] {
        let register = CoreRegisterAddress(number);
        assert_eq!(teardown.command(), Some(&Command::WriteCoreReg { register, value }));
        teardown.resume(Reply::Done);
    }
    teardown.resume(Reply::Done);
    teardown.resume(failed("busy"));
    teardown.resume(Reply::Done);
    teardown.resume(Reply::Word(0));
    assert_eq!(teardown.result::<WorkError>(), Some(Ok(5)));
}

#[test]
fn a_run_fails_if_its_end_fails() {
    let mut algorithm = algorithm();
    algorithm.pc_uninit = Some(0x2000_0201);
    let region = region();
    let mut flasher = Flasher::new(session(false), &algorithm, &region);
    let mut work = flasher.run_program(|_| Ok::<(), WorkError>(())).unwrap();
    for reply in load(&algorithm) {
        work.resume(reply);
    }
    let mut teardown = match work.proceed() {
        Some(Run::Teardown(teardown)) => teardown,
        _ => panic!("the work is not being ended"),
    };
    for reply in [Reply::Done, Reply::Done, Reply::Done, Reply::Done, Reply::Done] {
        teardown.resume(reply);
    }
    teardown.resume(Reply::Word(6));
    let error = FlasherError::RoutineCallFailed { name: "uninit", errorcode: 6 };
    assert_eq!(teardown.result::<WorkError>(), Some(Err(WorkError::Flasher(error))));
}

#[test]
fn a_run_whose_work_fails_is_not_ended() {
    let mut algorithm = algorithm();
    algorithm.pc_uninit = Some(0x2000_0201);
    let region = region();
    let mut flasher = Flasher::new(session(false), &algorithm, &region);
    let mut work = flasher.run_verify(|_| Err::<(), WorkError>(WorkError::Own)).unwrap();
    for reply in load(&algorithm) {
        work.resume(reply);
    }
    assert!(matches!(work.proceed(), Some(Run::Returned(Err(WorkError::Own)))));
}

#[test]
fn a_run_that_cannot_begin_does_no_work() {
    let algorithm = algorithm();
    let region = region();
    let mut flasher = Flasher::new(session(false), &algorithm, &region);
    let mut work = flasher
        .run_erase(|_| -> Result<(), WorkError> { panic!("the work was done") })
        .unwrap();
    work.resume(failed("away"));
    match work.proceed() {
        Some(Run::Returned(Err(WorkError::Flasher(error)))) => {
            assert_eq!(error, FlasherError::Memory(fault("away")))
        }
        _ => panic!("the failure was not seen"),
    }
}

#[test]
fn a_run_that_cannot_begin_need_not_be_ended() {
    let mut algorithm = algorithm();
    algorithm.pc_uninit = Some(0x2000_0201);
    let region = region();
    let core = Core { registers: BARE, debug_log: false };
    let mut flasher = Flasher::new(Session { core }, &algorithm, &region);
    let mut work = flasher
        .run_program(|_| -> Result<(), WorkError> { panic!("the work was done") })
        .unwrap();
    work.resume(Reply::Done);
    work.resume(Reply::Done);
    work.resume(failed("running"));
    match work.proceed() {
        Some(Run::Returned(Err(WorkError::Flasher(error)))) => {
            assert_eq!(error, FlasherError::Core(fault("running")))
        }
        _ => panic!("the failure was not seen"),
    }
}

#[test]
fn a_run_that_is_aborted_does_no_work() {
    let algorithm = algorithm();
    let region = region();
    let mut flasher = Flasher::new(session(true), &algorithm, &region);
    let mut work = flasher
        .run_erase(|_| -> Result<(), WorkError> { panic!("the work was done") })
        .unwrap();
    work.resume(Reply::Done);
    work.resume(failed("stuck"));
    match work.proceed() {
        Some(Run::Aborted(abort)) => assert_eq!(abort, Abort::HaltFailed(fault("stuck"))),
        _ => panic!("the failure was not seen"),
    }
}

#[test]
fn a_run_that_has_not_begun_does_not_proceed() {
    let algorithm = algorithm();
    let region = region();
    let mut flasher = Flasher::new(session(false), &algorithm, &region);
    let work = flasher.run_erase(|_| Ok::<(), WorkError>(())).unwrap();
    assert!(work.proceed().is_none());
}

#[test]
fn a_block_in_the_region_is_programmed() {
    let algorithm = algorithm();
    let region = region();
    let flasher = Flasher::new(session(false), &algorithm, &region);
    let block = flasher.flash_block(0x0800_fffe, &[1, 2], true, false).ok().unwrap();
    assert_eq!(block.address, 0x0800_fffe);
    assert_eq!(block.data, &[1, 2]);
    assert!(block.do_chip_erase);
    assert!(block.restore_unwritten_bytes);
    assert_eq!(*block.flasher.region(), region);
}

#[test]
fn a_block_that_leaves_the_region_is_refused() {
    let algorithm = algorithm();
    let region = region();
    for address in [0x0800_ffff, 0x07ff_ffff] {
        let flasher = Flasher::new(session(false), &algorithm, &region);
        match flasher.flash_block(address, &[1, 2], false, false) {
            Err(error) => {
                assert_eq!(error, FlasherError::AddressNotInRegion { address, region })
            }
            Ok(_) => panic!("the block was not refused"),
        }
    }
}

#[test]
fn an_empty_block_must_begin_in_the_region() {
    let algorithm = algorithm();
    let region = region();
    for address in [0x0800_0000, 0x0800_ffff] {
        let flasher = Flasher::new(session(false), &algorithm, &region);
        let block = flasher.flash_block(address, &[], false, false).ok().unwrap();
        assert_eq!(block.address, address);
        assert!(block.data.is_empty());
    }
    for address in [0x0801_0000, 0x07ff_ffff] {
        let flasher = Flasher::new(session(false), &algorithm, &region);
        match flasher.flash_block(address, &[], false, false) {
            Err(error) => {
                assert_eq!(error, FlasherError::AddressNotInRegion { address, region })
            }
            Ok(_) => panic!("the block was not refused"),
        }
    }
}

#[test]
fn a_fast_verify_makes_no_difference() {
    let algorithm = algorithm();
    let region = region();
    for address in [0x0800_0000, 0x0801_0000] {
        let fast = Flasher::new(session(false), &algorithm, &region);
        let slow = Flasher::new(session(false), &algorithm, &region);
        let fast = fast.flash_block(address, &[1, 2, 3], true, true);
        let slow = slow.flash_block(address, &[1, 2, 3], true, false);
        match (fast, slow) {
            (Ok(fast), Ok(slow)) => {
                assert_eq!(address, 0x0800_0000);
                assert_eq!(fast.address, slow.address);
                assert_eq!(fast.data, slow.data);
                assert_eq!(fast.do_chip_erase, slow.do_chip_erase);
                assert_eq!(fast.restore_unwritten_bytes, slow.restore_unwritten_bytes);
            }
            (Err(fast), Err(slow)) => {
                assert_eq!(address, 0x0801_0000);
                assert_eq!(fast, slow);
            }
            _ => panic!("only one of the blocks was refused"),
        }
    }
}

#[test]
fn empty_sectors_elsewhere_are_no_hindrance() {
    let mut algorithm = algorithm();
    algorithm.flash_properties.sectors = vec![
        SectorDescription { size: 0x400, address: 0 },
        SectorDescription { size: 0, address: 0x2000 },
        SectorDescription { size: 0x1000, address: 0x4000 },
    ];
    let small = SectorInfo { base_address: 0x0800_1c00, page_size: 0x100, size: 0x400 };
    let large = SectorInfo { base_address: 0x0800_5000, page_size: 0x100, size: 0x1000 };
    assert_eq!(algorithm.sector_info(0x0800_1fff), Some(small));
    assert_eq!(algorithm.sector_info(0x0800_5001), Some(large));
    algorithm.flash_properties.sectors[0].size = 0;
    assert_eq!(algorithm.sector_info(0x0801_0000), None);
}

#[test]
fn sectors_are_found_by_address() {
    let algorithm = algorithm();
    let region = region();
    let flasher = Flasher::new(session(false), &algorithm, &region);
    let small = SectorInfo { base_address: 0x0800_0400, page_size: 0x100, size: 0x400 };
    let large = SectorInfo { base_address: 0x0800_3000, page_size: 0x100, size: 0x1000 };
    assert_eq!(flasher.sector_info(0x0800_0400), Some(small));
    assert_eq!(flasher.sector_info(0x0800_07ff), Some(small));
    assert_eq!(flasher.sector_info(small.base_address), Some(small));
    assert_eq!(flasher.sector_info(0x0800_3abc), Some(large));
    assert_eq!(flasher.sector_info(0x0801_0000), None);
    assert_eq!(flasher.sector_info(0x07ff_ffff), None);
}

#[test]
fn an_address_before_the_first_sectors_has_none() {
    let mut algorithm = algorithm();
    algorithm.flash_properties.sectors = vec![SectorDescription { size: 16, address: 32 }];
    assert_eq!(algorithm.sector_info(0x0800_001f), None);
    assert_eq!(algorithm.sector_info(0x0800_0020).unwrap().base_address, 0x0800_0020);
}

#[test]
fn ranges_contain_their_parts() {
    let range = AddressRange { start: 4, end: 8 };
    assert!(range.contains(4) && range.contains(7));
    assert!(!range.contains(3) && !range.contains(8));
    assert!(range.contains_range(&AddressRange { start: 4, end: 8 }));
    assert!(!range.contains_range(&AddressRange { start: 4, end: 9 }));
    assert!(!range.contains_range(&AddressRange { start: 3, end: 5 }));
    assert!(range.contains_range(&AddressRange { start: 7, end: 7 }));
    assert!(!range.contains_range(&AddressRange { start: 8, end: 8 }));
    assert_eq!(region().flash_info().rom_start, 0x0800_0000);
}

#[test]
fn words_are_little_endian() {
    assert_eq!(to_little_endian(&vec![0x0403_0201, 0xff]), [1, 2, 3, 4, 0xff, 0, 0, 0]);
    assert_eq!(to_low_word(0x1_0000_0005), 5);
}

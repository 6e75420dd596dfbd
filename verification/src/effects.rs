//! What the operations do to the target: what it is told, word for word, and what its registers
//! and its memory hold when a routine of the algorithm runs.

use crate::active::{
    call, call_and_wait, completion, set_register, set_registers, settings, ActiveFlasher,
};
use crate::bytes::low_word;
use crate::config::{FlashAlgorithm, FlashRegion};
use crate::disassembly::DisassemblyError;
use crate::error::FlasherError;
use crate::flasher::{
    load_exchanges, setup_exchanges, Flasher, FlasherView, Initialization, Run, Teardown, Work,
};
use crate::laws::write_register;
use crate::machine::{byte_at, distinct, lemma_obey_both, Machine};
use crate::operation::{Erase, Operation, Program, Verify};
use crate::procedure::{Exchange, ExchangeSpec, Policy, Procedure};
use crate::target::{Command, CommandSpec, Core, RegisterDescription, ReplySpec};
use vstd::prelude::*;

verus! {

/// The exchanges that write these values to these registers, in this order. A failure ends the
/// procedure. While the debug log is on, each register is read back right after it was written.
pub open spec fn register_writes(
    core: Core,
    writes: Seq<(RegisterDescription, u32)>,
) -> Seq<ExchangeSpec> {
    if core.debug_log {
        Seq::new(
            2 * writes.len(),
            |i: int|
                Exchange {
                    command: if i % 2 == 0 {
                        Command::WriteCoreReg {
                            register: writes[i / 2].0.address,
                            value: writes[i / 2].1,
                        }
                    } else {
                        Command::ReadCoreReg { register: writes[i / 2].0.address }
                    },
                    policy: Policy::Require,
                },
        )
    } else {
        Seq::new(
            writes.len(),
            |i: int|
                Exchange {
                    command: Command::WriteCoreReg {
                        register: writes[i].0.address,
                        value: writes[i].1,
                    },
                    policy: Policy::Require,
                },
        )
    }
}

/// The exchange that puts `bytes` into memory from `address` on.
pub open spec fn transfer(address: u32, bytes: Seq<u8>) -> ExchangeSpec {
    Exchange { command: Command::WriteBlock8 { address, bytes }, policy: Policy::Require }
}

/// The exchange that starts the core.
pub open spec fn run_core() -> ExchangeSpec {
    Exchange { command: Command::Run, policy: Policy::Require }
}

/// The exchanges that start the core, wait until it halts, and take the first result register for
/// the result of the routine `routine`, which has to be 0.
pub open spec fn start_and_check(core: Core, routine: &'static str) -> Seq<ExchangeSpec> {
    seq![
        Exchange { command: Command::Run, policy: Policy::Require },
        Exchange { command: Command::WaitForCoreHalted, policy: Policy::Retry },
        Exchange {
            command: Command::ReadCoreReg { register: core.registers.result_registers@[0].address },
            policy: Policy::Zero { routine },
        },
    ]
}

/// The settings that have a value.
spec fn chosen(settings: Seq<(RegisterDescription, Option<u32>)>) -> Seq<
    (RegisterDescription, u32),
>
    decreases settings.len(),
{
    if settings.len() == 0 {
        seq![]
    } else {
        let rest = chosen(settings.drop_last());
        match settings.last().1 {
            Some(value) => rest.push((settings.last().0, value)),
            None => rest,
        }
    }
}

/// The target after these values were written to these registers.
spec fn written(machine: Machine, writes: Seq<(RegisterDescription, u32)>) -> Machine
    decreases writes.len(),
{
    if writes.len() == 0 {
        machine
    } else {
        written(machine, writes.drop_last()).with_register(writes.last().0, writes.last().1)
    }
}

proof fn lemma_one_more_write(
    core: Core,
    writes: Seq<(RegisterDescription, u32)>,
    register: RegisterDescription,
    value: u32,
)
    ensures
        register_writes(core, writes.push((register, value))) == register_writes(core, writes)
            + set_register(core, register, Some(value)),
{
    let more = writes.push((register, value));
    let n = writes.len() as int;
    assert((2 * n) / 2 == n && (2 * n) % 2 == 0);
    assert((2 * n + 1) / 2 == n && (2 * n + 1) % 2 == 1);
    assert(register_writes(core, more) =~= register_writes(core, writes) + set_register(
        core,
        register,
        Some(value),
    ));
}

proof fn lemma_set_registers(
    core: Core,
    settings: Seq<(RegisterDescription, Option<u32>)>,
    machine: Machine,
)
    ensures
        set_registers(core, settings) == register_writes(core, chosen(settings)),
        machine.obey_all(set_registers(core, settings)) == written(machine, chosen(settings)),
    decreases settings.len(),
{
    if settings.len() == 0 {
        assert(set_registers(core, settings) =~= register_writes(core, chosen(settings)));
    } else {
        let before = settings.drop_last();
        let (register, value) = settings.last();
        lemma_set_registers(core, before, machine);
        let first = set_registers(core, before);
        let second = set_register(core, register, value);
        lemma_obey_both(machine, first, second);
        match value {
            Some(value) => {
                lemma_one_more_write(core, chosen(before), register, value);
                reveal_with_fuel(Machine::obey_all, 3);
                let middle = machine.obey_all(first);
                let more = chosen(before).push((register, value));
                assert(more.drop_last() =~= chosen(before));
                if core.debug_log {
                    assert(second.drop_last().drop_last() =~= Seq::<ExchangeSpec>::empty());
                    assert(second.drop_last().last() == second[0]);
                } else {
                    assert(second.drop_last() =~= Seq::<ExchangeSpec>::empty());
                }
                assert(middle.obey_all(second) == middle.with_register(register, value));
            },
            None => {
                assert(first + second =~= first);
            },
        }
    }
}

/// What a call says and does.
proof fn lemma_call(
    core: Core,
    algorithm: FlashAlgorithm,
    pc: u32,
    r0: Option<u32>,
    r1: Option<u32>,
    r2: Option<u32>,
    r3: Option<u32>,
    init: bool,
    routine: &'static str,
    machine: Machine,
)
    ensures
        ({
            let writes = chosen(settings(core, algorithm, pc, r0, r1, r2, r3, init));
            let start = call(core, algorithm, pc, r0, r1, r2, r3, init);
            let all = call_and_wait(core, algorithm, pc, r0, r1, r2, r3, init, routine);
            &&& start == register_writes(core, writes) + seq![run_core()]
            &&& all == register_writes(core, writes) + start_and_check(core, routine)
            &&& machine.obey_all(start) == written(machine, writes).started()
            &&& machine.obey_all(all) == written(machine, writes).started()
        }),
{
    let all = settings(core, algorithm, pc, r0, r1, r2, r3, init);
    let writes = chosen(all);
    let first = set_registers(core, all);
    let start = call(core, algorithm, pc, r0, r1, r2, r3, init);
    let end = completion(core, Policy::Zero { routine });
    lemma_set_registers(core, all, machine);
    assert(start.drop_last() =~= first);
    assert(start =~= register_writes(core, writes) + seq![run_core()]);
    assert(start + end =~= register_writes(core, writes) + start_and_check(core, routine));
    lemma_obey_both(machine, start, end);
    let middle = machine.obey_all(start);
    reveal_with_fuel(Machine::obey_all, 3);
    assert(end.drop_last().drop_last() =~= Seq::<ExchangeSpec>::empty());
    assert(middle.obey_all(end) == middle);
}

/// The addresses of different registers, two by two.
proof fn lemma_distinct(core: Core)
    ensures
        distinct(core) ==> ({
            let registers = core.registers;
            let pc = registers.program_counter.address;
            let a0 = registers.argument_registers@[0].address;
            let a1 = registers.argument_registers@[1].address;
            let a2 = registers.argument_registers@[2].address;
            let base = registers.platform_registers@[9].address;
            let stack = registers.stack_pointer.address;
            let link = registers.return_address.address;
            &&& pc != a0 && pc != a1 && pc != a2 && pc != base && pc != stack && pc != link
            &&& a0 != a1 && a0 != a2 && a0 != base && a0 != stack && a0 != link
            &&& a1 != a2 && a1 != base && a1 != stack && a1 != link
            &&& a2 != base && a2 != stack && a2 != link
            &&& base != stack && base != link && stack != link
        }),
{
    if distinct(core) {
        let all = seq![
            core.registers.program_counter.address,
            core.registers.argument_registers@[0].address,
            core.registers.argument_registers@[1].address,
            core.registers.argument_registers@[2].address,
            core.registers.argument_registers@[3].address,
            core.registers.platform_registers@[9].address,
            core.registers.stack_pointer.address,
            core.registers.return_address.address,
        ];
        assert(forall|i: int, j: int| 0 <= i < j < 8 ==> #[trigger] all[i] != #[trigger] all[j]);
    }
}

/// What is said of a register write is there among the rest.
proof fn lemma_writes_are_there(
    core: Core,
    prefix: Seq<ExchangeSpec>,
    writes: Seq<(RegisterDescription, u32)>,
    tail: Seq<ExchangeSpec>,
)
    ensures
        forall|k: int|
            #![trigger writes[k]]
            0 <= k < writes.len() ==> (prefix + register_writes(core, writes) + tail).contains(
                write_register(writes[k].0, writes[k].1),
            ),
{
    let all = prefix + register_writes(core, writes) + tail;
    assert forall|k: int|
        #![trigger writes[k]]
        0 <= k < writes.len() implies all.contains(write_register(writes[k].0, writes[k].1)) by {
        let i = if core.debug_log {
            2 * k
        } else {
            k
        };
        assert((2 * k) / 2 == k && (2 * k) % 2 == 0);
        assert(register_writes(core, writes)[i] == write_register(writes[k].0, writes[k].1));
        assert(all[prefix.len() + i] == write_register(writes[k].0, writes[k].1));
    }
}

/// Erasing a sector runs the routine for it with the address in the first argument, and asks for
/// its result. Nothing else is done.
pub proof fn law_erase_sector_erases_the_sector_at_the_address<'a>(
    flasher: &ActiveFlasher<'a, Erase>,
    address: u32,
    procedure: Procedure,
    link: u32,
    machine: Machine,
)
    requires
        call_ensures(ActiveFlasher::<'a, Erase>::erase_sector, (flasher, address), procedure),
        link as int == flasher@.algorithm.load_address + 1,
    ensures
        ({
            let core = flasher@.core;
            let registers = core.registers;
            let algorithm = flasher@.algorithm;
            let all = procedure.exchanges();
            let after = machine.obey_all(all);
            &&& procedure.replies() == Seq::<ReplySpec>::empty()
            &&& all == register_writes(
                core,
                seq![
                    (*registers.program_counter, algorithm.pc_erase_sector),
                    (registers.argument_registers@[0], address),
                    (*registers.return_address, link),
                ],
            ) + start_and_check(core, "erase_sector")
            &&& all.contains(write_register(*registers.program_counter, algorithm.pc_erase_sector))
            &&& all.contains(write_register(registers.argument_registers@[0], address))
            &&& all.contains(write_register(*registers.return_address, link))
            &&& after == machine
                .with_register(*registers.program_counter, algorithm.pc_erase_sector)
                .with_register(registers.argument_registers@[0], address)
                .with_register(*registers.return_address, link)
                .started()
            &&& distinct(core) ==> {
                &&& after.at_start(*registers.program_counter) == algorithm.pc_erase_sector
                &&& after.at_start(registers.argument_registers@[0]) == address
                &&& after.at_start(*registers.return_address) == algorithm.load_address + 1
            }
        }),
{
    let core = flasher@.core;
    let registers = core.registers;
    let algorithm = flasher@.algorithm;
    lemma_call(
        core,
        algorithm,
        algorithm.pc_erase_sector,
        Some(address),
        None,
        None,
        None,
        false,
        "erase_sector",
        machine,
    );
    reveal_with_fuel(chosen, 9);
    reveal_with_fuel(written, 9);
    let writes = seq![
        (*registers.program_counter, algorithm.pc_erase_sector),
        (registers.argument_registers@[0], address),
        (*registers.return_address, link),
    ];
    let all = settings(
        core,
        algorithm,
        algorithm.pc_erase_sector,
        Some(address),
        None,
        None,
        None,
        false,
    );
    assert(chosen(all) =~= writes);
    let tail = start_and_check(core, "erase_sector");
    lemma_writes_are_there(core, Seq::empty(), writes, tail);
    let calls = register_writes(core, writes) + tail;
    assert(Seq::<ExchangeSpec>::empty() + register_writes(core, writes) + tail =~= calls);
    assert(writes[0].0 == *registers.program_counter);
    assert(writes[1].0 == registers.argument_registers@[0]);
    assert(writes[2].0 == *registers.return_address);
    lemma_distinct(core);
}

/// Erasing the chip runs the routine for it, which has no arguments, and asks for its result.
/// Nothing else is done.
pub proof fn law_erase_all_erases_the_chip<'a>(
    flasher: &ActiveFlasher<'a, Erase>,
    pc: u32,
    procedure: Procedure,
    link: u32,
    machine: Machine,
)
    requires
        call_ensures(ActiveFlasher::<'a, Erase>::erase_all, (flasher,), Ok(procedure)),
        flasher@.algorithm.pc_erase_all == Some(pc),
        link as int == flasher@.algorithm.load_address + 1,
    ensures
        ({
            let core = flasher@.core;
            let registers = core.registers;
            let algorithm = flasher@.algorithm;
            let all = procedure.exchanges();
            let after = machine.obey_all(all);
            &&& procedure.replies() == Seq::<ReplySpec>::empty()
            &&& all == register_writes(
                core,
                seq![
                    (*registers.program_counter, pc),
                    (*registers.return_address, link),
                ],
            ) + start_and_check(core, "erase_all")
            &&& all.contains(write_register(*registers.program_counter, pc))
            &&& all.contains(write_register(*registers.return_address, link))
            &&& after == machine
                .with_register(*registers.program_counter, pc)
                .with_register(*registers.return_address, link)
                .started()
            &&& distinct(core) ==> {
                &&& after.at_start(*registers.program_counter) == pc
                &&& after.at_start(*registers.return_address) == algorithm.load_address + 1
            }
        }),
{
    let core = flasher@.core;
    let registers = core.registers;
    let algorithm = flasher@.algorithm;
    lemma_call(core, algorithm, pc, None, None, None, None, false, "erase_all", machine);
    reveal_with_fuel(chosen, 9);
    reveal_with_fuel(written, 9);
    let writes = seq![
        (*registers.program_counter, pc),
        (*registers.return_address, link),
    ];
    assert(chosen(settings(core, algorithm, pc, None, None, None, None, false)) =~= writes);
    let tail = start_and_check(core, "erase_all");
    lemma_writes_are_there(core, Seq::empty(), writes, tail);
    let calls = register_writes(core, writes) + tail;
    assert(Seq::<ExchangeSpec>::empty() + register_writes(core, writes) + tail =~= calls);
    assert(writes[0].0 == *registers.program_counter);
    assert(writes[1].0 == *registers.return_address);
    lemma_distinct(core);
}

/// The chip can be erased if and only if the algorithm has a routine for that.
pub proof fn law_erase_all_needs_a_routine<'a>(
    flasher: &ActiveFlasher<'a, Erase>,
    result: Result<Procedure, FlasherError>,
)
    requires
        call_ensures(ActiveFlasher::<'a, Erase>::erase_all, (flasher,), result),
    ensures
        result is Ok <==> flasher@.algorithm.pc_erase_all is Some,
        flasher@.algorithm.pc_erase_all is None ==> result == Err::<Procedure, _>(
            FlasherError::NotSupported("erase_all"),
        ),
{
}

/// Programming a page puts the bytes where the algorithm expects them and runs the routine with
/// the address, the number of the bytes, which counts modulo the number of addresses, and the
/// place where they lie; its result is asked for. Nothing else is done.
#[verifier::rlimit(40)]
pub proof fn law_program_page_programs_the_bytes_at_the_address<'a>(
    flasher: &ActiveFlasher<'a, Program>,
    address: u32,
    bytes: &[u8],
    procedure: Procedure,
    length: u32,
    link: u32,
    machine: Machine,
)
    requires
        call_ensures(
            ActiveFlasher::<'a,
            Program>::program_page,
            (flasher, address, bytes),
            procedure,
        ),
        length as int == bytes@.len() as int % 0x1_0000_0000,
        link as int == flasher@.algorithm.load_address + 1,
    ensures
        ({
            let core = flasher@.core;
            let registers = core.registers;
            let algorithm = flasher@.algorithm;
            let all = procedure.exchanges();
            let after = machine.obey_all(all);
            &&& procedure.replies() == Seq::<ReplySpec>::empty()
            &&& all == seq![transfer(algorithm.begin_data, bytes@)] + register_writes(
                core,
                seq![
                    (*registers.program_counter, algorithm.pc_program_page),
                    (registers.argument_registers@[0], address),
                    (registers.argument_registers@[1], length),
                    (registers.argument_registers@[2], algorithm.begin_data),
                    (*registers.return_address, link),
                ],
            ) + start_and_check(core, "program_page")
            &&& all.contains(write_register(*registers.program_counter, algorithm.pc_program_page))
            &&& all.contains(write_register(registers.argument_registers@[0], address))
            &&& all.contains(write_register(registers.argument_registers@[1], length))
            &&& all.contains(write_register(registers.argument_registers@[2], algorithm.begin_data))
            &&& all.contains(write_register(*registers.return_address, link))
            &&& after == machine
                .with_bytes(algorithm.begin_data, bytes@)
                .with_register(*registers.program_counter, algorithm.pc_program_page)
                .with_register(registers.argument_registers@[0], address)
                .with_register(registers.argument_registers@[1], length)
                .with_register(registers.argument_registers@[2], algorithm.begin_data)
                .with_register(*registers.return_address, link)
                .started()
            &&& distinct(core) ==> {
                &&& after.at_start(*registers.program_counter) == algorithm.pc_program_page
                &&& after.at_start(registers.argument_registers@[0]) == address
                &&& after.at_start(registers.argument_registers@[1]) == length
                &&& after.at_start(registers.argument_registers@[2]) == algorithm.begin_data
                &&& after.at_start(*registers.return_address) == algorithm.load_address + 1
            }
            &&& bytes@.len() < 0x1_0000_0000 ==> length as int == bytes@.len()
            &&& bytes@.len() < 0x1_0000_0000 && distinct(core) ==> after.at_start(
                registers.argument_registers@[1],
            ) as int == bytes@.len()
            &&& forall|i: int|
                0 <= i < bytes@.len() ==> after.calls.last().memory[algorithm.begin_data + i]
                    == #[trigger] bytes@[i]
        }),
{
    let core = flasher@.core;
    let registers = core.registers;
    let algorithm = flasher@.algorithm;
    let prefix: Seq<ExchangeSpec> = seq![transfer(algorithm.begin_data, bytes@)];
    let loaded = machine.with_bytes(algorithm.begin_data, bytes@);
    reveal_with_fuel(Machine::obey_all, 2);
    assert(prefix.drop_last() =~= Seq::<ExchangeSpec>::empty());
    assert(machine.obey_all(prefix) == loaded);
    assert(length == low_word(bytes@.len()));
    lemma_call(
        core,
        algorithm,
        algorithm.pc_program_page,
        Some(address),
        Some(length),
        Some(algorithm.begin_data),
        None,
        false,
        "program_page",
        loaded,
    );
    reveal_with_fuel(chosen, 9);
    reveal_with_fuel(written, 9);
    let writes = seq![
        (*registers.program_counter, algorithm.pc_program_page),
        (registers.argument_registers@[0], address),
        (registers.argument_registers@[1], length),
        (registers.argument_registers@[2], algorithm.begin_data),
        (*registers.return_address, link),
    ];
    let all = settings(
        core,
        algorithm,
        algorithm.pc_program_page,
        Some(address),
        Some(length),
        Some(algorithm.begin_data),
        None,
        false,
    );
    assert(chosen(all) =~= writes);
    let tail = start_and_check(core, "program_page");
    lemma_writes_are_there(core, seq![transfer(algorithm.begin_data, bytes@)], writes, tail);
    assert(writes[0].0 == *registers.program_counter);
    assert(writes[1].0 == registers.argument_registers@[0]);
    assert(writes[2].0 == registers.argument_registers@[1]);
    assert(writes[3].0 == registers.argument_registers@[2]);
    assert(writes[4].0 == *registers.return_address);
    let calls = register_writes(core, writes) + tail;
    assert(prefix + register_writes(core, writes) + tail =~= prefix + calls);
    lemma_obey_both(machine, prefix, calls);
    assert(procedure.exchanges() =~= prefix + calls);
    lemma_distinct(core);
}

/// Starting to program a page from a page buffer runs the routine with the address, the size of a
/// page and the place of the buffer with that number. The end is not waited for.
pub proof fn law_a_page_is_started_from_its_buffer<'a>(
    flasher: &ActiveFlasher<'a, Program>,
    address: u32,
    number: usize,
    procedure: Procedure,
    link: u32,
    machine: Machine,
)
    requires
        call_ensures(
            ActiveFlasher::<'a,
            Program>::start_program_page_with_buffer,
            (flasher, address, number),
            Ok(procedure),
        ),
        link as int == flasher@.algorithm.load_address + 1,
    ensures
        ({
            let core = flasher@.core;
            let registers = core.registers;
            let algorithm = flasher@.algorithm;
            let size = algorithm.flash_properties.page_size;
            let buffer = algorithm.page_buffers@[number as int];
            let all = procedure.exchanges();
            let after = machine.obey_all(all);
            &&& procedure.replies() == Seq::<ReplySpec>::empty()
            &&& all == register_writes(
                core,
                seq![
                    (*registers.program_counter, algorithm.pc_program_page),
                    (registers.argument_registers@[0], address),
                    (registers.argument_registers@[1], size),
                    (registers.argument_registers@[2], buffer),
                    (*registers.return_address, link),
                ],
            ) + seq![run_core()]
            &&& all.contains(write_register(*registers.program_counter, algorithm.pc_program_page))
            &&& all.contains(write_register(registers.argument_registers@[0], address))
            &&& all.contains(write_register(registers.argument_registers@[1], size))
            &&& all.contains(write_register(registers.argument_registers@[2], buffer))
            &&& all.contains(write_register(*registers.return_address, link))
            &&& after == machine
                .with_register(*registers.program_counter, algorithm.pc_program_page)
                .with_register(registers.argument_registers@[0], address)
                .with_register(registers.argument_registers@[1], size)
                .with_register(registers.argument_registers@[2], buffer)
                .with_register(*registers.return_address, link)
                .started()
            &&& distinct(core) ==> {
                &&& after.at_start(*registers.program_counter) == algorithm.pc_program_page
                &&& after.at_start(registers.argument_registers@[0]) == address
                &&& after.at_start(registers.argument_registers@[1]) == size
                &&& after.at_start(registers.argument_registers@[2]) == buffer
                &&& after.at_start(*registers.return_address) == algorithm.load_address + 1
            }
        }),
{
    let core = flasher@.core;
    let registers = core.registers;
    let algorithm = flasher@.algorithm;
    lemma_call(
        core,
        algorithm,
        algorithm.pc_program_page,
        Some(address),
        Some(algorithm.flash_properties.page_size),
        Some(algorithm.page_buffers@[number as int]),
        None,
        false,
        "program_page",
        machine,
    );
    reveal_with_fuel(chosen, 9);
    reveal_with_fuel(written, 9);
    let writes = seq![
        (*registers.program_counter, algorithm.pc_program_page),
        (registers.argument_registers@[0], address),
        (registers.argument_registers@[1], algorithm.flash_properties.page_size),
        (registers.argument_registers@[2], algorithm.page_buffers@[number as int]),
        (*registers.return_address, link),
    ];
    let all = settings(
        core,
        algorithm,
        algorithm.pc_program_page,
        Some(address),
        Some(algorithm.flash_properties.page_size),
        Some(algorithm.page_buffers@[number as int]),
        None,
        false,
    );
    assert(chosen(all) =~= writes);
    let tail = seq![run_core()];
    lemma_writes_are_there(core, Seq::empty(), writes, tail);
    let calls = register_writes(core, writes) + tail;
    assert(Seq::<ExchangeSpec>::empty() + register_writes(core, writes) + tail =~= calls);
    assert(writes[0].0 == *registers.program_counter);
    assert(writes[1].0 == registers.argument_registers@[0]);
    assert(writes[2].0 == registers.argument_registers@[1]);
    assert(writes[3].0 == registers.argument_registers@[2]);
    assert(writes[4].0 == *registers.return_address);
    lemma_distinct(core);
}

/// Loading a page buffer puts the bytes where the buffer with that number lies, and does nothing
/// else.
pub proof fn law_a_page_buffer_is_loaded_with_the_bytes<'a>(
    flasher: &ActiveFlasher<'a, Program>,
    address: u32,
    bytes: &[u8],
    number: usize,
    procedure: Procedure,
    machine: Machine,
)
    requires
        call_ensures(
            ActiveFlasher::<'a, Program>::load_page_buffer,
            (flasher, address, bytes, number),
            Ok(procedure),
        ),
    ensures
        ({
            let buffer = flasher@.algorithm.page_buffers@[number as int];
            let all = procedure.exchanges();
            let after = machine.obey_all(all);
            &&& procedure.replies() == Seq::<ReplySpec>::empty()
            &&& procedure.exchanges() == seq![transfer(buffer, bytes@)]
            &&& after == machine.with_bytes(buffer, bytes@)
            &&& forall|i: int|
                0 <= i < bytes@.len() ==> after.memory[buffer + i] == #[trigger] bytes@[i]
        }),
{
    let buffer = flasher@.algorithm.page_buffers@[number as int];
    let all: Seq<ExchangeSpec> = seq![transfer(buffer, bytes@)];
    reveal_with_fuel(Machine::obey_all, 2);
    assert(all.drop_last() =~= Seq::<ExchangeSpec>::empty());
    assert(procedure.exchanges() =~= all);
}

/// A page buffer is refused if and only if there is none with that number, and the error tells
/// the number and how many there are.
pub proof fn law_only_page_buffers_that_exist_are_used<'a>(
    flasher: &ActiveFlasher<'a, Program>,
    address: u32,
    bytes: &[u8],
    number: usize,
    loaded: Result<Procedure, FlasherError>,
    started: Result<Procedure, FlasherError>,
)
    requires
        call_ensures(
            ActiveFlasher::<'a, Program>::load_page_buffer,
            (flasher, address, bytes, number),
            loaded,
        ),
        call_ensures(
            ActiveFlasher::<'a, Program>::start_program_page_with_buffer,
            (flasher, address, number),
            started,
        ),
    ensures
        loaded is Ok <==> number < flasher@.algorithm.page_buffers@.len(),
        started is Ok <==> number < flasher@.algorithm.page_buffers@.len(),
        loaded matches Err(error) ==> (error matches FlasherError::InvalidBufferNumber { n, max }
            && n == number && max == flasher@.algorithm.page_buffers@.len()),
        started matches Err(error) ==> (error matches FlasherError::InvalidBufferNumber { n, max }
            && n == number && max == flasher@.algorithm.page_buffers@.len()),
{
}

/// Ending the work on an operation runs the `uninit` routine with the code of that very operation
/// in the first argument, and asks for its result. Nothing else is done.
pub proof fn law_uninit_tells_the_operation_that_ends<'a, O: Operation>(
    flasher: &ActiveFlasher<'a, O>,
    pc: u32,
    procedure: Procedure,
    link: u32,
    machine: Machine,
)
    requires
        call_ensures(ActiveFlasher::<'a, O>::uninit, (flasher,), procedure),
        flasher@.algorithm.pc_uninit == Some(pc),
        link as int == flasher@.algorithm.load_address + 1,
    ensures
        ({
            let core = flasher@.core;
            let registers = core.registers;
            let algorithm = flasher@.algorithm;
            let all = procedure.exchanges();
            let after = machine.obey_all(all);
            &&& procedure.replies() == Seq::<ReplySpec>::empty()
            &&& all == register_writes(
                core,
                seq![
                    (*registers.program_counter, pc),
                    (registers.argument_registers@[0], O::code()),
                    (*registers.return_address, link),
                ],
            ) + start_and_check(core, "uninit")
            &&& all.contains(write_register(*registers.program_counter, pc))
            &&& all.contains(write_register(registers.argument_registers@[0], O::code()))
            &&& all.contains(write_register(*registers.return_address, link))
            &&& after == machine
                .with_register(*registers.program_counter, pc)
                .with_register(registers.argument_registers@[0], O::code())
                .with_register(*registers.return_address, link)
                .started()
            &&& distinct(core) ==> {
                &&& after.at_start(*registers.program_counter) == pc
                &&& after.at_start(registers.argument_registers@[0]) == O::code()
                &&& after.at_start(*registers.return_address) == algorithm.load_address + 1
            }
        }),
{
    let core = flasher@.core;
    let registers = core.registers;
    let algorithm = flasher@.algorithm;
    lemma_call(core, algorithm, pc, Some(O::code()), None, None, None, false, "uninit", machine);
    reveal_with_fuel(chosen, 9);
    reveal_with_fuel(written, 9);
    let writes = seq![
        (*registers.program_counter, pc),
        (registers.argument_registers@[0], O::code()),
        (*registers.return_address, link),
    ];
    let all = settings(
        core,
        algorithm,
        pc,
        Some(O::code()),
        None,
        None,
        None,
        false,
    );
    assert(chosen(all) =~= writes);
    let tail = start_and_check(core, "uninit");
    lemma_writes_are_there(core, Seq::empty(), writes, tail);
    let calls = register_writes(core, writes) + tail;
    assert(Seq::<ExchangeSpec>::empty() + register_writes(core, writes) + tail =~= calls);
    assert(writes[0].0 == *registers.program_counter);
    assert(writes[1].0 == registers.argument_registers@[0]);
    assert(writes[2].0 == *registers.return_address);
    lemma_distinct(core);
}

/// Initialising the algorithm runs the `init` routine with the first address, if there is one, the
/// clock, 0 if there is none, and the code of the very operation in the third argument, with the
/// static base and the stack of the algorithm, and asks for its result. Nothing else is done.
#[verifier::rlimit(40)]
pub proof fn law_init_tells_the_operation_that_begins<'a, O: Operation>(
    flasher: &ActiveFlasher<'a, O>,
    address: u32,
    clock: Option<u32>,
    rate: u32,
    pc: u32,
    procedure: Procedure,
    link: u32,
    machine: Machine,
)
    requires
        call_ensures(ActiveFlasher::<'a, O>::init, (flasher, Some(address), clock), procedure),
        flasher@.algorithm.pc_init == Some(pc),
        clock matches Some(clock) ==> rate == clock,
        clock is None ==> rate == 0,
        link as int == flasher@.algorithm.load_address + 1,
    ensures
        ({
            let core = flasher@.core;
            let registers = core.registers;
            let algorithm = flasher@.algorithm;
            let all = procedure.exchanges();
            let after = machine.obey_all(all);
            &&& procedure.replies() == Seq::<ReplySpec>::empty()
            &&& all == register_writes(
                core,
                seq![
                    (*registers.program_counter, pc),
                    (registers.argument_registers@[0], address),
                    (registers.argument_registers@[1], rate),
                    (registers.argument_registers@[2], O::code()),
                    (registers.platform_registers@[9], algorithm.static_base),
                    (*registers.stack_pointer, algorithm.begin_stack),
                    (*registers.return_address, link),
                ],
            ) + start_and_check(core, "init")
            &&& all.contains(write_register(*registers.program_counter, pc))
            &&& all.contains(write_register(registers.argument_registers@[0], address))
            &&& all.contains(write_register(registers.argument_registers@[1], rate))
            &&& all.contains(write_register(registers.argument_registers@[2], O::code()))
            &&& all.contains(
                write_register(registers.platform_registers@[9], algorithm.static_base),
            )
            &&& all.contains(write_register(*registers.stack_pointer, algorithm.begin_stack))
            &&& all.contains(write_register(*registers.return_address, link))
            &&& after == machine
                .with_register(*registers.program_counter, pc)
                .with_register(registers.argument_registers@[0], address)
                .with_register(registers.argument_registers@[1], rate)
                .with_register(registers.argument_registers@[2], O::code())
                .with_register(registers.platform_registers@[9], algorithm.static_base)
                .with_register(*registers.stack_pointer, algorithm.begin_stack)
                .with_register(*registers.return_address, link)
                .started()
            &&& distinct(core) ==> {
                &&& after.at_start(*registers.program_counter) == pc
                &&& after.at_start(registers.argument_registers@[0]) == address
                &&& after.at_start(registers.argument_registers@[1]) == rate
                &&& after.at_start(registers.argument_registers@[2]) == O::code()
                &&& after.at_start(registers.platform_registers@[9]) == algorithm.static_base
                &&& after.at_start(*registers.stack_pointer) == algorithm.begin_stack
                &&& after.at_start(*registers.return_address) == algorithm.load_address + 1
            }
        }),
{
    let core = flasher@.core;
    let registers = core.registers;
    let algorithm = flasher@.algorithm;
    lemma_call(
        core,
        algorithm,
        pc,
        Some(address),
        Some(rate),
        Some(O::code()),
        None,
        true,
        "init",
        machine,
    );
    reveal_with_fuel(chosen, 9);
    reveal_with_fuel(written, 9);
    let writes = seq![
        (*registers.program_counter, pc),
        (registers.argument_registers@[0], address),
        (registers.argument_registers@[1], rate),
        (registers.argument_registers@[2], O::code()),
        (registers.platform_registers@[9], algorithm.static_base),
        (*registers.stack_pointer, algorithm.begin_stack),
        (*registers.return_address, link),
    ];
    let all = settings(
        core,
        algorithm,
        pc,
        Some(address),
        Some(rate),
        Some(O::code()),
        None,
        true,
    );
    assert(chosen(all) =~= writes);
    let tail = start_and_check(core, "init");
    lemma_writes_are_there(core, Seq::empty(), writes, tail);
    let calls = register_writes(core, writes) + tail;
    assert(Seq::<ExchangeSpec>::empty() + register_writes(core, writes) + tail =~= calls);
    assert(writes[0].0 == *registers.program_counter);
    assert(writes[1].0 == registers.argument_registers@[0]);
    assert(writes[2].0 == registers.argument_registers@[1]);
    assert(writes[3].0 == registers.argument_registers@[2]);
    assert(writes[4].0 == registers.platform_registers@[9]);
    assert(writes[5].0 == *registers.stack_pointer);
    assert(writes[6].0 == *registers.return_address);
    lemma_distinct(core);
}

/// Without an address the `init` routine gets no first argument.
pub proof fn law_init_without_an_address<'a, O: Operation>(
    flasher: &ActiveFlasher<'a, O>,
    clock: Option<u32>,
    rate: u32,
    pc: u32,
    procedure: Procedure,
    link: u32,
)
    requires
        call_ensures(ActiveFlasher::<'a, O>::init, (flasher, None, clock), procedure),
        flasher@.algorithm.pc_init == Some(pc),
        clock matches Some(clock) ==> rate == clock,
        clock is None ==> rate == 0,
        link as int == flasher@.algorithm.load_address + 1,
    ensures
        procedure.exchanges() == register_writes(
            flasher@.core,
            seq![
                (*flasher@.core.registers.program_counter, pc),
                (flasher@.core.registers.argument_registers@[1], rate),
                (flasher@.core.registers.argument_registers@[2], O::code()),
                (flasher@.core.registers.platform_registers@[9], flasher@.algorithm.static_base),
                (*flasher@.core.registers.stack_pointer, flasher@.algorithm.begin_stack),
                (*flasher@.core.registers.return_address, link),
            ],
        ) + start_and_check(flasher@.core, "init"),
{
    let core = flasher@.core;
    let registers = core.registers;
    let algorithm = flasher@.algorithm;
    let machine = Machine { registers: Map::empty(), memory: Map::empty(), calls: Seq::empty() };
    let code = O::code();
    lemma_call(core, algorithm, pc, None, Some(rate), Some(code), None, true, "init", machine);
    reveal_with_fuel(chosen, 9);
    assert(chosen(settings(core, algorithm, pc, None, Some(rate), Some(code), None, true)) =~= seq![
        (*registers.program_counter, pc),
        (registers.argument_registers@[1], rate),
        (registers.argument_registers@[2], code),
        (registers.platform_registers@[9], algorithm.static_base),
        (*registers.stack_pointer, algorithm.begin_stack),
        (*registers.return_address, link),
    ]);
}

/// An algorithm without an `init` routine is not initialised by one, and one without an `uninit`
/// routine is not ended by one: nothing is done.
pub proof fn law_a_routine_that_is_not_there_is_not_called<'a, O: Operation>(
    flasher: &ActiveFlasher<'a, O>,
    address: Option<u32>,
    clock: Option<u32>,
    init: Procedure,
    uninit: Procedure,
)
    requires
        call_ensures(ActiveFlasher::<'a, O>::init, (flasher, address, clock), init),
        call_ensures(ActiveFlasher::<'a, O>::uninit, (flasher,), uninit),
    ensures
        flasher@.algorithm.pc_init is None ==> init.exchanges() == Seq::<ExchangeSpec>::empty(),
        flasher@.algorithm.pc_uninit is None ==> uninit.exchanges() == Seq::<ExchangeSpec>::empty(),
{
}

/// Waiting for a routine waits until the core halts and gives the first result register. Reading
/// reads at the address and as much as was asked for.
pub proof fn law_reading_asks_for_what_is_wanted<'a, O: Operation>(
    flasher: &ActiveFlasher<'a, O>,
    address: u32,
    length: usize,
    result: Procedure,
    words: Procedure,
    bytes: Procedure,
)
    requires
        call_ensures(ActiveFlasher::<'a, O>::wait_for_completion, (flasher,), result),
        call_ensures(ActiveFlasher::<'a, O>::read_block32, (flasher, address, length), words),
        call_ensures(ActiveFlasher::<'a, O>::read_block8, (flasher, address, length), bytes),
    ensures
        result.replies() == Seq::<ReplySpec>::empty(),
        result.exchanges() == seq![
            ExchangeSpec { command: Command::WaitForCoreHalted, policy: Policy::Retry },
            ExchangeSpec {
                command: Command::ReadCoreReg {
                    register: flasher@.core.registers.result_registers@[0].address,
                },
                policy: Policy::Deliver,
            },
        ],
        words.replies() == Seq::<ReplySpec>::empty(),
        words.exchanges() == seq![
            ExchangeSpec {
                command: Command::ReadBlock32 { address, length },
                policy: Policy::Deliver,
            },
        ],
        bytes.replies() == Seq::<ReplySpec>::empty(),
        bytes.exchanges() == seq![
            ExchangeSpec {
                command: Command::ReadBlock8 { address, length },
                policy: Policy::Deliver,
            },
        ],
{
}

/// Wherever a call comes from, the routine returns to the address after the one that the algorithm
/// is loaded at, and it runs only after everything was set.
pub proof fn law_every_call_returns_to_the_algorithm(
    core: Core,
    algorithm: FlashAlgorithm,
    pc: u32,
    r0: Option<u32>,
    r1: Option<u32>,
    r2: Option<u32>,
    r3: Option<u32>,
    init: bool,
    load: u32,
    words: Seq<u32>,
    link: u32,
)
    requires
        load_exchanges(core, algorithm).contains(
            Exchange {
                command: Command::WriteBlock32 { address: load, words },
                policy: Policy::Require,
            },
        ),
        link as int == load + 1,
    ensures
        load == algorithm.load_address,
        words == algorithm.instructions@,
        call(core, algorithm, pc, r0, r1, r2, r3, init).drop_last().contains(
            write_register(*core.registers.return_address, link),
        ),
        call(core, algorithm, pc, r0, r1, r2, r3, init).last() == run_core(),
{
    let all = settings(core, algorithm, pc, r0, r1, r2, r3, init);
    let start = call(core, algorithm, pc, r0, r1, r2, r3, init);
    let first = set_registers(core, all);
    let rest = set_registers(core, all.drop_last());
    assert(start.drop_last() =~= first);
    assert(all.last() == (*core.registers.return_address, Some(link)));
    assert(first[rest.len() as int] == write_register(*core.registers.return_address, link));
}

/// The exchanges that load `words` to `address` and read `length` of them back. While the debug log
/// is on the core has to be halted, while it is off it is only tried.
pub open spec fn load_script(
    core: Core,
    address: u32,
    words: Seq<u32>,
    length: usize,
) -> Seq<ExchangeSpec> {
    seq![
        ExchangeSpec { command: Command::AttachToCore { index: 0 }, policy: Policy::Require },
        ExchangeSpec {
            command: Command::Halt,
            policy: if core.debug_log {
                Policy::Insist
            } else {
                Policy::Tolerate
            },
        },
        ExchangeSpec { command: Command::WaitForCoreHalted, policy: Policy::Require },
        ExchangeSpec { command: Command::ResetAndHalt, policy: Policy::Require },
        ExchangeSpec {
            command: Command::WriteBlock32 { address, words },
            policy: Policy::Require,
        },
        ExchangeSpec {
            command: Command::ReadBlock32 { address, length },
            policy: Policy::ReadBack { words },
        },
    ]
}

/// What the registers are set to for the `init` routine.
pub open spec fn init_writes(
    core: Core,
    algorithm: FlashAlgorithm,
    pc: u32,
    first: u32,
    rate: u32,
    code: u32,
    link: u32,
) -> Seq<(RegisterDescription, u32)> {
    seq![
        (*core.registers.program_counter, pc),
        (core.registers.argument_registers@[0], first),
        (core.registers.argument_registers@[1], rate),
        (core.registers.argument_registers@[2], code),
        (core.registers.platform_registers@[9], algorithm.static_base),
        (*core.registers.stack_pointer, algorithm.begin_stack),
        (*core.registers.return_address, link),
    ]
}

/// The exchanges that load `algorithm` and then call its `init` routine, if there is one.
pub open spec fn setup_script(
    core: Core,
    algorithm: FlashAlgorithm,
    first: u32,
    rate: u32,
    code: u32,
    length: usize,
    link: u32,
) -> Seq<ExchangeSpec> {
    let load = load_script(core, algorithm.load_address, algorithm.instructions@, length);
    match algorithm.pc_init {
        Some(pc) => load + register_writes(
            core,
            init_writes(core, algorithm, pc, first, rate, code, link),
        ) + start_and_check(core, "init"),
        None => load,
    }
}

/// What loading an algorithm says and does.
proof fn lemma_load(core: Core, algorithm: FlashAlgorithm, length: usize, machine: Machine)
    requires
        length as int == algorithm.instructions@.len(),
    ensures
        ({
            let address = algorithm.load_address;
            let words = algorithm.instructions@;
            let load = load_exchanges(core, algorithm);
            &&& load == load_script(core, address, words, length)
            &&& machine.obey_all(load) == machine.reset().with_words(address, words)
        }),
{
    let load = load_exchanges(core, algorithm);
    let script = load_script(core, algorithm.load_address, algorithm.instructions@, length);
    assert(load =~= script);
    let l5 = load.drop_last();
    let l4 = l5.drop_last();
    let l3 = l4.drop_last();
    let l2 = l3.drop_last();
    let l1 = l2.drop_last();
    assert(l5.last() == load[4] && l4.last() == load[3] && l3.last() == load[2]);
    assert(l2.last() == load[1] && l1.last() == load[0]);
    assert(l1.drop_last() =~= Seq::<ExchangeSpec>::empty());
    assert(machine.obey_all(l1.drop_last()) == machine);
    assert(machine.obey_all(l1) == machine);
    assert(machine.obey_all(l2) == machine);
    assert(machine.obey_all(l3) == machine);
    assert(machine.obey_all(l4) == machine.reset());
    let words = algorithm.instructions@;
    let loaded = machine.reset().with_words(algorithm.load_address, words);
    assert(load[4].command == (CommandSpec::WriteBlock32 {
        address: algorithm.load_address,
        words,
    }));
    assert(machine.obey_all(l5) == loaded);
    assert(load.last() == load[5]);
    assert(machine.obey_all(load) == loaded);
}

/// What the call of the `init` routine says and does.
proof fn lemma_init_routine(
    core: Core,
    algorithm: FlashAlgorithm,
    pc: u32,
    first: u32,
    rate: u32,
    code: u32,
    link: u32,
    machine: Machine,
)
    requires
        link as int == algorithm.load_address + 1,
    ensures
        ({
            let writes = init_writes(core, algorithm, pc, first, rate, code, link);
            let all = call_and_wait(
                core,
                algorithm,
                pc,
                Some(first),
                Some(rate),
                Some(code),
                None,
                true,
                "init",
            );
            &&& all == register_writes(core, writes) + start_and_check(core, "init")
            &&& machine.obey_all(all) == written(machine, writes).started()
        }),
{
    let a0 = Some(first);
    let a1 = Some(rate);
    let a2 = Some(code);
    lemma_call(core, algorithm, pc, a0, a1, a2, None, true, "init", machine);
    reveal_with_fuel(chosen, 9);
    assert(chosen(settings(core, algorithm, pc, a0, a1, a2, None, true)) =~= init_writes(
        core,
        algorithm,
        pc,
        first,
        rate,
        code,
        link,
    ));
}

/// What an initialisation says and does.
#[verifier::rlimit(40)]
proof fn lemma_setup(
    core: Core,
    algorithm: FlashAlgorithm,
    region: FlashRegion,
    code: u32,
    address: Option<u32>,
    clock: Option<u32>,
    first: u32,
    rate: u32,
    length: usize,
    link: u32,
    machine: Machine,
)
    requires
        address matches Some(address) ==> first == address,
        address is None ==> first == region.range.start,
        clock matches Some(clock) ==> rate == clock,
        clock is None ==> rate == 0,
        length as int == algorithm.instructions@.len(),
        algorithm.pc_init is Some ==> link as int == algorithm.load_address + 1,
    ensures
        setup_exchanges(core, algorithm, region, code, address, clock) == setup_script(
            core,
            algorithm,
            first,
            rate,
            code,
            length,
            link,
        ),
        ({
            let loaded = machine.reset().with_words(
                algorithm.load_address,
                algorithm.instructions@,
            );
            let after = machine.obey_all(
                setup_exchanges(core, algorithm, region, code, address, clock),
            );
            match algorithm.pc_init {
                Some(pc) => {
                    let writes = init_writes(core, algorithm, pc, first, rate, code, link);
                    &&& after == written(loaded, writes).started()
                    &&& forall|k: int|
                        #![trigger writes[k]]
                        0 <= k < 7 ==> setup_exchanges(
                            core,
                            algorithm,
                            region,
                            code,
                            address,
                            clock,
                        ).contains(write_register(writes[k].0, writes[k].1))
                },
                None => after == loaded,
            }
        }),
{
    let script = load_script(core, algorithm.load_address, algorithm.instructions@, length);
    let all = setup_exchanges(core, algorithm, region, code, address, clock);
    lemma_load(core, algorithm, length, machine);
    match algorithm.pc_init {
        Some(pc) => {
            let loaded = machine.obey_all(script);
            let writes = init_writes(core, algorithm, pc, first, rate, code, link);
            let end = start_and_check(core, "init");
            let calls = register_writes(core, writes) + end;
            lemma_init_routine(core, algorithm, pc, first, rate, code, link, loaded);
            assert(script + register_writes(core, writes) + end =~= script + calls);
            assert(all == script + calls);
            lemma_obey_both(machine, script, calls);
            lemma_writes_are_there(core, script, writes, end);
        },
        None => {
            assert(all =~= script);
        },
    }
}

/// The bytes of a word that was put into memory are its bytes.
proof fn lemma_words_are_there(machine: Machine, address: u32, words: Seq<u32>, i: int)
    requires
        0 <= i < words.len(),
    ensures
        ({
            let memory = machine.with_words(address, words).memory;
            words[i] == memory[address + 4 * i] + 0x100 * memory[address + 4 * i + 1] + 0x1_0000
                * memory[address + 4 * i + 2] + 0x100_0000 * memory[address + 4 * i + 3]
        }),
{
    let word = words[i];
    assert(word as int == word as int % 0x100 + 0x100 * (word as int / 0x100 % 0x100) + 0x1_0000 * (
    word as int / 0x1_0000 % 0x100) + 0x100_0000 * (word as int / 0x100_0000 % 0x100))
        by (bit_vector);
    assert((4 * i) / 4 == i && (4 * i) % 4 == 0);
    assert((4 * i + 1) / 4 == i && (4 * i + 1) % 4 == 1);
    assert((4 * i + 2) / 4 == i && (4 * i + 2) % 4 == 2);
    assert((4 * i + 3) / 4 == i && (4 * i + 3) % 4 == 3);
    let bytes = Seq::new(4 * words.len(), |i: int| byte_at(words, i));
    let memory = machine.with_words(address, words).memory;
    assert(memory[address + 4 * i] == bytes[4 * i]);
    assert(memory[address + 4 * i + 1] == bytes[4 * i + 1]);
    assert(memory[address + 4 * i + 2] == bytes[4 * i + 2]);
    assert(memory[address + 4 * i + 3] == bytes[4 * i + 3]);
}

/// What the registers hold when the `init` routine runs.
#[verifier::rlimit(40)]
proof fn lemma_init_writes(
    core: Core,
    algorithm: FlashAlgorithm,
    pc: u32,
    first: u32,
    rate: u32,
    code: u32,
    link: u32,
    machine: Machine,
)
    ensures
        ({
            let registers = core.registers;
            let writes = init_writes(core, algorithm, pc, first, rate, code, link);
            let after = written(machine, writes).started();
            &&& writes[0] == (*registers.program_counter, pc)
            &&& writes[1] == (registers.argument_registers@[0], first)
            &&& writes[2] == (registers.argument_registers@[1], rate)
            &&& writes[3] == (registers.argument_registers@[2], code)
            &&& writes[4] == (registers.platform_registers@[9], algorithm.static_base)
            &&& writes[5] == (*registers.stack_pointer, algorithm.begin_stack)
            &&& writes[6] == (*registers.return_address, link)
            &&& after.memory == machine.memory
            &&& after == machine
                .with_register(*registers.program_counter, pc)
                .with_register(registers.argument_registers@[0], first)
                .with_register(registers.argument_registers@[1], rate)
                .with_register(registers.argument_registers@[2], code)
                .with_register(registers.platform_registers@[9], algorithm.static_base)
                .with_register(*registers.stack_pointer, algorithm.begin_stack)
                .with_register(*registers.return_address, link)
                .started()
            &&& distinct(core) ==> {
                &&& after.at_start(*registers.program_counter) == pc
                &&& after.at_start(registers.argument_registers@[0]) == first
                &&& after.at_start(registers.argument_registers@[1]) == rate
                &&& after.at_start(registers.argument_registers@[2]) == code
                &&& after.at_start(registers.platform_registers@[9]) == algorithm.static_base
                &&& after.at_start(*registers.stack_pointer) == algorithm.begin_stack
                &&& after.at_start(*registers.return_address) == link
            }
        }),
{
    reveal_with_fuel(written, 9);
    lemma_distinct(core);
}

/// Initialising a flasher loads the words of its algorithm to where the algorithm belongs and reads
/// them back. Then the `init` routine, if there is one, runs with the address, or the start of the
/// region, the clock, or 0, and the code of the very operation, on the stack and the static base of
/// the algorithm, and returns to where the algorithm was loaded. Nothing else is done, and the
/// flasher that results works with the same core, algorithm and region.
#[verifier::rlimit(40)]
pub proof fn law_init_loads_the_algorithm_and_runs_its_init_routine<'a, 'b, O: Operation>(
    flasher: &'b mut Flasher<'a>,
    listing: Result<Vec<String>, DisassemblyError>,
    address: Option<u32>,
    clock: Option<u32>,
    initialization: Initialization<'b, O>,
    first: u32,
    rate: u32,
    length: usize,
    link: u32,
    machine: Machine,
)
    requires
        call_ensures(Flasher::<'a>::init::<O>, (flasher, address, clock), Ok(initialization))
            || call_ensures(
            Flasher::<'a>::init_with_listing::<O>,
            (flasher, listing, address, clock),
            Ok(initialization),
        ),
        address matches Some(address) ==> first == address,
        address is None ==> first == old(flasher)@.region.range.start,
        clock matches Some(clock) ==> rate == clock,
        clock is None ==> rate == 0,
        length as int == old(flasher)@.algorithm.instructions@.len(),
        old(flasher)@.algorithm.pc_init is Some ==> link as int == old(
            flasher,
        )@.algorithm.load_address + 1,
    ensures
        ({
            let core = old(flasher)@.session.core;
            let registers = core.registers;
            let algorithm = old(flasher)@.algorithm;
            let all = initialization.procedure().exchanges();
            let after = machine.obey_all(all);
            let loaded = machine.reset().with_words(
                algorithm.load_address,
                algorithm.instructions@,
            );
            &&& initialization.flasher().core == core
            &&& initialization.flasher().algorithm == algorithm
            &&& initialization.flasher().region == old(flasher)@.region
            &&& initialization.flasher().double_buffering_supported == old(
                flasher,
            )@.double_buffering_supported
            &&& initialization.procedure().replies() == Seq::<ReplySpec>::empty()
            &&& all == setup_script(core, algorithm, first, rate, O::code(), length, link)
            &&& forall|i: int|
                0 <= i < algorithm.instructions@.len() ==> {
                    let at = algorithm.load_address + 4 * i;
                    &&& #[trigger] algorithm.instructions@[i] == after.memory[at] + 0x100
                        * after.memory[at + 1] + 0x1_0000 * after.memory[at + 2] + 0x100_0000
                        * after.memory[at + 3]
                }
            &&& algorithm.pc_init is None ==> after == loaded
            &&& algorithm.pc_init matches Some(pc) ==> {
                &&& after == loaded
                    .with_register(*registers.program_counter, pc)
                    .with_register(registers.argument_registers@[0], first)
                    .with_register(registers.argument_registers@[1], rate)
                    .with_register(registers.argument_registers@[2], O::code())
                    .with_register(registers.platform_registers@[9], algorithm.static_base)
                    .with_register(*registers.stack_pointer, algorithm.begin_stack)
                    .with_register(*registers.return_address, link)
                    .started()
                &&& all.contains(write_register(*registers.program_counter, pc))
                &&& all.contains(write_register(registers.argument_registers@[0], first))
                &&& all.contains(write_register(registers.argument_registers@[1], rate))
                &&& all.contains(write_register(registers.argument_registers@[2], O::code()))
                &&& all.contains(
                    write_register(registers.platform_registers@[9], algorithm.static_base),
                )
                &&& all.contains(write_register(*registers.stack_pointer, algorithm.begin_stack))
                &&& all.contains(write_register(*registers.return_address, link))
                &&& distinct(core) ==> {
                    &&& after.at_start(*registers.program_counter) == pc
                    &&& after.at_start(registers.argument_registers@[0]) == first
                    &&& after.at_start(registers.argument_registers@[1]) == rate
                    &&& after.at_start(registers.argument_registers@[2]) == O::code()
                    &&& after.at_start(registers.platform_registers@[9]) == algorithm.static_base
                    &&& after.at_start(*registers.stack_pointer) == algorithm.begin_stack
                    &&& after.at_start(*registers.return_address) == algorithm.load_address + 1
                }
            }
        }),
{
    let core = old(flasher)@.session.core;
    let algorithm = old(flasher)@.algorithm;
    let region = old(flasher)@.region;
    let code = O::code();
    lemma_setup(
        core,
        algorithm,
        region,
        code,
        address,
        clock,
        first,
        rate,
        length,
        link,
        machine,
    );
    let words = algorithm.instructions@;
    assert forall|i: int| 0 <= i < words.len() implies {
        let memory = machine.reset().with_words(algorithm.load_address, words).memory;
        let at = algorithm.load_address + 4 * i;
        #[trigger] words[i] == memory[at] + 0x100 * memory[at + 1] + 0x1_0000 * memory[at + 2]
            + 0x100_0000 * memory[at + 3]
    } by {
        lemma_words_are_there(machine.reset(), algorithm.load_address, words, i);
    }
    if let Some(pc) = algorithm.pc_init {
        let loaded = machine.reset().with_words(algorithm.load_address, words);
        lemma_init_writes(core, algorithm, pc, first, rate, code, link, loaded);
    }
}

/// What a run begins with.
proof fn lemma_run<'b, O: Operation, F>(
    flasher: FlasherView,
    f: F,
    work: Work<'b, O, F>,
    length: usize,
    link: u32,
)
    requires
        work.begins(flasher, f),
        length as int == flasher.algorithm.instructions@.len(),
        flasher.algorithm.pc_init is Some ==> link as int == flasher.algorithm.load_address + 1,
    ensures
        work.initialization().procedure().exchanges() == setup_script(
            flasher.session.core,
            flasher.algorithm,
            flasher.region.range.start,
            0,
            O::code(),
            length,
            link,
        ),
        flasher.algorithm.pc_init is Some
            ==> work.initialization().procedure().exchanges().contains(
            write_register(flasher.session.core.registers.argument_registers@[2], O::code()),
        ),
{
    let core = flasher.session.core;
    let algorithm = flasher.algorithm;
    let first = flasher.region.range.start;
    let machine = Machine { registers: Map::empty(), memory: Map::empty(), calls: Seq::empty() };
    lemma_setup(
        core,
        algorithm,
        flasher.region,
        O::code(),
        None,
        None,
        first,
        0,
        length,
        link,
        machine,
    );
    if let Some(pc) = algorithm.pc_init {
        let writes = init_writes(core, algorithm, pc, first, 0, O::code(), link);
        assert(writes[3] == (core.registers.argument_registers@[2], O::code()));
    }
}

/// A run for erasing initialises the algorithm from the start of the region on, with a clock of 0
/// and the code 1, and has the work before it that it was given.
pub proof fn law_run_erase_initialises_for_erasing<
    'a,
    'b,
    T,
    E: From<FlasherError>,
    F: FnOnce(&ActiveFlasher<'b, Erase>) -> Result<T, E>,
>(
    flasher: &'b mut Flasher<'a>,
    f: F,
    work: Work<'b, Erase, F>,
    length: usize,
    link: u32,
)
    requires
        call_ensures(Flasher::<'a>::run_erase::<T, E, F>, (flasher, f), Ok(work)),
        length as int == old(flasher)@.algorithm.instructions@.len(),
        old(flasher)@.algorithm.pc_init is Some ==> link as int == old(
            flasher,
        )@.algorithm.load_address + 1,
    ensures
        ({
            let core = old(flasher)@.session.core;
            let algorithm = old(flasher)@.algorithm;
            let start = old(flasher)@.region.range.start;
            let all = work.initialization().procedure().exchanges();
            &&& work.work() == f
            &&& work.initialization().flasher().core == core
            &&& work.initialization().flasher().algorithm == algorithm
            &&& work.initialization().flasher().region == old(flasher)@.region
            &&& work.initialization().procedure().replies() == Seq::<ReplySpec>::empty()
            &&& all == setup_script(core, algorithm, start, 0, 1, length, link)
            &&& algorithm.pc_init is Some ==> all.contains(
                write_register(core.registers.argument_registers@[2], 1),
            )
        }),
{
    lemma_run(old(flasher)@, f, work, length, link);
}

/// A run for programming initialises the algorithm from the start of the region on, with a clock
/// of 0 and the code 2, and has the work before it that it was given.
pub proof fn law_run_program_initialises_for_programming<
    'a,
    'b,
    T,
    E: From<FlasherError>,
    F: FnOnce(&ActiveFlasher<'b, Program>) -> Result<T, E>,
>(
    flasher: &'b mut Flasher<'a>,
    f: F,
    work: Work<'b, Program, F>,
    length: usize,
    link: u32,
)
    requires
        call_ensures(Flasher::<'a>::run_program::<T, E, F>, (flasher, f), Ok(work)),
        length as int == old(flasher)@.algorithm.instructions@.len(),
        old(flasher)@.algorithm.pc_init is Some ==> link as int == old(
            flasher,
        )@.algorithm.load_address + 1,
    ensures
        ({
            let core = old(flasher)@.session.core;
            let algorithm = old(flasher)@.algorithm;
            let start = old(flasher)@.region.range.start;
            let all = work.initialization().procedure().exchanges();
            &&& work.work() == f
            &&& work.initialization().flasher().core == core
            &&& work.initialization().flasher().algorithm == algorithm
            &&& work.initialization().flasher().region == old(flasher)@.region
            &&& work.initialization().procedure().replies() == Seq::<ReplySpec>::empty()
            &&& all == setup_script(core, algorithm, start, 0, 2, length, link)
            &&& algorithm.pc_init is Some ==> all.contains(
                write_register(core.registers.argument_registers@[2], 2),
            )
        }),
{
    lemma_run(old(flasher)@, f, work, length, link);
}

/// A run for verifying initialises the algorithm from the start of the region on, with a clock of 0
/// and the code 3, and has the work before it that it was given.
pub proof fn law_run_verify_initialises_for_verifying<
    'a,
    'b,
    T,
    E: From<FlasherError>,
    F: FnOnce(&ActiveFlasher<'b, Verify>) -> Result<T, E>,
>(
    flasher: &'b mut Flasher<'a>,
    f: F,
    work: Work<'b, Verify, F>,
    length: usize,
    link: u32,
)
    requires
        call_ensures(Flasher::<'a>::run_verify::<T, E, F>, (flasher, f), Ok(work)),
        length as int == old(flasher)@.algorithm.instructions@.len(),
        old(flasher)@.algorithm.pc_init is Some ==> link as int == old(
            flasher,
        )@.algorithm.load_address + 1,
    ensures
        ({
            let core = old(flasher)@.session.core;
            let algorithm = old(flasher)@.algorithm;
            let start = old(flasher)@.region.range.start;
            let all = work.initialization().procedure().exchanges();
            &&& work.work() == f
            &&& work.initialization().flasher().core == core
            &&& work.initialization().flasher().algorithm == algorithm
            &&& work.initialization().flasher().region == old(flasher)@.region
            &&& work.initialization().procedure().replies() == Seq::<ReplySpec>::empty()
            &&& all == setup_script(core, algorithm, start, 0, 3, length, link)
            &&& algorithm.pc_init is Some ==> all.contains(
                write_register(core.registers.argument_registers@[2], 3),
            )
        }),
{
    lemma_run(old(flasher)@, f, work, length, link);
}

/// What a run begins it ends: the `uninit` routine gets the same code in its first argument as the
/// `init` routine of the run got in its third, and it is run on the same core.
pub proof fn law_a_run_ends_the_operation_that_it_began<
    'b,
    O: Operation,
    F,
    T,
    E: From<FlasherError>,
>(
    flasher: FlasherView,
    begun: Work<'b, O, F>,
    f: F,
    work: Work<'b, O, F>,
    teardown: Teardown<T>,
    code: u32,
    pc: u32,
    length: usize,
    link: u32,
    machine: Machine,
) where F: FnOnce(&ActiveFlasher<'b, O>) -> Result<T, E>
    requires
        begun.begins(flasher, f),
        work.initialization().flasher() == begun.initialization().flasher(),
        call_ensures(
            Work::<'b, O, F>::proceed::<T, E>,
            (work,),
            Some(Run::Teardown(teardown)),
        ),
        flasher.algorithm.pc_uninit == Some(pc),
        link as int == flasher.algorithm.load_address + 1,
        length as int == flasher.algorithm.instructions@.len(),
        code == O::code(),
    ensures
        ({
            let core = flasher.session.core;
            let registers = core.registers;
            let all = teardown.procedure().exchanges();
            let after = machine.obey_all(all);
            &&& flasher.algorithm.pc_init is Some
                ==> begun.initialization().procedure().exchanges().contains(
                write_register(registers.argument_registers@[2], code),
            )
            &&& all.contains(write_register(registers.argument_registers@[0], code))
            &&& all == register_writes(
                core,
                seq![
                    (*registers.program_counter, pc),
                    (registers.argument_registers@[0], code),
                    (*registers.return_address, link),
                ],
            ) + start_and_check(core, "uninit")
            &&& teardown.procedure().replies() == Seq::<ReplySpec>::empty()
            &&& distinct(core) ==> {
                &&& after.at_start(*registers.program_counter) == pc
                &&& after.at_start(registers.argument_registers@[0]) == code
                &&& after.at_start(*registers.return_address) == flasher.algorithm.load_address + 1
            }
        }),
{
    let core = flasher.session.core;
    let registers = core.registers;
    let algorithm = flasher.algorithm;
    lemma_run(flasher, f, begun, length, link);
    lemma_call(core, algorithm, pc, Some(code), None, None, None, false, "uninit", machine);
    reveal_with_fuel(chosen, 9);
    reveal_with_fuel(written, 9);
    let writes = seq![
        (*registers.program_counter, pc),
        (registers.argument_registers@[0], code),
        (*registers.return_address, link),
    ];
    assert(chosen(settings(core, algorithm, pc, Some(code), None, None, None, false)) =~= writes);
    let end = start_and_check(core, "uninit");
    lemma_writes_are_there(core, Seq::empty(), writes, end);
    assert(Seq::<ExchangeSpec>::empty() + register_writes(core, writes) + end
        =~= register_writes(core, writes) + end);
    assert(writes[1] == (registers.argument_registers@[0], code));
    lemma_distinct(core);
}

} // verus!

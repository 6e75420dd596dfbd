//! A flash algorithm that is loaded into the target and ready to work.

use crate::bytes::{low_word, to_low_word};
use crate::config::{FlashAlgorithm, FlashRegion};
use crate::error::FlasherError;
use crate::operation::{Erase, Operation, Program};
use crate::procedure::{
    all_valid, cannot_abort, views, Exchange, ExchangeSpec, Policy, PolicySpec, Procedure,
};
use crate::target::{Command, CommandSpec, Core, RegisterDescription};
use vstd::prelude::*;

verus! {

/// The exchange that sends `command` and ends with the error if it fails.
pub open spec fn require(command: CommandSpec) -> ExchangeSpec {
    Exchange { command, policy: Policy::Require }
}

/// The exchanges that set `register` to `value`, if there is a value. While the debug log is on,
/// the register is read back.
pub open spec fn set_register(
    core: Core,
    register: RegisterDescription,
    value: Option<u32>,
) -> Seq<ExchangeSpec> {
    match value {
        Some(value) => {
            let write = require(Command::WriteCoreReg { register: register.address, value });
            let read = require(Command::ReadCoreReg { register: register.address });
            if core.debug_log {
                seq![write, read]
            } else {
                seq![write]
            }
        },
        None => seq![],
    }
}

/// The registers that a call of the routine at `pc` sets, in this order, and to what: the entry
/// point, the arguments, for a routine that initialises the static base and the stack, and the
/// address that it returns to, which is where the algorithm is loaded, with the lowest bit set
/// for Thumb.
pub open spec fn settings(
    core: Core,
    algorithm: FlashAlgorithm,
    pc: u32,
    r0: Option<u32>,
    r1: Option<u32>,
    r2: Option<u32>,
    r3: Option<u32>,
    init: bool,
) -> Seq<(RegisterDescription, Option<u32>)> {
    let registers = core.registers;
    let static_base = if init {
        Some(algorithm.static_base)
    } else {
        None
    };
    let stack = if init {
        Some(algorithm.begin_stack)
    } else {
        None
    };
    seq![
        (*registers.program_counter, Some(pc)),
        (registers.argument_registers@[0], r0),
        (registers.argument_registers@[1], r1),
        (registers.argument_registers@[2], r2),
        (registers.argument_registers@[3], r3),
        (registers.platform_registers@[9], static_base),
        (*registers.stack_pointer, stack),
        (*registers.return_address, Some((algorithm.load_address + 1) as u32)),
    ]
}

/// The exchanges that set the registers of `settings`, one after the other.
pub open spec fn set_registers(
    core: Core,
    settings: Seq<(RegisterDescription, Option<u32>)>,
) -> Seq<ExchangeSpec>
    decreases settings.len(),
{
    if settings.len() == 0 {
        seq![]
    } else {
        set_registers(core, settings.drop_last()) + set_register(
            core,
            settings.last().0,
            settings.last().1,
        )
    }
}

/// The exchanges that start the routine at `pc`: they set the registers for it, and then the core
/// runs.
pub open spec fn call(
    core: Core,
    algorithm: FlashAlgorithm,
    pc: u32,
    r0: Option<u32>,
    r1: Option<u32>,
    r2: Option<u32>,
    r3: Option<u32>,
    init: bool,
) -> Seq<ExchangeSpec> {
    set_registers(core, settings(core, algorithm, pc, r0, r1, r2, r3, init)).push(
        require(Command::Run),
    )
}

/// The exchanges that wait until a routine has come to its end, however long that takes, and
/// read its result, which means what `policy` says.
pub open spec fn completion(core: Core, policy: PolicySpec) -> Seq<ExchangeSpec> {
    seq![
        Exchange { command: Command::WaitForCoreHalted, policy: Policy::Retry },
        Exchange {
            command: Command::ReadCoreReg { register: core.registers.result_registers@[0].address },
            policy,
        },
    ]
}

/// The exchanges that call the routine `routine`, wait for its end, and fail if its result is
/// not 0.
pub open spec fn call_and_wait(
    core: Core,
    algorithm: FlashAlgorithm,
    pc: u32,
    r0: Option<u32>,
    r1: Option<u32>,
    r2: Option<u32>,
    r3: Option<u32>,
    init: bool,
    routine: &'static str,
) -> Seq<ExchangeSpec> {
    call(core, algorithm, pc, r0, r1, r2, r3, init) + completion(core, Policy::Zero { routine })
}

/// The exchanges that call the `init` routine, if there is one.
pub open spec fn init_exchanges(
    core: Core,
    algorithm: FlashAlgorithm,
    operation: u32,
    address: Option<u32>,
    clock: Option<u32>,
) -> Seq<ExchangeSpec> {
    match algorithm.pc_init {
        Some(pc) => call_and_wait(
            core,
            algorithm,
            pc,
            address,
            Some(
                match clock {
                    Some(clock) => clock,
                    None => 0,
                },
            ),
            Some(operation),
            None,
            true,
            "init",
        ),
        None => seq![],
    }
}

/// The exchanges that call the `uninit` routine, if there is one.
pub open spec fn uninit_exchanges(
    core: Core,
    algorithm: FlashAlgorithm,
    operation: u32,
) -> Seq<ExchangeSpec> {
    match algorithm.pc_uninit {
        Some(pc) => call_and_wait(
            core,
            algorithm,
            pc,
            Some(operation),
            None,
            None,
            None,
            false,
            "uninit",
        ),
        None => seq![],
    }
}

/// Whether a routine of `algorithm` can be called on `core`: the core has the registers for it,
/// and there is an address after the one that the algorithm is loaded at.
pub open spec fn callable(core: Core, algorithm: FlashAlgorithm) -> bool {
    &&& core.registers.can_call()
    &&& algorithm.load_address < u32::MAX
}

/// Adds the exchange that sends `command` and ends with the error if it fails.
fn push_required(exchanges: &mut Vec<Exchange>, command: Command)
    requires
        all_valid(views(old(exchanges)@)),
    ensures
        views(final(exchanges)@) == views(old(exchanges)@).push(require(command@)),
        all_valid(views(final(exchanges)@)),
{
    exchanges.push(Exchange { command, policy: Policy::Require });
    assert(views(exchanges@) =~= views(old(exchanges)@).push(require(command@)));
}

/// Adds what sets `register` to `value`, if there is a value.
fn push_register(
    exchanges: &mut Vec<Exchange>,
    core: Core,
    register: &RegisterDescription,
    value: Option<u32>,
)
    requires
        all_valid(views(old(exchanges)@)),
    ensures
        views(final(exchanges)@) == views(old(exchanges)@) + set_register(core, *register, value),
        all_valid(views(final(exchanges)@)),
{
    if let Some(value) = value {
        push_required(exchanges, Command::WriteCoreReg { register: register.address, value });
        if core.debug_log {
            push_required(exchanges, Command::ReadCoreReg { register: register.address });
        }
    }
    assert(views(exchanges@) =~= views(old(exchanges)@) + set_register(core, *register, value));
}

/// Adds what waits until a routine has come to its end and reads its result.
fn push_completion(exchanges: &mut Vec<Exchange>, core: Core, policy: Policy)
    requires
        all_valid(views(old(exchanges)@)),
        core.registers.can_return(),
        !(policy is ReadBack),
    ensures
        views(final(exchanges)@) == views(old(exchanges)@) + completion(core, policy@),
        all_valid(views(final(exchanges)@)),
{
    exchanges.push(Exchange { command: Command::WaitForCoreHalted, policy: Policy::Retry });
    let register = core.registers.result_register(0).address;
    exchanges.push(Exchange { command: Command::ReadCoreReg { register }, policy });
    assert(views(exchanges@) =~= views(old(exchanges)@) + completion(core, policy@));
}

/// Setting registers only writes and reads them, and a failure of that ends the procedure.
pub proof fn lemma_set_registers_is_required(
    core: Core,
    settings: Seq<(RegisterDescription, Option<u32>)>,
    i: int,
)
    requires
        0 <= i < set_registers(core, settings).len(),
    ensures
        set_registers(core, settings)[i].policy is Require,
        !(set_registers(core, settings)[i].command is Run),
    decreases settings.len(),
{
    let rest = set_registers(core, settings.drop_last());
    if i < rest.len() {
        lemma_set_registers_is_required(core, settings.drop_last(), i);
    }
}

/// A failure of any command of a call ends the procedure.
pub proof fn lemma_call_is_required(
    core: Core,
    algorithm: FlashAlgorithm,
    pc: u32,
    r0: Option<u32>,
    r1: Option<u32>,
    r2: Option<u32>,
    r3: Option<u32>,
    init: bool,
)
    ensures
        forall|i: int|
            0 <= i < call(core, algorithm, pc, r0, r1, r2, r3, init).len() ==> (#[trigger] call(
                core,
                algorithm,
                pc,
                r0,
                r1,
                r2,
                r3,
                init,
            )[i]).policy is Require,
{
    let all = settings(core, algorithm, pc, r0, r1, r2, r3, init);
    let whole = call(core, algorithm, pc, r0, r1, r2, r3, init);
    assert forall|i: int| 0 <= i < whole.len() implies (#[trigger] whole[i]).policy is Require by {
        if i < whole.len() - 1 {
            lemma_set_registers_is_required(core, all, i);
        }
    }
}

/// A call that is waited for cannot be aborted.
pub proof fn lemma_call_cannot_abort(
    core: Core,
    algorithm: FlashAlgorithm,
    pc: u32,
    r0: Option<u32>,
    r1: Option<u32>,
    r2: Option<u32>,
    r3: Option<u32>,
    init: bool,
    routine: &'static str,
)
    ensures
        cannot_abort(call(core, algorithm, pc, r0, r1, r2, r3, init)),
        cannot_abort(call_and_wait(core, algorithm, pc, r0, r1, r2, r3, init, routine)),
{
    lemma_call_is_required(core, algorithm, pc, r0, r1, r2, r3, init);
    let start = call(core, algorithm, pc, r0, r1, r2, r3, init);
    let all = call_and_wait(core, algorithm, pc, r0, r1, r2, r3, init, routine);
    assert forall|i: int| 0 <= i < all.len() implies !((#[trigger] all[i]).policy is Insist) && !(
    all[i].policy is ReadBack) by {
        if i < start.len() {
            assert(all[i] == start[i]);
        }
    }
}

/// What an active flasher works with.
pub struct ActiveFlasherView {
    pub core: Core,
    pub algorithm: FlashAlgorithm,
    pub region: FlashRegion,
    pub double_buffering_supported: bool,
}

impl ActiveFlasherView {
    /// Whether a routine can be called.
    pub open spec fn callable(self) -> bool {
        callable(self.core, self.algorithm)
    }

    /// Whether a routine can be called and its result be read.
    pub open spec fn callable_and_returns(self) -> bool {
        self.callable() && self.core.registers.can_return()
    }
}

/// A flash algorithm that is loaded and initialised for the operation `O`.
///
/// Its methods give the procedures that do the work.
pub struct ActiveFlasher<'a, O: Operation> {
    core: Core,
    flash_algorithm: &'a FlashAlgorithm,
    region: &'a FlashRegion,
    _double_buffering_supported: bool,
    _operation: core::marker::PhantomData<O>,
}

impl<'a, O: Operation> View for ActiveFlasher<'a, O> {
    type V = ActiveFlasherView;

    closed spec fn view(&self) -> ActiveFlasherView {
        ActiveFlasherView {
            core: self.core,
            algorithm: *self.flash_algorithm,
            region: *self.region,
            double_buffering_supported: self._double_buffering_supported,
        }
    }
}

impl<'a, O: Operation> ActiveFlasher<'a, O> {
    pub(crate) fn new(
        core: Core,
        flash_algorithm: &'a FlashAlgorithm,
        region: &'a FlashRegion,
        double_buffering_supported: bool,
    ) -> (flasher: Self)
        ensures
            flasher@ == (ActiveFlasherView {
                core,
                algorithm: *flash_algorithm,
                region: *region,
                double_buffering_supported,
            }),
    {
        ActiveFlasher {
            core,
            flash_algorithm,
            region,
            _double_buffering_supported: double_buffering_supported,
            _operation: core::marker::PhantomData,
        }
    }

    /// Adds what initialises the algorithm to what is done before.
    pub(crate) fn push_init(
        &self,
        exchanges: Vec<Exchange>,
        address: Option<u32>,
        clock: Option<u32>,
    ) -> (result: Vec<Exchange>)
        requires
            all_valid(views(exchanges@)),
            self@.algorithm.pc_init is Some ==> self@.callable_and_returns(),
        ensures
            views(result@) == views(exchanges@) + init_exchanges(
                self@.core,
                self@.algorithm,
                O::code(),
                address,
                clock,
            ),
            all_valid(views(result@)),
    {
        let clock: u32 = match clock {
            Some(clock) => clock,
            None => 0,
        };
        match self.flash_algorithm.pc_init {
            Some(pc_init) => self.call_function_and_wait(
                exchanges,
                pc_init,
                address,
                Some(clock),
                Some(O::operation()),
                None,
                true,
                "init",
            ),
            None => {
                assert(views(exchanges@) =~= views(exchanges@) + Seq::<ExchangeSpec>::empty());
                exchanges
            },
        }
    }

    /// Initialises the algorithm for the operation, by its `init` routine if it has one.
    pub fn init(&self, address: Option<u32>, clock: Option<u32>) -> (procedure: Procedure)
        requires
            self@.algorithm.pc_init is Some ==> self@.callable_and_returns(),
        ensures
            procedure.begins(
                init_exchanges(self@.core, self@.algorithm, O::code(), address, clock),
            ),
    {
        let exchanges: Vec<Exchange> = Vec::new();
        let result = self.push_init(exchanges, address, clock);
        assert(views(result@) =~= init_exchanges(
            self@.core,
            self@.algorithm,
            O::code(),
            address,
            clock,
        ));
        Procedure::new(result)
    }

    /// The core that the flasher works on.
    pub fn target_core(&self) -> (core: Core)
        ensures
            core == self@.core,
    {
        self.core
    }

    pub fn region(&self) -> (region: &FlashRegion)
        ensures
            *region == self@.region,
    {
        self.region
    }

    pub fn flash_algorithm(&self) -> (algorithm: &FlashAlgorithm)
        ensures
            *algorithm == self@.algorithm,
    {
        self.flash_algorithm
    }

    /// Ends the work on the operation, by the `uninit` routine of the algorithm if it has one.
    pub fn uninit(&self) -> (procedure: Procedure)
        requires
            self@.algorithm.pc_uninit is Some ==> self@.callable_and_returns(),
        ensures
            procedure.begins(uninit_exchanges(self@.core, self@.algorithm, O::code())),
    {
        let exchanges: Vec<Exchange> = Vec::new();
        let result = match self.flash_algorithm.pc_uninit {
            Some(pc_uninit) => self.call_function_and_wait(
                exchanges,
                pc_uninit,
                Some(O::operation()),
                None,
                None,
                None,
                false,
                "uninit",
            ),
            None => exchanges,
        };
        assert(views(result@) =~= uninit_exchanges(self@.core, self@.algorithm, O::code()));
        Procedure::new(result)
    }

    /// Adds the call of the routine `routine`, the wait for its end and the check of its result
    /// to what is done before.
    fn call_function_and_wait(
        &self,
        exchanges: Vec<Exchange>,
        pc: u32,
        r0: Option<u32>,
        r1: Option<u32>,
        r2: Option<u32>,
        r3: Option<u32>,
        init: bool,
        routine: &'static str,
    ) -> (result: Vec<Exchange>)
        requires
            all_valid(views(exchanges@)),
            self@.callable_and_returns(),
        ensures
            views(result@) == views(exchanges@) + call_and_wait(
                self@.core,
                self@.algorithm,
                pc,
                r0,
                r1,
                r2,
                r3,
                init,
                routine,
            ),
            all_valid(views(result@)),
    {
        let mut result = self.call_function(exchanges, pc, r0, r1, r2, r3, init);
        push_completion(&mut result, self.core, Policy::Zero { routine });
        assert(views(result@) =~= views(exchanges@) + call_and_wait(
            self@.core,
            self@.algorithm,
            pc,
            r0,
            r1,
            r2,
            r3,
            init,
            routine,
        ));
        result
    }

    /// Adds the call of the routine at `pc` to what is done before.
    fn call_function(
        &self,
        exchanges: Vec<Exchange>,
        pc: u32,
        r0: Option<u32>,
        r1: Option<u32>,
        r2: Option<u32>,
        r3: Option<u32>,
        init: bool,
    ) -> (result: Vec<Exchange>)
        requires
            all_valid(views(exchanges@)),
            self@.callable(),
        ensures
            views(result@) == views(exchanges@) + call(
                self@.core,
                self@.algorithm,
                pc,
                r0,
                r1,
                r2,
                r3,
                init,
            ),
            all_valid(views(result@)),
    {
        let algorithm = self.flash_algorithm;
        let core = self.core;
        let registers = core.registers;
        let static_base: Option<u32> = if init {
            Some(algorithm.static_base)
        } else {
            None
        };
        let stack: Option<u32> = if init {
            Some(algorithm.begin_stack)
        } else {
            None
        };
        let link: Option<u32> = Some(algorithm.load_address + 1);

        let table: [(&RegisterDescription, Option<u32>); 8] = [
            (registers.program_counter(), Some(pc)),
            (registers.argument_register(0), r0),
            (registers.argument_register(1), r1),
            (registers.argument_register(2), r2),
            (registers.argument_register(3), r3),
            (registers.platform_register(9), static_base),
            (registers.stack_pointer(), stack),
            (registers.return_address(), link),
        ];
        let ghost all = settings(core, *algorithm, pc, r0, r1, r2, r3, init);
        let ghost base = views(exchanges@);
        let mut result = exchanges;
        for i in 0..8usize
            invariant
                all.len() == 8,
                forall|k: int|
                    0 <= k < 8 ==> (*(#[trigger] table@[k]).0, table@[k].1) == all[k],
                views(result@) == base + set_registers(core, all.take(i as int)),
                all_valid(views(result@)),
        {
            proof {
                let next = all.take(i + 1);
                assert(next.drop_last() =~= all.take(i as int));
                let before = set_registers(core, next.drop_last());
                let last = set_register(core, next.last().0, next.last().1);
                assert(base + before + last =~= base + (before + last));
            }
            let (register, value) = table[i];
            push_register(&mut result, core, register, value);
        }
        assert(all.take(8) =~= all);
        push_required(&mut result, Command::Run);
        assert(views(result@) =~= base + call(core, *algorithm, pc, r0, r1, r2, r3, init));
        result
    }

    /// Waits until a routine has come to its end, and gives its result.
    pub fn wait_for_completion(&self) -> (procedure: Procedure)
        requires
            self@.core.registers.can_return(),
        ensures
            procedure.begins(completion(self@.core, Policy::Deliver)),
    {
        let mut exchanges: Vec<Exchange> = Vec::new();
        push_completion(&mut exchanges, self.core, Policy::Deliver);
        assert(views(exchanges@) =~= completion(self@.core, Policy::Deliver));
        Procedure::new(exchanges)
    }

    /// Reads `length` words of the target's memory from `address` on.
    pub fn read_block32(&self, address: u32, length: usize) -> (procedure: Procedure)
        ensures
            procedure.begins(
                seq![
                    Exchange {
                        command: Command::ReadBlock32 { address, length },
                        policy: Policy::Deliver,
                    },
                ],
            ),
    {
        let mut exchanges: Vec<Exchange> = Vec::new();
        exchanges.push(
            Exchange { command: Command::ReadBlock32 { address, length }, policy: Policy::Deliver },
        );
        assert(views(exchanges@) =~= seq![
            Exchange {
                command: Command::ReadBlock32 { address, length },
                policy: Policy::Deliver,
            },
        ]);
        Procedure::new(exchanges)
    }

    /// Reads `length` bytes of the target's memory from `address` on.
    pub fn read_block8(&self, address: u32, length: usize) -> (procedure: Procedure)
        ensures
            procedure.begins(
                seq![
                    Exchange {
                        command: Command::ReadBlock8 { address, length },
                        policy: Policy::Deliver,
                    },
                ],
            ),
    {
        let mut exchanges: Vec<Exchange> = Vec::new();
        exchanges.push(
            Exchange { command: Command::ReadBlock8 { address, length }, policy: Policy::Deliver },
        );
        assert(views(exchanges@) =~= seq![
            Exchange {
                command: Command::ReadBlock8 { address, length },
                policy: Policy::Deliver,
            },
        ]);
        Procedure::new(exchanges)
    }
}

impl<'a> ActiveFlasher<'a, Erase> {
    /// Erases the entire chip. Not every algorithm can do that.
    pub fn erase_all(&self) -> (result: Result<Procedure, FlasherError>)
        requires
            self@.algorithm.pc_erase_all is Some ==> self@.callable_and_returns(),
        ensures
            match self@.algorithm.pc_erase_all {
                Some(pc) => result matches Ok(procedure) && procedure.begins(
                    call_and_wait(
                        self@.core,
                        self@.algorithm,
                        pc,
                        None,
                        None,
                        None,
                        None,
                        false,
                        "erase_all",
                    ),
                ),
                None => result == Err::<Procedure, _>(FlasherError::NotSupported("erase_all")),
            },
    {
        match self.flash_algorithm.pc_erase_all {
            Some(pc_erase_all) => {
                let exchanges: Vec<Exchange> = Vec::new();
                let result = self.call_function_and_wait(
                    exchanges,
                    pc_erase_all,
                    None,
                    None,
                    None,
                    None,
                    false,
                    "erase_all",
                );
                assert(views(result@) =~= call_and_wait(
                    self@.core,
                    self@.algorithm,
                    pc_erase_all,
                    None,
                    None,
                    None,
                    None,
                    false,
                    "erase_all",
                ));
                Ok(Procedure::new(result))
            },
            None => Err(FlasherError::NotSupported("erase_all")),
        }
    }

    /// Erases the sector at `address`.
    pub fn erase_sector(&self, address: u32) -> (procedure: Procedure)
        requires
            self@.callable_and_returns(),
        ensures
            procedure.begins(
                call_and_wait(
                    self@.core,
                    self@.algorithm,
                    self@.algorithm.pc_erase_sector,
                    Some(address),
                    None,
                    None,
                    None,
                    false,
                    "erase_sector",
                ),
            ),
    {
        let exchanges: Vec<Exchange> = Vec::new();
        let result = self.call_function_and_wait(
            exchanges,
            self.flash_algorithm.pc_erase_sector,
            Some(address),
            None,
            None,
            None,
            false,
            "erase_sector",
        );
        assert(views(result@) =~= call_and_wait(
            self@.core,
            self@.algorithm,
            self@.algorithm.pc_erase_sector,
            Some(address),
            None,
            None,
            None,
            false,
            "erase_sector",
        ));
        Procedure::new(result)
    }
}

/// The exchanges that program the page at `address` with `bytes`: they go to where the algorithm
/// expects the data of a page, and the routine is told the address, the length and that place.
pub open spec fn program_page_exchanges(
    core: Core,
    algorithm: FlashAlgorithm,
    address: u32,
    bytes: Seq<u8>,
) -> Seq<ExchangeSpec> {
    seq![require(Command::WriteBlock8 { address: algorithm.begin_data, bytes })] + call_and_wait(
        core,
        algorithm,
        algorithm.pc_program_page,
        Some(address),
        Some(low_word(bytes.len())),
        Some(algorithm.begin_data),
        None,
        false,
        "program_page",
    )
}

/// The exchanges that start to program the page at `address` with what lies at `buffer`.
pub open spec fn start_page_exchanges(
    core: Core,
    algorithm: FlashAlgorithm,
    address: u32,
    buffer: u32,
) -> Seq<ExchangeSpec> {
    call(
        core,
        algorithm,
        algorithm.pc_program_page,
        Some(address),
        Some(algorithm.flash_properties.page_size),
        Some(buffer),
        None,
        false,
    )
}

/// The exchanges that load `bytes` into the page buffer at `buffer`.
pub open spec fn load_buffer_exchanges(buffer: u32, bytes: Seq<u8>) -> Seq<ExchangeSpec> {
    seq![require(Command::WriteBlock8 { address: buffer, bytes })]
}

impl<'a> ActiveFlasher<'a, Program> {
    /// Programs the page at `address` with `bytes`.
    pub fn program_page(&self, address: u32, bytes: &[u8]) -> (procedure: Procedure)
        requires
            self@.callable_and_returns(),
        ensures
            procedure.begins(
                program_page_exchanges(self@.core, self@.algorithm, address, bytes@),
            ),
    {
        let algorithm = self.flash_algorithm;
        let length: u32 = to_low_word(bytes.len());
        let mut exchanges: Vec<Exchange> = Vec::new();
        // Transfer the bytes to RAM.
        push_required(
            &mut exchanges,
            Command::WriteBlock8 {
                address: algorithm.begin_data,
                bytes: vstd::slice::slice_to_vec(bytes),
            },
        );
        assert(views(exchanges@) =~= seq![
            require(Command::WriteBlock8 { address: algorithm.begin_data, bytes: bytes@ }),
        ]);
        let result = self.call_function_and_wait(
            exchanges,
            algorithm.pc_program_page,
            Some(address),
            Some(length),
            Some(algorithm.begin_data),
            None,
            false,
            "program_page",
        );
        Procedure::new(result)
    }

    /// Starts to program the page at `address` with the contents of the page buffer
    /// `buffer_number`, and does not wait for the end.
    pub fn start_program_page_with_buffer(&self, address: u32, buffer_number: usize) -> (result:
        Result<Procedure, FlasherError>)
        requires
            buffer_number < self@.algorithm.page_buffers@.len() ==> self@.callable(),
        ensures
            if buffer_number < self@.algorithm.page_buffers@.len() {
                result matches Ok(procedure) && procedure.begins(
                    start_page_exchanges(
                        self@.core,
                        self@.algorithm,
                        address,
                        self@.algorithm.page_buffers@[buffer_number as int],
                    ),
                )
            } else {
                result matches Err(FlasherError::InvalidBufferNumber { n, max }) && n
                    == buffer_number && max == self@.algorithm.page_buffers@.len()
            },
    {
        let algorithm = self.flash_algorithm;
        // Check the buffer number.
        if buffer_number >= algorithm.page_buffers.len() {
            return Err(
                FlasherError::InvalidBufferNumber {
                    n: buffer_number,
                    max: algorithm.page_buffers.len(),
                },
            );
        }
        let exchanges: Vec<Exchange> = Vec::new();
        let result = self.call_function(
            exchanges,
            algorithm.pc_program_page,
            Some(address),
            Some(self.flash_algorithm().flash_properties.page_size),
            Some(algorithm.page_buffers[buffer_number]),
            None,
            false,
        );
        assert(views(result@) =~= start_page_exchanges(
            self@.core,
            self@.algorithm,
            address,
            self@.algorithm.page_buffers@[buffer_number as int],
        ));
        Ok(Procedure::new(result))
    }

    /// Loads `bytes` into the page buffer `buffer_number`.
    pub fn load_page_buffer(&self, _address: u32, bytes: &[u8], buffer_number: usize) -> (result:
        Result<Procedure, FlasherError>)
        ensures
            if buffer_number < self@.algorithm.page_buffers@.len() {
                result matches Ok(procedure) && procedure.begins(
                    load_buffer_exchanges(
                        self@.algorithm.page_buffers@[buffer_number as int],
                        bytes@,
                    ),
                )
            } else {
                result matches Err(FlasherError::InvalidBufferNumber { n, max }) && n
                    == buffer_number && max == self@.algorithm.page_buffers@.len()
            },
    {
        let algorithm = self.flash_algorithm;
        // Check the buffer number.
        if buffer_number >= algorithm.page_buffers.len() {
            return Err(
                FlasherError::InvalidBufferNumber {
                    n: buffer_number,
                    max: algorithm.page_buffers.len(),
                },
            );
        }
        let address: u32 = algorithm.page_buffers[buffer_number];
        let mut exchanges: Vec<Exchange> = Vec::new();
        // Transfer the buffer bytes to RAM.
        push_required(
            &mut exchanges,
            Command::WriteBlock8 { address, bytes: vstd::slice::slice_to_vec(bytes) },
        );
        assert(views(exchanges@) =~= load_buffer_exchanges(address, bytes@));
        Ok(Procedure::new(exchanges))
    }
}

} // verus!

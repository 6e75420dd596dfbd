//! The flasher: loads a flash algorithm into the target and initialises it.

use crate::active::{
    callable, init_exchanges, lemma_call_cannot_abort, require, uninit_exchanges, ActiveFlasher,
    ActiveFlasherView,
};
use crate::bytes::{low_word, to_low_word};
use crate::config::{AddressRange, FlashAlgorithm, FlashRegion, SectorInfo};
use crate::disassembly::{is_listing, list_instructions, texts, DisassemblyError};
use crate::error::FlasherError;
use crate::operation::{Erase, Operation, Program, Verify};
use crate::procedure::{
    cannot_abort, lemma_not_aborted, views, Abort, Exchange, ExchangeSpec, Outcome, Policy,
    Procedure, Status,
};
use crate::target::{answers, Command, Core, Reply, Session};
use vstd::prelude::*;

verus! {

/// The exchanges that load `algorithm` into the RAM of the target, and see that it has arrived
/// there.
pub open spec fn load_exchanges(core: Core, algorithm: FlashAlgorithm) -> Seq<ExchangeSpec> {
    let address = algorithm.load_address;
    let words = algorithm.instructions@;
    seq![
        require(Command::AttachToCore { index: 0 }),
        Exchange {
            command: Command::Halt,
            policy: if core.debug_log {
                Policy::Insist
            } else {
                Policy::Tolerate
            },
        },
        require(Command::WaitForCoreHalted),
        require(Command::ResetAndHalt),
        require(Command::WriteBlock32 { address, words }),
        Exchange {
            command: Command::ReadBlock32 { address, length: algorithm.instructions.len() },
            policy: Policy::ReadBack { words },
        },
    ]
}

/// The exchanges that load `algorithm` and initialise it for the operation with the code
/// `operation`, from `address` on; without an address, from the start of `region` on.
pub open spec fn setup_exchanges(
    core: Core,
    algorithm: FlashAlgorithm,
    region: FlashRegion,
    operation: u32,
    address: Option<u32>,
    clock: Option<u32>,
) -> Seq<ExchangeSpec> {
    let address = match address {
        Some(address) => address,
        None => region.range.start,
    };
    load_exchanges(core, algorithm) + init_exchanges(
        core,
        algorithm,
        operation,
        Some(address),
        clock,
    )
}

/// What a flasher works with.
pub struct FlasherView {
    pub session: Session,
    pub algorithm: FlashAlgorithm,
    pub region: FlashRegion,
    pub double_buffering_supported: bool,
}

impl FlasherView {
    /// Whether the `init` routine can be called, if there is one.
    pub open spec fn can_init(self) -> bool {
        self.algorithm.pc_init is Some ==> callable(self.session.core, self.algorithm)
            && self.session.core.registers.can_return()
    }

    /// What the flasher works with once it is active.
    pub open spec fn active(self) -> ActiveFlasherView {
        ActiveFlasherView {
            core: self.session.core,
            algorithm: self.algorithm,
            region: self.region,
            double_buffering_supported: self.double_buffering_supported,
        }
    }
}

/// Programs a region of flash by a flash algorithm.
pub struct Flasher<'a> {
    session: Session,
    flash_algorithm: &'a FlashAlgorithm,
    region: &'a FlashRegion,
    double_buffering_supported: bool,
}

impl<'a> View for Flasher<'a> {
    type V = FlasherView;

    closed spec fn view(&self) -> FlasherView {
        FlasherView {
            session: self.session,
            algorithm: *self.flash_algorithm,
            region: *self.region,
            double_buffering_supported: self.double_buffering_supported,
        }
    }
}

/// A block of data that is to be programmed, after it was found to lie in the region of the
/// flasher. Of a length that does not fit into a word only the low half was looked at.
pub struct BlockProgram<'a, 'd> {
    pub flasher: Flasher<'a>,
    pub address: u32,
    pub data: &'d [u8],
    pub do_chip_erase: bool,
    /// Whether what else lies in the sectors that are erased is to be kept.
    pub restore_unwritten_bytes: bool,
}

impl<'a> Flasher<'a> {
    pub fn new(
        session: Session,
        flash_algorithm: &'a FlashAlgorithm,
        region: &'a FlashRegion,
    ) -> (flasher: Self)
        ensures
            flasher@ == (FlasherView {
                session,
                algorithm: *flash_algorithm,
                region: *region,
                double_buffering_supported: false,
            }),
    {
        Flasher { session, flash_algorithm, region, double_buffering_supported: false }
    }

    pub fn region(&self) -> (region: &FlashRegion)
        ensures
            *region == self@.region,
    {
        self.region
    }

    /// The core that the flasher works on.
    pub fn target_core(&self) -> (core: Core)
        ensures
            core == self@.session.core,
    {
        self.session.core
    }

    /// Returns the necessary information about the sector which `address` resides in
    /// if the address is inside the flash region and sectors are described for it.
    pub fn sector_info(&self, address: u32) -> (info: Option<SectorInfo>)
        requires
            self@.algorithm.flash_properties.sized_at(address),
        ensures
            self@.algorithm.is_sector_info(address, info),
            info matches Some(info) ==> info.base_address <= address < info.base_address
                + info.size,
    {
        self.flash_algorithm.sector_info(address)
    }

    pub fn flash_algorithm(&self) -> (algorithm: &FlashAlgorithm)
        ensures
            *algorithm == self@.algorithm,
    {
        self.flash_algorithm
    }

    pub fn double_buffering_supported(&self) -> (supported: bool)
        ensures
            supported == self@.double_buffering_supported,
    {
        self.double_buffering_supported
    }

    /// Loads the algorithm into the target and initialises it for the operation `O`, from
    /// `address` on; without an address, from the start of the region on.
    ///
    /// The listing of the algorithm is made first. If and only if the disassembler fails, there
    /// is nothing to carry out, and its error is returned.
    pub fn init<'b, O: Operation>(
        &'b mut self,
        address: Option<u32>,
        clock: Option<u32>,
    ) -> (result: Result<Initialization<'b, O>, DisassemblyError>)
        requires
            old(self)@.can_init(),
        ensures
            final(self)@ == old(self)@,
            match result {
                Ok(initialization) => {
                    &&& initialization.begins(old(self)@, address, clock)
                    &&& initialization.lists(old(self)@.algorithm)
                },
                Err(error) => is_listing(old(self)@.algorithm, Err(error)),
            },
    {
        let listing = list_instructions(self.flash_algorithm);
        self.init_with_listing(listing, address, clock)
    }

    /// What [`Flasher::init`] does once the disassembler has given `listing`.
    pub fn init_with_listing<'b, O: Operation>(
        &'b mut self,
        listing: Result<Vec<String>, DisassemblyError>,
        address: Option<u32>,
        clock: Option<u32>,
    ) -> (result: Result<Initialization<'b, O>, DisassemblyError>)
        requires
            old(self)@.can_init(),
        ensures
            final(self)@ == old(self)@,
            match listing {
                Ok(lines) => {
                    &&& result is Ok
                    &&& result->Ok_0.begins(old(self)@, address, clock)
                    &&& result->Ok_0.listed() == texts(lines@)
                },
                Err(error) => result == Err::<Initialization<'b, O>, _>(error),
            },
    {
        let listing = match listing {
            Ok(listing) => listing,
            Err(error) => {
                return Err(error);
            },
        };
        let algorithm = self.flash_algorithm;
        let core = self.session.core;
        let address: u32 = match address {
            Some(address) => address,
            None => self.region.flash_info().rom_start,
        };
        let mut exchanges: Vec<Exchange> = Vec::new();
        // Attach to the core, halt it and reset it.
        exchanges.push(
            Exchange { command: Command::AttachToCore { index: 0 }, policy: Policy::Require },
        );
        let halt = if core.debug_log {
            Policy::Insist
        } else {
            Policy::Tolerate
        };
        exchanges.push(Exchange { command: Command::Halt, policy: halt });
        exchanges.push(Exchange { command: Command::WaitForCoreHalted, policy: Policy::Require });
        exchanges.push(Exchange { command: Command::ResetAndHalt, policy: Policy::Require });
        // Load the flash algorithm code into target RAM, and compare.
        exchanges.push(
            Exchange {
                command: Command::WriteBlock32 {
                    address: algorithm.load_address,
                    words: vstd::slice::slice_to_vec(algorithm.instructions.as_slice()),
                },
                policy: Policy::Require,
            },
        );
        exchanges.push(
            Exchange {
                command: Command::ReadBlock32 {
                    address: algorithm.load_address,
                    length: algorithm.instructions.len(),
                },
                policy: Policy::ReadBack {
                    words: vstd::slice::slice_to_vec(algorithm.instructions.as_slice()),
                },
            },
        );
        assert(views(exchanges@) =~= load_exchanges(core, *algorithm));
        let active: ActiveFlasher<'b, O> = ActiveFlasher::new(
            core,
            self.flash_algorithm,
            self.region,
            self.double_buffering_supported,
        );
        let result = active.push_init(exchanges, Some(address), clock);
        Ok(Initialization { listing, procedure: Procedure::new(result), active })
    }

    /// Does the work `f` with a flasher that is initialised for erasing, and ends it. This
    /// begins with the initialisation, as [`Flasher::init`] does it.
    pub fn run_erase<
        'b,
        T,
        E: From<FlasherError>,
        F: FnOnce(&ActiveFlasher<'b, Erase>) -> Result<T, E>,
    >(&'b mut self, f: F) -> (result: Result<Work<'b, Erase, F>, DisassemblyError>)
        requires
            old(self)@.can_init(),
        ensures
            final(self)@ == old(self)@,
            match result {
                Ok(work) => {
                    &&& work.begins(old(self)@, f)
                    &&& work.initialization().lists(old(self)@.algorithm)
                },
                Err(error) => is_listing(old(self)@.algorithm, Err(error)),
            },
    {
        match self.init(None, None) {
            Ok(initialization) => Ok(Work { initialization, f }),
            Err(error) => Err(error),
        }
    }

    /// Does the work `f` with a flasher that is initialised for programming, and ends it. This
    /// begins with the initialisation, as [`Flasher::init`] does it.
    pub fn run_program<
        'b,
        T,
        E: From<FlasherError>,
        F: FnOnce(&ActiveFlasher<'b, Program>) -> Result<T, E>,
    >(&'b mut self, f: F) -> (result: Result<Work<'b, Program, F>, DisassemblyError>)
        requires
            old(self)@.can_init(),
        ensures
            final(self)@ == old(self)@,
            match result {
                Ok(work) => {
                    &&& work.begins(old(self)@, f)
                    &&& work.initialization().lists(old(self)@.algorithm)
                },
                Err(error) => is_listing(old(self)@.algorithm, Err(error)),
            },
    {
        match self.init(None, None) {
            Ok(initialization) => Ok(Work { initialization, f }),
            Err(error) => Err(error),
        }
    }

    /// Does the work `f` with a flasher that is initialised for verifying, and ends it. This
    /// begins with the initialisation, as [`Flasher::init`] does it.
    pub fn run_verify<
        'b,
        T,
        E: From<FlasherError>,
        F: FnOnce(&ActiveFlasher<'b, Verify>) -> Result<T, E>,
    >(&'b mut self, f: F) -> (result: Result<Work<'b, Verify, F>, DisassemblyError>)
        requires
            old(self)@.can_init(),
        ensures
            final(self)@ == old(self)@,
            match result {
                Ok(work) => {
                    &&& work.begins(old(self)@, f)
                    &&& work.initialization().lists(old(self)@.algorithm)
                },
                Err(error) => is_listing(old(self)@.algorithm, Err(error)),
            },
    {
        match self.init(None, None) {
            Ok(initialization) => Ok(Work { initialization, f }),
            Err(error) => Err(error),
        }
    }

    /// What is to be done to program `data` at `address`. The data must lie in the region of the
    /// flasher, where its length counts modulo the number of addresses. Whether a fast verify is
    /// asked for makes no difference.
    pub fn flash_block<'d>(
        self,
        address: u32,
        data: &'d [u8],
        do_chip_erase: bool,
        _fast_verify: bool,
    ) -> (result: Result<BlockProgram<'a, 'd>, FlasherError>)
        requires
            address + low_word(data@.len()) <= u32::MAX,
        ensures
            if self@.region.range.has_range(
                (AddressRange { start: address, end: (address + low_word(data@.len())) as u32 }),
            ) {
                result matches Ok(block) && {
                    &&& block.flasher == self
                    &&& block.address == address
                    &&& block.data == data
                    &&& block.do_chip_erase == do_chip_erase
                    &&& block.restore_unwritten_bytes
                }
            } else {
                result == Err::<BlockProgram<'a, 'd>, _>(
                    FlasherError::AddressNotInRegion { address, region: self@.region },
                )
            },
    {
        let block = AddressRange { start: address, end: address + to_low_word(data.len()) };
        if !self.region.range.contains_range(&block) {
            return Err(FlasherError::AddressNotInRegion { address, region: *self.region });
        }
        Ok(
            BlockProgram {
                flasher: self,
                address,
                data,
                do_chip_erase,
                restore_unwritten_bytes: true,
            },
        )
    }
}

/// How an initialisation ends.
pub enum Setup<'a, O: Operation> {
    Ready(ActiveFlasher<'a, O>),
    Failed(FlasherError),
    Aborted(Abort),
}

/// A flash algorithm that is being loaded and initialised for the operation `O`.
pub struct Initialization<'a, O: Operation> {
    listing: Vec<String>,
    procedure: Procedure,
    active: ActiveFlasher<'a, O>,
}

impl<'a, O: Operation> Initialization<'a, O> {
    /// The listing of the algorithm.
    pub closed spec fn listed(&self) -> Seq<Seq<char>> {
        texts(self.listing@)
    }

    /// Whether the listing is one that the disassembler makes of `algorithm`.
    pub open spec fn lists(&self, algorithm: FlashAlgorithm) -> bool {
        exists|lines: Vec<String>| #[trigger]
            is_listing(algorithm, Ok(lines)) && self.listed() == texts(lines@)
    }

    /// What is being carried out.
    pub closed spec fn procedure(&self) -> Procedure {
        self.procedure
    }

    /// What the flasher works with once it is ready.
    pub closed spec fn flasher(&self) -> ActiveFlasherView {
        self.active@
    }

    pub open spec fn wf(&self) -> bool {
        self.procedure().wf()
    }

    /// Whether this is the initialisation of `flasher`, before the first command.
    pub open spec fn begins(
        &self,
        flasher: FlasherView,
        address: Option<u32>,
        clock: Option<u32>,
    ) -> bool {
        &&& self.flasher() == flasher.active()
        &&& self.procedure().begins(
            setup_exchanges(
                flasher.session.core,
                flasher.algorithm,
                flasher.region,
                O::code(),
                address,
                clock,
            ),
        )
    }

    /// The instructions of the algorithm, one line each.
    pub fn listing(&self) -> (lines: &Vec<String>)
        ensures
            texts(lines@) == self.listed(),
    {
        &self.listing
    }

    /// The command to send next; `None` once the initialisation is finished.
    pub fn command(&self) -> (command: Option<&Command>)
        requires
            self.wf(),
        ensures
            match self.procedure().status() {
                Status::Awaiting(index) => command matches Some(command) && command@
                    == self.procedure().exchanges()[index].command,
                Status::Finished(_) => command is None,
            },
    {
        self.procedure.command()
    }

    /// Takes the reply to the command that was sent last.
    pub fn resume(&mut self, reply: Reply)
        requires
            old(self).wf(),
            old(self).procedure().status() matches Status::Awaiting(index) && answers(
                reply@,
                old(self).procedure().exchanges()[index].command,
            ),
        ensures
            final(self).wf(),
            final(self).listed() == old(self).listed(),
            final(self).flasher() == old(self).flasher(),
            final(self).procedure().exchanges() == old(self).procedure().exchanges(),
            final(self).procedure().replies() == old(self).procedure().replies().push(reply@),
    {
        self.procedure.resume(reply);
    }

    /// The flasher, if it could be loaded and initialised, or what went wrong; `None` as long as
    /// the initialisation is not finished.
    pub fn finish(self) -> (setup: Option<Setup<'a, O>>)
        requires
            self.wf(),
        ensures
            match self.procedure().status() {
                Status::Awaiting(_) => setup is None,
                Status::Finished(Outcome::Completed(_)) => setup matches Some(
                    Setup::Ready(flasher),
                ) && flasher@ == self.flasher(),
                Status::Finished(Outcome::Failed(error)) => setup == Some(
                    Setup::<'a, O>::Failed(error),
                ),
                Status::Finished(Outcome::Aborted(abort)) => setup matches Some(
                    Setup::Aborted(reason),
                ) && reason@ == abort,
            },
    {
        match self.procedure.outcome() {
            None => None,
            Some(Outcome::Completed(_)) => Some(Setup::Ready(self.active)),
            Some(Outcome::Failed(error)) => Some(Setup::Failed(error)),
            Some(Outcome::Aborted(abort)) => Some(Setup::Aborted(abort)),
        }
    }
}

/// Work that waits for the flasher to be initialised.
pub struct Work<'a, O: Operation, F> {
    initialization: Initialization<'a, O>,
    f: F,
}

impl<'a, O: Operation, F> Work<'a, O, F> {
    /// The initialisation that the work waits for.
    pub closed spec fn initialization(&self) -> Initialization<'a, O> {
        self.initialization
    }

    /// What is to be done.
    pub closed spec fn work(&self) -> F {
        self.f
    }

    pub open spec fn wf(&self) -> bool {
        self.initialization().wf()
    }

    /// Whether this is the work `f` with `flasher`, before the first command.
    pub open spec fn begins(&self, flasher: FlasherView, f: F) -> bool {
        &&& self.initialization().begins(flasher, None, None)
        &&& self.work() == f
    }

    /// The instructions of the algorithm, one line each.
    pub fn listing(&self) -> (lines: &Vec<String>)
        ensures
            texts(lines@) == self.initialization().listed(),
    {
        self.initialization.listing()
    }

    /// The command to send next; `None` once the initialisation is finished.
    pub fn command(&self) -> (command: Option<&Command>)
        requires
            self.wf(),
        ensures
            match self.initialization().procedure().status() {
                Status::Awaiting(index) => command matches Some(command) && command@
                    == self.initialization().procedure().exchanges()[index].command,
                Status::Finished(_) => command is None,
            },
    {
        self.initialization.command()
    }

    /// Takes the reply to the command that was sent last.
    pub fn resume(&mut self, reply: Reply)
        requires
            old(self).wf(),
            old(self).initialization().procedure().status() matches Status::Awaiting(index)
                && answers(
                reply@,
                old(self).initialization().procedure().exchanges()[index].command,
            ),
        ensures
            final(self).wf(),
            final(self).work() == old(self).work(),
            final(self).initialization().listed() == old(self).initialization().listed(),
            final(self).initialization().flasher() == old(self).initialization().flasher(),
            final(self).initialization().procedure().exchanges()
                == old(self).initialization().procedure().exchanges(),
            final(self).initialization().procedure().replies()
                == old(self).initialization().procedure().replies().push(reply@),
    {
        self.initialization.resume(reply);
    }

    /// Does the work if the flasher is ready, and then ends it; `None` as long as the
    /// initialisation is not finished. If the initialisation failed, the work is not done; if the
    /// work fails, it is not ended.
    pub fn proceed<T, E: From<FlasherError>>(self) -> (run: Option<Run<T, E>>) where
        F: FnOnce(&ActiveFlasher<'a, O>) -> Result<T, E>,

        requires
            self.wf(),
            self.initialization().procedure().status() matches Status::Finished(
                Outcome::Completed(_),
            ) ==> forall|flasher: &ActiveFlasher<'a, O>|
                flasher@ == self.initialization().flasher() ==> #[trigger] self.work().requires(
                    (flasher,),
                ),
            self.initialization().procedure().status() matches Status::Finished(
                Outcome::Completed(_),
            ) ==> (self.initialization().flasher().algorithm.pc_uninit is Some
                ==> self.initialization().flasher().callable_and_returns()),
        ensures
            match self.initialization().procedure().status() {
                Status::Awaiting(_) => run is None,
                Status::Finished(Outcome::Completed(_)) => {
                    exists|flasher: &ActiveFlasher<'a, O>, result: Result<T, E>|
                        {
                            &&& flasher@ == self.initialization().flasher()
                            &&& #[trigger] self.work().ensures((flasher,), result)
                            &&& match result {
                                Ok(value) => run matches Some(Run::Teardown(teardown)) && {
                                    &&& teardown.value() == value
                                    &&& teardown.wf()
                                    &&& teardown.procedure().begins(
                                        uninit_exchanges(
                                            self.initialization().flasher().core,
                                            self.initialization().flasher().algorithm,
                                            O::code(),
                                        ),
                                    )
                                },
                                Err(error) => run == Some(Run::<T, E>::Returned(Err(error))),
                            }
                        }
                },
                Status::Finished(Outcome::Failed(error)) => run matches Some(
                    Run::Returned(Err(converted)),
                ) && call_ensures(E::from, (error,), converted),
                Status::Finished(Outcome::Aborted(abort)) => run matches Some(
                    Run::Aborted(reason),
                ) && reason@ == abort,
            },
    {
        let Work { initialization, f } = self;
        match initialization.finish() {
            None => None,
            Some(Setup::Failed(error)) => Some(Run::Returned(Err(E::from(error)))),
            Some(Setup::Aborted(abort)) => Some(Run::Aborted(abort)),
            Some(Setup::Ready(flasher)) => {
                assert(self.work().requires((&flasher,)));
                match f(&flasher) {
                    Err(error) => Some(Run::Returned(Err(error))),
                    Ok(value) => {
                        let procedure = flasher.uninit();
                        proof {
                            lemma_call_cannot_abort(
                                flasher@.core,
                                flasher@.algorithm,
                                flasher@.algorithm.pc_uninit->0,
                                Some(O::code()),
                                None,
                                None,
                                None,
                                false,
                                "uninit",
                            );
                        }
                        Some(Run::Teardown(Teardown { procedure, value }))
                    },
                }
            },
        }
    }
}

/// How far a run has come after its work was done.
pub enum Run<T, E> {
    /// It is over, with this result.
    Returned(Result<T, E>),
    /// The initialisation was aborted.
    Aborted(Abort),
    /// The work succeeded and is being ended.
    Teardown(Teardown<T>),
}

/// The end of a run whose work succeeded with a value.
pub struct Teardown<T> {
    procedure: Procedure,
    value: T,
}

impl<T> Teardown<T> {
    /// What is being carried out.
    pub closed spec fn procedure(&self) -> Procedure {
        self.procedure
    }

    /// What the work succeeded with.
    pub closed spec fn value(&self) -> T {
        self.value
    }

    pub open spec fn wf(&self) -> bool {
        self.procedure().wf() && cannot_abort(self.procedure().exchanges())
    }

    /// The command to send next; `None` once the run is finished.
    pub fn command(&self) -> (command: Option<&Command>)
        requires
            self.wf(),
        ensures
            match self.procedure().status() {
                Status::Awaiting(index) => command matches Some(command) && command@
                    == self.procedure().exchanges()[index].command,
                Status::Finished(_) => command is None,
            },
    {
        self.procedure.command()
    }

    /// Takes the reply to the command that was sent last.
    pub fn resume(&mut self, reply: Reply)
        requires
            old(self).wf(),
            old(self).procedure().status() matches Status::Awaiting(index) && answers(
                reply@,
                old(self).procedure().exchanges()[index].command,
            ),
        ensures
            final(self).wf(),
            final(self).value() == old(self).value(),
            final(self).procedure().exchanges() == old(self).procedure().exchanges(),
            final(self).procedure().replies() == old(self).procedure().replies().push(reply@),
    {
        self.procedure.resume(reply);
    }

    /// The result of the run: the value of the work, or the error that its end failed with;
    /// `None` as long as the run is not finished.
    pub fn result<E: From<FlasherError>>(self) -> (result: Option<Result<T, E>>)
        requires
            self.wf(),
        ensures
            match self.procedure().status() {
                Status::Awaiting(_) => result is None,
                Status::Finished(Outcome::Completed(_)) => result == Some(
                    Ok::<T, E>(self.value()),
                ),
                Status::Finished(Outcome::Failed(error)) => result matches Some(Err(converted))
                    && call_ensures(E::from, (error,), converted),
                Status::Finished(Outcome::Aborted(_)) => false,
            },
    {
        proof {
            lemma_not_aborted(self.procedure.exchanges(), self.procedure.replies());
        }
        match self.procedure.outcome() {
            None => None,
            Some(Outcome::Completed(_)) => Some(Ok(self.value)),
            Some(Outcome::Failed(error)) => Some(Err(E::from(error))),
            Some(Outcome::Aborted(_)) => None,
        }
    }
}

} // verus!

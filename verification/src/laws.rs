//! What holds of the operations as a whole.

use crate::active::{
    call, call_and_wait, completion, init_exchanges, lemma_call_cannot_abort,
    lemma_call_is_required, lemma_set_registers_is_required, load_buffer_exchanges,
    program_page_exchanges, require, set_register, set_registers, settings, start_page_exchanges,
    uninit_exchanges,
};
use crate::bytes::{byte_of, little_endian, low_word};
use crate::config::{AddressRange, FlashAlgorithm, FlashRegion, SectorInfo};
use crate::error::{FlasherError, TargetError};
use crate::flasher::{load_exchanges, setup_exchanges, BlockProgram, Flasher};
use crate::procedure::{
    arrive, cannot_abort, first_difference, fitting, lemma_awaiting_in_bounds, status_after,
    word_address, Abort, Exchange, ExchangeSpec, Outcome, Output, Policy, Status,
};
use crate::target::{
    answers, Command, Core, CoreRegisterAddress, RegisterDescription, Reply, ReplySpec,
};
use vstd::prelude::*;

verus! {

/// Once a procedure is finished it stays so, with the same outcome: nothing is sent any more.
pub proof fn law_the_end_is_final(
    exchanges: Seq<ExchangeSpec>,
    replies: Seq<ReplySpec>,
    more: Seq<ReplySpec>,
)
    requires
        status_after(exchanges, replies) is Finished,
    ensures
        status_after(exchanges, replies + more) == status_after(exchanges, replies),
    decreases more.len(),
{
    if more.len() == 0 {
        assert(replies + more =~= replies);
    } else {
        law_the_end_is_final(exchanges, replies, more.drop_last());
        assert((replies + more).drop_last() =~= replies + more.drop_last());
    }
}

/// A failure of a command ends the procedure at once, with the error that the command failed
/// with, unless the command is one that is tried again, or whose failure is passed over or
/// aborts the procedure.
pub proof fn law_a_failure_ends_the_procedure(
    exchanges: Seq<ExchangeSpec>,
    replies: Seq<ReplySpec>,
    index: int,
    error: TargetError,
)
    requires
        status_after(exchanges, replies) == Status::Awaiting(index),
        !(exchanges[index].policy is Retry),
        !(exchanges[index].policy is Tolerate),
        !(exchanges[index].policy is Insist),
    ensures
        status_after(exchanges, replies.push(Reply::Failed(error))) == Status::Finished(
            Outcome::Failed(exchanges[index].command.failure_spec(error)),
        ),
{
    assert(replies.push(Reply::Failed(error)).drop_last() =~= replies);
}

/// A command that is tried again is so for ever: no number of failures makes the procedure do
/// anything else.
pub proof fn law_retrying_never_gives_up(
    exchanges: Seq<ExchangeSpec>,
    replies: Seq<ReplySpec>,
    index: int,
    failures: Seq<ReplySpec>,
)
    requires
        status_after(exchanges, replies) == Status::Awaiting(index),
        exchanges[index].policy is Retry,
        forall|i: int| 0 <= i < failures.len() ==> (#[trigger] failures[i]) is Failed,
    ensures
        status_after(exchanges, replies + failures) == Status::Awaiting(index),
    decreases failures.len(),
{
    if failures.len() == 0 {
        assert(replies + failures =~= replies);
    } else {
        law_retrying_never_gives_up(exchanges, replies, index, failures.drop_last());
        assert((replies + failures).drop_last() =~= replies + failures.drop_last());
        assert((replies + failures).last() == failures.last());
        assert(failures[failures.len() - 1] is Failed);
    }
}

/// The replies make the procedure go forward by one exchange each, from the exchange `from` on.
pub open spec fn accepted(
    exchanges: Seq<ExchangeSpec>,
    from: int,
    replies: Seq<ReplySpec>,
) -> bool {
    forall|i: int|
        0 <= i < replies.len() ==> (#[trigger] exchanges[from + i].reaction(replies[i]))
            is Advance
}

/// As long as the replies are acceptable, the procedure sends its commands one after the other,
/// and once all are accepted it is completed.
pub proof fn law_accepted_replies_lead_on(
    exchanges: Seq<ExchangeSpec>,
    replies: Seq<ReplySpec>,
    index: int,
    more: Seq<ReplySpec>,
)
    requires
        status_after(exchanges, replies) == arrive(exchanges, index),
        0 <= index,
        index + more.len() <= exchanges.len(),
        accepted(exchanges, index, more),
    ensures
        status_after(exchanges, replies + more) == arrive(exchanges, index + more.len()),
    decreases more.len(),
{
    if more.len() == 0 {
        assert(replies + more =~= replies);
    } else {
        let rest = more.drop_last();
        assert forall|i: int| 0 <= i < rest.len() implies (#[trigger] exchanges[index + i].reaction(
            rest[i],
        )) is Advance by {
            assert(exchanges[index + i].reaction(more[i]) is Advance);
        }
        law_accepted_replies_lead_on(exchanges, replies, index, rest);
        assert((replies + more).drop_last() =~= replies + rest);
        let i = more.len() - 1;
        assert((replies + more).last() == more[i]);
        assert(exchanges[index + i].reaction(more[i]) is Advance);
    }
}

/// The reply with the index `at` was one to the exchange with the index `index`, and was accepted.
pub open spec fn accepted_at(
    exchanges: Seq<ExchangeSpec>,
    replies: Seq<ReplySpec>,
    index: int,
    at: int,
) -> bool {
    &&& 0 <= at < replies.len()
    &&& status_after(exchanges, replies.take(at)) == Status::Awaiting(index)
    &&& exchanges[index].reaction(replies[at]) is Advance
}

/// An accepted reply stays so as more come in.
proof fn lemma_accepted_at_extends(
    exchanges: Seq<ExchangeSpec>,
    replies: Seq<ReplySpec>,
    index: int,
    at: int,
)
    requires
        replies.len() > 0,
        accepted_at(exchanges, replies.drop_last(), index, at),
    ensures
        accepted_at(exchanges, replies, index, at),
{
    assert(replies.drop_last().take(at) =~= replies.take(at));
}

/// Nothing is skipped: before a procedure sends a command, each command before it was answered
/// acceptably.
pub proof fn law_nothing_is_skipped(
    exchanges: Seq<ExchangeSpec>,
    replies: Seq<ReplySpec>,
    index: int,
    earlier: int,
)
    requires
        status_after(exchanges, replies) == Status::Awaiting(index),
        0 <= earlier < index,
    ensures
        exists|at: int| accepted_at(exchanges, replies, earlier, at),
    decreases replies.len(),
{
    let before = replies.drop_last();
    lemma_awaiting_in_bounds(exchanges, before);
    let last = replies.len() - 1;
    assert(replies.take(last) =~= before);
    let previous = status_after(exchanges, before)->Awaiting_0;
    if previous == earlier && index == earlier + 1 {
        assert(accepted_at(exchanges, replies, earlier, last));
    } else {
        law_nothing_is_skipped(exchanges, before, previous, earlier);
        let at = choose|at: int| accepted_at(exchanges, before, earlier, at);
        lemma_accepted_at_extends(exchanges, replies, earlier, at);
    }
}

/// A procedure that is completed, and is not one that gives what it read, was answered
/// acceptably to each of its commands.
pub proof fn law_completion_means_all_was_accepted(
    exchanges: Seq<ExchangeSpec>,
    replies: Seq<ReplySpec>,
    earlier: int,
)
    requires
        status_after(exchanges, replies) matches Status::Finished(Outcome::Completed(_)),
        forall|i: int| 0 <= i < exchanges.len() ==> !((#[trigger] exchanges[i]).policy is Deliver),
        0 <= earlier < exchanges.len(),
    ensures
        exists|at: int| accepted_at(exchanges, replies, earlier, at),
    decreases replies.len(),
{
    let before = replies.drop_last();
    let last = replies.len() - 1;
    assert(replies.take(last) =~= before);
    lemma_awaiting_in_bounds(exchanges, before);
    match status_after(exchanges, before) {
        Status::Finished(_) => {
            law_completion_means_all_was_accepted(exchanges, before, earlier);
            let at = choose|at: int| accepted_at(exchanges, before, earlier, at);
            lemma_accepted_at_extends(exchanges, replies, earlier, at);
        },
        Status::Awaiting(index) => {
            if index == earlier {
                assert(accepted_at(exchanges, replies, earlier, last));
            } else {
                law_nothing_is_skipped(exchanges, before, index, earlier);
                let at = choose|at: int| accepted_at(exchanges, before, earlier, at);
                lemma_accepted_at_extends(exchanges, replies, earlier, at);
            }
        },
    }
}

/// A routine that is waited for and checked, whatever comes before it: once the target has taken
/// the registers and runs, the procedure waits through any number of failures, and when the core
/// has halted the result decides. The procedure is completed if it is 0, and otherwise fails
/// with it.
pub proof fn law_the_result_of_a_routine_decides(
    prefix: Seq<ExchangeSpec>,
    before: Seq<ReplySpec>,
    core: Core,
    algorithm: FlashAlgorithm,
    pc: u32,
    r0: Option<u32>,
    r1: Option<u32>,
    r2: Option<u32>,
    r3: Option<u32>,
    init: bool,
    routine: &'static str,
    taken: Seq<ReplySpec>,
    failures: Seq<ReplySpec>,
    result: u32,
)
    requires
        status_after(
            prefix + call_and_wait(core, algorithm, pc, r0, r1, r2, r3, init, routine),
            before,
        ) == Status::Awaiting(prefix.len() as int),
        taken.len() == call(core, algorithm, pc, r0, r1, r2, r3, init).len(),
        forall|i: int| 0 <= i < taken.len() ==> !((#[trigger] taken[i]) is Failed),
        forall|i: int| 0 <= i < failures.len() ==> (#[trigger] failures[i]) is Failed,
    ensures
        status_after(
            prefix + call_and_wait(core, algorithm, pc, r0, r1, r2, r3, init, routine),
            before + taken + failures + seq![Reply::Done, Reply::Word(result)],
        ) == Status::Finished(
            if result == 0 {
                Outcome::Completed(Output::Unit)
            } else {
                Outcome::Failed(
                    FlasherError::RoutineCallFailed { name: routine, errorcode: result },
                )
            },
        ),
{
    let start = call(core, algorithm, pc, r0, r1, r2, r3, init);
    let end = completion(core, Policy::Zero { routine });
    let all = prefix + (start + end);
    let n = prefix.len() as int;
    let m = n + start.len();
    assert(all[m] == end[0]);
    assert(all[m + 1] == end[1]);
    lemma_call_is_required(core, algorithm, pc, r0, r1, r2, r3, init);
    assert forall|i: int| 0 <= i < taken.len() implies (#[trigger] all[n + i].reaction(taken[i]))
        is Advance by {
        assert(all[n + i] == start[i]);
        assert(start[i].policy is Require);
        assert(!(taken[i] is Failed));
    }
    law_accepted_replies_lead_on(all, before, n, taken);
    law_retrying_never_gives_up(all, before + taken, m, failures);
    let polled = before + taken + failures;
    let halted = polled.push(Reply::Done);
    assert(halted.drop_last() =~= polled);
    assert(status_after(all, halted) == Status::Awaiting(m + 1));
    let read = halted.push(Reply::Word(result));
    assert(read.drop_last() =~= halted);
    assert(read =~= polled + seq![Reply::Done, Reply::Word(result)]);
}

/// A procedure that ends with a routine that is waited for and checked is only completed if the
/// result of the routine was read as 0.
pub proof fn law_success_is_a_result_of_zero(
    prefix: Seq<ExchangeSpec>,
    core: Core,
    algorithm: FlashAlgorithm,
    pc: u32,
    r0: Option<u32>,
    r1: Option<u32>,
    r2: Option<u32>,
    r3: Option<u32>,
    init: bool,
    routine: &'static str,
    replies: Seq<ReplySpec>,
)
    requires
        forall|i: int| 0 <= i < prefix.len() ==> !((#[trigger] prefix[i]).policy is Deliver),
        fitting(
            prefix + call_and_wait(core, algorithm, pc, r0, r1, r2, r3, init, routine),
            replies,
        ),
        status_after(
            prefix + call_and_wait(core, algorithm, pc, r0, r1, r2, r3, init, routine),
            replies,
        ) matches Status::Finished(Outcome::Completed(_)),
    ensures
        exists|at: int|
            #![trigger replies[at]]
            {
                let all = prefix + call_and_wait(
                    core,
                    algorithm,
                    pc,
                    r0,
                    r1,
                    r2,
                    r3,
                    init,
                    routine,
                );
                &&& 0 <= at < replies.len()
                &&& status_after(all, replies.take(at)) == Status::Awaiting(all.len() - 1)
                &&& replies[at] == Reply::<Seq<u32>, Seq<u8>>::Word(0)
            },
{
    let checked = call_and_wait(core, algorithm, pc, r0, r1, r2, r3, init, routine);
    let all = prefix + checked;
    let start = call(core, algorithm, pc, r0, r1, r2, r3, init);
    let n = prefix.len() as int;
    let last = all.len() - 1;
    lemma_call_is_required(core, algorithm, pc, r0, r1, r2, r3, init);
    assert(all[last] == completion(core, Policy::Zero { routine })[1]);
    assert forall|i: int| 0 <= i < all.len() implies !((#[trigger] all[i]).policy is Deliver) by {
        if i < n {
            assert(all[i] == prefix[i]);
        } else if i < n + start.len() {
            assert(all[i] == start[i - n]);
            assert(start[i - n].policy is Require);
        }
    }
    law_completion_means_all_was_accepted(all, replies, last);
    let at = choose|at: int| accepted_at(all, replies, last, at);
    assert(answers(replies[at], all[last].command));
}

/// The first index at which two blocks differ is one at which they differ, and before it they are
/// the same.
pub proof fn lemma_first_difference(a: Seq<u32>, b: Seq<u32>, from: int)
    requires
        a.len() == b.len(),
        0 <= from <= a.len(),
    ensures
        from <= first_difference(a, b, from) <= a.len(),
        forall|j: int| from <= j < first_difference(a, b, from) ==> a[j] == b[j],
        first_difference(a, b, from) < a.len() ==> a[first_difference(a, b, from)]
            != b[first_difference(a, b, from)],
    decreases a.len() - from,
{
    if from < a.len() {
        lemma_first_difference(a, b, from + 1);
    }
}

/// No routine of the algorithm is called, and the flasher is not ready, before the algorithm was
/// read back from RAM just as it was written there.
pub proof fn law_only_a_loaded_algorithm_runs(
    core: Core,
    algorithm: FlashAlgorithm,
    region: FlashRegion,
    operation: u32,
    address: Option<u32>,
    clock: Option<u32>,
    replies: Seq<ReplySpec>,
)
    requires
        fitting(setup_exchanges(core, algorithm, region, operation, address, clock), replies),
        match status_after(
            setup_exchanges(core, algorithm, region, operation, address, clock),
            replies,
        ) {
            Status::Awaiting(index) => index >= load_exchanges(core, algorithm).len(),
            Status::Finished(outcome) => outcome is Completed,
        },
    ensures
        exists|at: int|
            0 <= at < replies.len() && #[trigger] replies[at] == Reply::<Seq<u32>, Seq<u8>>::Words(
                algorithm.instructions@,
            ),
{
    let all = setup_exchanges(core, algorithm, region, operation, address, clock);
    let load = load_exchanges(core, algorithm);
    assert(all[5] == load[5]);
    match status_after(all, replies) {
        Status::Awaiting(index) => {
            law_nothing_is_skipped(all, replies, index, 5);
        },
        Status::Finished(_) => {
            let rate = match clock {
                Some(clock) => clock,
                None => 0,
            };
            let first = match address {
                Some(address) => address,
                None => region.range.start,
            };
            let pc = algorithm.pc_init->0;
            lemma_call_is_required(
                core,
                algorithm,
                pc,
                Some(first),
                Some(rate),
                Some(operation),
                None,
                true,
            );
            let start = call(
                core,
                algorithm,
                pc,
                Some(first),
                Some(rate),
                Some(operation),
                None,
                true,
            );
            assert forall|i: int| 0 <= i < all.len() implies !((
            #[trigger] all[i]).policy is Deliver) by {
                if i < load.len() {
                    assert(all[i] == load[i]);
                } else if i < load.len() + start.len() {
                    assert(all[i] == start[i - load.len()]);
                }
            }
            law_completion_means_all_was_accepted(all, replies, 5);
        },
    }
    let at = choose|at: int| accepted_at(all, replies, 5, at);
    assert(answers(replies[at], all[5].command));
    let data = replies[at]->Words_0;
    lemma_first_difference(algorithm.instructions@, data, 0);
    assert(data =~= algorithm.instructions@);
}

/// The data of a page is in RAM before the routine that programs it is called.
pub proof fn law_page_data_comes_first(
    core: Core,
    algorithm: FlashAlgorithm,
    address: u32,
    bytes: Seq<u8>,
    replies: Seq<ReplySpec>,
    index: int,
)
    requires
        status_after(program_page_exchanges(core, algorithm, address, bytes), replies)
            == Status::Awaiting(index),
        index >= 1,
    ensures
        program_page_exchanges(core, algorithm, address, bytes)[0] == require(
            Command::WriteBlock8 { address: algorithm.begin_data, bytes },
        ),
        replies.len() >= 1,
        !(replies[0] is Failed),
{
    let all = program_page_exchanges(core, algorithm, address, bytes);
    assert(all[0] == require(Command::WriteBlock8 { address: algorithm.begin_data, bytes }));
    law_nothing_is_skipped(all, replies, index, 0);
    let at = choose|at: int| accepted_at(all, replies, 0, at);
    if replies[0] is Failed {
        let first = replies.take(1);
        assert(first.drop_last() =~= Seq::<ReplySpec>::empty());
        assert(status_after(all, Seq::<ReplySpec>::empty()) == Status::Awaiting(0));
        assert(status_after(all, first) is Finished);
        law_the_end_is_final(all, first, replies.skip(1));
        assert(first + replies.skip(1) =~= replies);
    }
}

/// While the debug log is off, the algorithm is loaded whether the core could be halted or not.
pub proof fn law_a_failed_halt_is_passed_over(
    core: Core,
    algorithm: FlashAlgorithm,
    region: FlashRegion,
    operation: u32,
    address: Option<u32>,
    clock: Option<u32>,
    replies: Seq<ReplySpec>,
    reply: ReplySpec,
)
    requires
        !core.debug_log,
        status_after(
            setup_exchanges(core, algorithm, region, operation, address, clock),
            replies,
        ) == Status::Awaiting(1),
    ensures
        status_after(
            setup_exchanges(core, algorithm, region, operation, address, clock),
            replies.push(reply),
        ) == Status::Awaiting(2),
{
    let all = setup_exchanges(core, algorithm, region, operation, address, clock);
    assert(all[1] == load_exchanges(core, algorithm)[1]);
    assert(replies.push(reply).drop_last() =~= replies);
}

/// Only an initialisation by the flasher can be aborted, and no other procedure.
pub proof fn law_only_an_initialisation_is_aborted(
    core: Core,
    algorithm: FlashAlgorithm,
    pc: u32,
    r0: Option<u32>,
    r1: Option<u32>,
    r2: Option<u32>,
    r3: Option<u32>,
    init: bool,
    routine: &'static str,
    operation: u32,
    first: Option<u32>,
    clock: Option<u32>,
    address: u32,
    bytes: Seq<u8>,
    length: usize,
)
    ensures
        cannot_abort(init_exchanges(core, algorithm, operation, first, clock)),
        cannot_abort(uninit_exchanges(core, algorithm, operation)),
        cannot_abort(load_buffer_exchanges(address, bytes)),
        cannot_abort(
            seq![
                Exchange {
                    command: Command::ReadBlock32 { address, length },
                    policy: Policy::Deliver,
                },
            ],
        ),
        cannot_abort(
            seq![
                Exchange {
                    command: Command::ReadBlock8 { address, length },
                    policy: Policy::Deliver,
                },
            ],
        ),
        cannot_abort(call(core, algorithm, pc, r0, r1, r2, r3, init)),
        cannot_abort(call_and_wait(core, algorithm, pc, r0, r1, r2, r3, init, routine)),
        cannot_abort(completion(core, Policy::Deliver)),
        cannot_abort(program_page_exchanges(core, algorithm, address, bytes)),
{
    lemma_call_cannot_abort(core, algorithm, pc, r0, r1, r2, r3, init, routine);
    assert(cannot_abort(init_exchanges(core, algorithm, operation, first, clock))) by {
        let rate = match clock {
            Some(clock) => clock,
            None => 0,
        };
        lemma_call_cannot_abort(
            core,
            algorithm,
            algorithm.pc_init->0,
            first,
            Some(rate),
            Some(operation),
            None,
            true,
            "init",
        );
    }
    assert(cannot_abort(uninit_exchanges(core, algorithm, operation))) by {
        lemma_call_cannot_abort(
            core,
            algorithm,
            algorithm.pc_uninit->0,
            Some(operation),
            None,
            None,
            None,
            false,
            "uninit",
        );
    }
    assert(cannot_abort(program_page_exchanges(core, algorithm, address, bytes))) by {
        lemma_call_cannot_abort(
            core,
            algorithm,
            algorithm.pc_program_page,
            Some(address),
            Some(low_word(bytes.len())),
            Some(algorithm.begin_data),
            None,
            false,
            "program_page",
        );
        let all = program_page_exchanges(core, algorithm, address, bytes);
        assert forall|i: int| 0 <= i < all.len() implies !((#[trigger] all[i]).policy is Insist)
            && !(all[i].policy is ReadBack) by {
            if i > 0 {
                assert(all[i] == all.skip(1)[i - 1]);
                assert(all.skip(1) =~= call_and_wait(
                    core,
                    algorithm,
                    algorithm.pc_program_page,
                    Some(address),
                    Some(low_word(bytes.len())),
                    Some(algorithm.begin_data),
                    None,
                    false,
                    "program_page",
                ));
            }
        }
    }
}

/// The exchange that sets `register` to `value`.
pub open spec fn write_register(register: RegisterDescription, value: u32) -> ExchangeSpec {
    require(Command::WriteCoreReg { register: register.address, value })
}

/// What setting registers writes is one of the registers, with its value.
proof fn lemma_set_registers_writes(
    core: Core,
    settings: Seq<(RegisterDescription, Option<u32>)>,
    i: int,
)
    requires
        0 <= i < set_registers(core, settings).len(),
    ensures
        set_registers(core, settings)[i].command matches Command::WriteCoreReg { register, value }
            ==> exists|k: int|
            #![trigger settings[k]]
            0 <= k < settings.len() && settings[k].0.address == register && settings[k].1 == Some(
                value,
            ),
    decreases settings.len(),
{
    let before = settings.drop_last();
    let rest = set_registers(core, before);
    let last = settings.len() - 1;
    if i < rest.len() {
        lemma_set_registers_writes(core, before, i);
        if let Command::WriteCoreReg { register, value } = rest[i].command {
            let k = choose|k: int|
                #![trigger before[k]]
                0 <= k < before.len() && before[k].0.address == register && before[k].1 == Some(
                    value,
                );
            assert(settings[k] == before[k]);
        }
    } else {
        assert(settings[last] == settings.last());
    }
}

/// Whether `register` is one that each call may set: the program counter, a register for an
/// argument, or the one for the return address.
pub open spec fn is_call_register(core: Core, register: CoreRegisterAddress) -> bool {
    ||| register == core.registers.program_counter.address
    ||| register == core.registers.argument_registers@[0].address
    ||| register == core.registers.argument_registers@[1].address
    ||| register == core.registers.argument_registers@[2].address
    ||| register == core.registers.argument_registers@[3].address
    ||| register == core.registers.return_address.address
}

/// The call of a routine that does not initialise sets no other registers than the program
/// counter, those for the arguments and the one for the return address. So where the stack
/// pointer is none of these it is left as it is, and so is the register for the static base.
pub proof fn law_only_init_sets_the_stack(
    core: Core,
    algorithm: FlashAlgorithm,
    pc: u32,
    r0: Option<u32>,
    r1: Option<u32>,
    r2: Option<u32>,
    r3: Option<u32>,
    i: int,
)
    requires
        0 <= i < call(core, algorithm, pc, r0, r1, r2, r3, false).len(),
    ensures
        call(core, algorithm, pc, r0, r1, r2, r3, false)[i].command matches Command::WriteCoreReg {
            register,
            ..
        } ==> {
            let stack = core.registers.stack_pointer.address;
            let base = core.registers.platform_registers@[9].address;
            &&& is_call_register(core, register)
            &&& !is_call_register(core, stack) ==> register != stack
            &&& !is_call_register(core, base) ==> register != base
        },
{
    let all = settings(core, algorithm, pc, r0, r1, r2, r3, false);
    let whole = call(core, algorithm, pc, r0, r1, r2, r3, false);
    if i < whole.len() - 1 {
        lemma_set_registers_writes(core, all, i);
    }
}

/// Setting registers begins with the first of them, if it has a value.
proof fn lemma_set_registers_begins(core: Core, settings: Seq<(RegisterDescription, Option<u32>)>)
    requires
        settings.len() > 0,
        settings[0].1 is Some,
    ensures
        set_registers(core, settings).len() > 0,
        set_registers(core, settings)[0] == write_register(settings[0].0, settings[0].1->0),
    decreases settings.len(),
{
    if settings.len() == 1 {
        assert(set_registers(core, settings.drop_last()) =~= Seq::<ExchangeSpec>::empty());
    } else {
        lemma_set_registers_begins(core, settings.drop_last());
    }
}

/// Each call begins with the entry point, and the last that it does is to run the core.
pub proof fn law_a_call_begins_and_ends(
    core: Core,
    algorithm: FlashAlgorithm,
    pc: u32,
    r0: Option<u32>,
    r1: Option<u32>,
    r2: Option<u32>,
    r3: Option<u32>,
    init: bool,
)
    ensures
        call(core, algorithm, pc, r0, r1, r2, r3, init).first() == write_register(
            *core.registers.program_counter,
            pc,
        ),
        call(core, algorithm, pc, r0, r1, r2, r3, init).last() == require(Command::Run),
        forall|i: int|
            0 <= i < call(core, algorithm, pc, r0, r1, r2, r3, init).len() - 1 ==> !((
            #[trigger] call(core, algorithm, pc, r0, r1, r2, r3, init)[i]).command is Run),
{
    let all = settings(core, algorithm, pc, r0, r1, r2, r3, init);
    let whole = call(core, algorithm, pc, r0, r1, r2, r3, init);
    lemma_set_registers_begins(core, all);
    assert forall|i: int| 0 <= i < whole.len() - 1 implies !((#[trigger] whole[i]).command is Run)
        by {
        lemma_set_registers_is_required(core, all, i);
    }
}

/// The core as it is while the debug log is off.
pub open spec fn quiet(core: Core) -> Core {
    Core { debug_log: false, ..core }
}

/// Whether an exchange does more than read a register.
pub open spec fn acts(exchange: ExchangeSpec) -> bool {
    !(exchange.command is ReadCoreReg)
}

/// Reading the registers back for the debug log changes nothing in how one is set.
proof fn lemma_quiet_register(
    core: Core,
    register: RegisterDescription,
    value: Option<u32>,
)
    ensures
        set_register(core, register, value).filter(|exchange: ExchangeSpec| acts(exchange))
            == set_register(quiet(core), register, value),
{
    reveal(Seq::filter);
    reveal_with_fuel(Seq::filter, 3);
    let all = set_register(core, register, value);
    let keep = |exchange: ExchangeSpec| acts(exchange);
    if all.len() == 2 {
        assert(all.drop_last() =~= seq![all[0]]);
        assert(all.drop_last().drop_last() =~= Seq::<ExchangeSpec>::empty());
    } else if all.len() == 1 {
        assert(all.drop_last() =~= Seq::<ExchangeSpec>::empty());
    }
    assert(all.filter(keep) =~= set_register(quiet(core), register, value));
}

/// Reading the registers back for the debug log changes nothing in how several are set.
proof fn lemma_quiet_registers(core: Core, settings: Seq<(RegisterDescription, Option<u32>)>)
    ensures
        set_registers(core, settings).filter(|exchange: ExchangeSpec| acts(exchange))
            == set_registers(quiet(core), settings),
    decreases settings.len(),
{
    let keep = |exchange: ExchangeSpec| acts(exchange);
    if settings.len() == 0 {
        reveal(Seq::filter);
        assert(set_registers(core, settings).filter(keep) =~= Seq::<ExchangeSpec>::empty());
    } else {
        let last = settings.last();
        lemma_quiet_registers(core, settings.drop_last());
        lemma_quiet_register(core, last.0, last.1);
        Seq::filter_distributes_over_add(
            set_registers(core, settings.drop_last()),
            set_register(core, last.0, last.1),
            keep,
        );
    }
}

/// The debug log only adds reads: what else a call does is the same whether it is on or off.
pub proof fn law_the_debug_log_only_reads(
    core: Core,
    algorithm: FlashAlgorithm,
    pc: u32,
    r0: Option<u32>,
    r1: Option<u32>,
    r2: Option<u32>,
    r3: Option<u32>,
    init: bool,
)
    ensures
        call(core, algorithm, pc, r0, r1, r2, r3, init).filter(
            |exchange: ExchangeSpec| acts(exchange),
        ) == call(quiet(core), algorithm, pc, r0, r1, r2, r3, init),
{
    let keep = |exchange: ExchangeSpec| acts(exchange);
    let all = settings(core, algorithm, pc, r0, r1, r2, r3, init);
    let whole = call(core, algorithm, pc, r0, r1, r2, r3, init);
    lemma_quiet_registers(core, all);
    reveal(Seq::filter);
    assert(whole.drop_last() =~= set_registers(core, all));
    assert(whole.filter(keep) == whole.drop_last().filter(keep).push(require(Command::Run)));
}

/// What is known of the sector of an address is known just once: no two answers are right.
pub proof fn law_a_sector_is_known_once(
    algorithm: FlashAlgorithm,
    address: u32,
    one: Option<SectorInfo>,
    other: Option<SectorInfo>,
)
    requires
        algorithm.is_sector_info(address, one),
        algorithm.is_sector_info(address, other),
    ensures
        one == other,
{
    let properties = algorithm.flash_properties;
    if one is Some && other is Some {
        let i = choose|i: int|
            #[trigger] properties.sectors_at(i, address) && one->0 == properties.sector_in(
                properties.sectors@[i],
                address,
            );
        let j = choose|j: int|
            #[trigger] properties.sectors_at(j, address) && other->0 == properties.sector_in(
                properties.sectors@[j],
                address,
            );
        if i < j {
            assert(properties.sectors@[j].address > address - properties.address_range.start);
        } else if j < i {
            assert(properties.sectors@[i].address > address - properties.address_range.start);
        }
    }
}

/// The sector of an address is also the sector of the address that it begins at.
pub proof fn law_a_sector_begins_in_itself(
    algorithm: FlashAlgorithm,
    address: u32,
    info: SectorInfo,
)
    requires
        algorithm.flash_properties.sized_at(address),
        algorithm.is_sector_info(address, Some(info)),
    ensures
        algorithm.is_sector_info(info.base_address, Some(info)),
{
    let properties = algorithm.flash_properties;
    let i = choose|i: int|
        #[trigger] properties.sectors_at(i, address) && info == properties.sector_in(
            properties.sectors@[i],
            address,
        );
    let sectors = properties.sectors@[i];
    let size = sectors.size as int;
    let first = properties.address_range.start + sectors.address;
    let inner = address - first;
    vstd::arithmetic::div_mod::lemma_fundamental_div_mod(inner, size);
    vstd::arithmetic::div_mod::lemma_mod_bound(inner, size);
    vstd::arithmetic::div_mod::lemma_mod_decreases(inner as nat, size as nat);
    vstd::arithmetic::mul::lemma_mul_is_commutative(size, inner / size);
    vstd::arithmetic::div_mod::lemma_mod_multiples_basic(inner / size, size);
    assert((info.base_address - first) % size == 0);
    assert(properties.sectors_at(i, info.base_address));
}

/// The words can be had back from their bytes.
pub proof fn law_words_come_back_from_bytes(words: Seq<u32>, i: int)
    requires
        0 <= i < words.len(),
    ensures
        little_endian(words).len() == 4 * words.len(),
        words[i] == little_endian(words)[4 * i] + 0x100 * little_endian(words)[4 * i + 1]
            + 0x1_0000 * little_endian(words)[4 * i + 2] + 0x100_0000 * little_endian(words)[4 * i
            + 3],
{
    let word = words[i];
    assert(word as int == word as int % 256 + 0x100 * (word as int / 0x100 % 256) + 0x1_0000 * (
    word as int / 0x1_0000 % 256) + 0x100_0000 * (word as int / 0x100_0000)) by (bit_vector);
    assert(word as int / 0x100_0000 < 256);
    let bytes = little_endian(words);
    assert((4 * i + 1) / 4 == i && (4 * i + 1) % 4 == 1);
    assert((4 * i + 2) / 4 == i && (4 * i + 2) % 4 == 2);
    assert((4 * i + 3) / 4 == i && (4 * i + 3) % 4 == 3);
    assert(bytes[4 * i] == byte_of(word, 0));
    assert(bytes[4 * i + 1] == byte_of(word, 1));
    assert(bytes[4 * i + 2] == byte_of(word, 2));
    assert(bytes[4 * i + 3] == byte_of(word, 3));
}

/// A target that does as it is told gets the algorithm loaded: the next is the call of the `init`
/// routine, and without one the initialisation is completed. Only while the debug log is on does
/// the core have to answer the halt.
pub proof fn law_an_obedient_target_is_loaded(
    core: Core,
    algorithm: FlashAlgorithm,
    region: FlashRegion,
    operation: u32,
    address: Option<u32>,
    clock: Option<u32>,
    halt: ReplySpec,
)
    requires
        core.debug_log ==> !(halt is Failed),
    ensures
        status_after(
            setup_exchanges(core, algorithm, region, operation, address, clock),
            seq![
                Reply::Done,
                halt,
                Reply::Done,
                Reply::Done,
                Reply::Done,
                Reply::Words(algorithm.instructions@),
            ],
        ) == arrive(setup_exchanges(core, algorithm, region, operation, address, clock), 6),
        algorithm.pc_init is None ==> status_after(
            setup_exchanges(core, algorithm, region, operation, address, clock),
            seq![
                Reply::Done,
                halt,
                Reply::Done,
                Reply::Done,
                Reply::Done,
                Reply::Words(algorithm.instructions@),
            ],
        ) == Status::Finished(Outcome::Completed(Output::Unit)),
{
    let all = setup_exchanges(core, algorithm, region, operation, address, clock);
    let load = load_exchanges(core, algorithm);
    let none = Seq::<ReplySpec>::empty();
    let replies: Seq<ReplySpec> = seq![
        Reply::Done,
        halt,
        Reply::Done,
        Reply::Done,
        Reply::Done,
        Reply::Words(algorithm.instructions@),
    ];
    assert forall|i: int| 0 <= i < replies.len() implies (#[trigger] all[0 + i].reaction(
        replies[i],
    )) is Advance by {
        assert(all[i] == load[i]);
        lemma_first_difference(algorithm.instructions@, algorithm.instructions@, 0);
    }
    law_accepted_replies_lead_on(all, none, 0, replies);
    assert(none + replies =~= replies);
}

/// An algorithm that is read back other than it was written aborts the initialisation, which
/// tells the first word that is not the same, and where it lies.
pub proof fn law_a_damaged_algorithm_aborts(
    core: Core,
    algorithm: FlashAlgorithm,
    region: FlashRegion,
    operation: u32,
    address: Option<u32>,
    clock: Option<u32>,
    replies: Seq<ReplySpec>,
    data: Seq<u32>,
)
    requires
        status_after(
            setup_exchanges(core, algorithm, region, operation, address, clock),
            replies,
        ) == Status::Awaiting(5),
        data.len() == algorithm.instructions@.len(),
        data != algorithm.instructions@,
    ensures
        exists|i: int|
            #![trigger data[i]]
            {
                &&& 0 <= i < data.len()
                &&& data[i] != algorithm.instructions@[i]
                &&& forall|j: int| 0 <= j < i ==> data[j] == algorithm.instructions@[j]
                &&& status_after(
                    setup_exchanges(core, algorithm, region, operation, address, clock),
                    replies.push(Reply::Words(data)),
                ) == Status::Finished(
                    Outcome::Aborted(
                        Abort::AlgorithmMismatch {
                            address: word_address(algorithm.load_address, i),
                            original: algorithm.instructions@[i],
                            read_back: data[i],
                            data,
                        },
                    ),
                )
            },
{
    let all = setup_exchanges(core, algorithm, region, operation, address, clock);
    let words = algorithm.instructions@;
    assert(all[5] == load_exchanges(core, algorithm)[5]);
    assert(replies.push(Reply::Words(data)).drop_last() =~= replies);
    lemma_first_difference(words, data, 0);
    let i = first_difference(words, data, 0);
    if i == words.len() {
        assert(words =~= data);
    }
    assert(data[i] != words[i]);
}

/// A procedure that reads gives just what was read.
pub proof fn law_a_read_gives_what_was_read(
    exchange: ExchangeSpec,
    words: Seq<u32>,
    bytes: Seq<u8>,
    word: u32,
)
    requires
        exchange.policy is Deliver,
    ensures
        status_after(seq![exchange], seq![Reply::Words(words)]) == Status::Finished(
            Outcome::Completed(Output::Words(words)),
        ),
        status_after(seq![exchange], seq![Reply::Bytes(bytes)]) == Status::Finished(
            Outcome::Completed(Output::Bytes(bytes)),
        ),
        status_after(seq![exchange], seq![Reply::Word(word)]) == Status::Finished(
            Outcome::Completed(Output::Word(word)),
        ),
{
    let none = Seq::<ReplySpec>::empty();
    assert(status_after(seq![exchange], none) == Status::Awaiting(0));
    assert(seq![Reply::<Seq<u32>, Seq<u8>>::Words(words)].drop_last() =~= none);
    assert(seq![Reply::<Seq<u32>, Seq<u8>>::Bytes(bytes)].drop_last() =~= none);
    assert(seq![Reply::<Seq<u32>, Seq<u8>>::Word(word)].drop_last() =~= none);
}

/// Waiting for a routine gives its result, after any number of failures.
pub proof fn law_waiting_gives_the_result(core: Core, failures: Seq<ReplySpec>, result: u32)
    requires
        forall|i: int| 0 <= i < failures.len() ==> (#[trigger] failures[i]) is Failed,
    ensures
        status_after(
            completion(core, Policy::Deliver),
            failures + seq![Reply::Done, Reply::Word(result)],
        ) == Status::Finished(Outcome::Completed(Output::Word(result))),
{
    let all = completion(core, Policy::Deliver);
    let none = Seq::<ReplySpec>::empty();
    assert(status_after(all, none) == Status::Awaiting(0));
    law_retrying_never_gives_up(all, none, 0, failures);
    assert(none + failures =~= failures);
    let halted = failures.push(Reply::Done);
    assert(halted.drop_last() =~= failures);
    assert(status_after(all, halted) == Status::Awaiting(1));
    let read = halted.push(Reply::Word(result));
    assert(read.drop_last() =~= halted);
    assert(read =~= failures + seq![Reply::Done, Reply::Word(result)]);
}

/// A routine that is only started is not waited for: the procedure is completed as soon as the
/// target has taken the registers and runs.
pub proof fn law_starting_does_not_wait(
    core: Core,
    algorithm: FlashAlgorithm,
    pc: u32,
    r0: Option<u32>,
    r1: Option<u32>,
    r2: Option<u32>,
    r3: Option<u32>,
    init: bool,
    taken: Seq<ReplySpec>,
)
    requires
        taken.len() == call(core, algorithm, pc, r0, r1, r2, r3, init).len(),
        forall|i: int| 0 <= i < taken.len() ==> !((#[trigger] taken[i]) is Failed),
    ensures
        status_after(call(core, algorithm, pc, r0, r1, r2, r3, init), taken) == Status::Finished(
            Outcome::Completed(Output::Unit),
        ),
{
    let all = call(core, algorithm, pc, r0, r1, r2, r3, init);
    let none = Seq::<ReplySpec>::empty();
    assert forall|i: int| 0 <= i < taken.len() implies (#[trigger] all[0 + i].reaction(taken[i]))
        is Advance by {
        lemma_call_is_required(core, algorithm, pc, r0, r1, r2, r3, init);
        assert(all[i].policy is Require);
        assert(!(taken[i] is Failed));
    }
    law_accepted_replies_lead_on(all, none, 0, taken);
    assert(none + taken =~= taken);
}

/// Setting registers writes each value to its register.
proof fn lemma_set_registers_hands_over(
    core: Core,
    settings: Seq<(RegisterDescription, Option<u32>)>,
    k: int,
)
    requires
        0 <= k < settings.len(),
        settings[k].1 is Some,
    ensures
        set_registers(core, settings).contains(write_register(settings[k].0, settings[k].1->0)),
    decreases settings.len(),
{
    let exchange = write_register(settings[k].0, settings[k].1->0);
    let all = set_registers(core, settings);
    let rest = set_registers(core, settings.drop_last());
    if k < settings.len() - 1 {
        lemma_set_registers_hands_over(core, settings.drop_last(), k);
        let i = choose|i: int| 0 <= i < rest.len() && rest[i] == exchange;
        assert(all[i] == exchange);
    } else {
        assert(all[rest.len() as int] == exchange);
    }
}

/// A routine gets all that it is called with: its entry point and its arguments, the address that
/// it returns to, and if it initialises the static base and the stack.
pub proof fn law_a_call_hands_everything_over(
    core: Core,
    algorithm: FlashAlgorithm,
    pc: u32,
    r0: Option<u32>,
    r1: Option<u32>,
    r2: Option<u32>,
    r3: Option<u32>,
    init: bool,
    k: int,
)
    requires
        0 <= k < settings(core, algorithm, pc, r0, r1, r2, r3, init).len(),
        settings(core, algorithm, pc, r0, r1, r2, r3, init)[k].1 is Some,
    ensures
        call(core, algorithm, pc, r0, r1, r2, r3, init).contains(
            write_register(
                settings(core, algorithm, pc, r0, r1, r2, r3, init)[k].0,
                settings(core, algorithm, pc, r0, r1, r2, r3, init)[k].1->0,
            ),
        ),
{
    let all = settings(core, algorithm, pc, r0, r1, r2, r3, init);
    let whole = call(core, algorithm, pc, r0, r1, r2, r3, init);
    let set = set_registers(core, all);
    let exchange = write_register(all[k].0, all[k].1->0);
    lemma_set_registers_hands_over(core, all, k);
    let i = choose|i: int| 0 <= i < set.len() && set[i] == exchange;
    assert(whole[i] == exchange);
}

/// The routine that programs a page from a page buffer is told the address that the buffer was
/// loaded at.
pub proof fn law_a_page_is_programmed_from_where_it_was_loaded(
    core: Core,
    algorithm: FlashAlgorithm,
    address: u32,
    buffer: u32,
    bytes: Seq<u8>,
)
    ensures
        load_buffer_exchanges(buffer, bytes) == seq![
            require(Command::WriteBlock8 { address: buffer, bytes }),
        ],
        start_page_exchanges(core, algorithm, address, buffer).contains(
            write_register(core.registers.argument_registers@[2], buffer),
        ),
{
    law_a_call_hands_everything_over(
        core,
        algorithm,
        algorithm.pc_program_page,
        Some(address),
        Some(algorithm.flash_properties.page_size),
        Some(buffer),
        None,
        false,
        3,
    );
}

/// A range that is not empty lies in another if and only if each of its addresses does.
pub proof fn law_a_range_is_its_addresses(outer: AddressRange, inner: AddressRange)
    requires
        inner.start < inner.end,
    ensures
        outer.has_range(inner) <==> forall|address: u32|
            inner.has(address) ==> #[trigger] outer.has(address),
{
    if forall|address: u32| inner.has(address) ==> #[trigger] outer.has(address) {
        assert(inner.has(inner.start));
        assert(outer.has(inner.start));
        let last = (inner.end - 1) as u32;
        assert(inner.has(last));
        assert(outer.has(last));
    }
}

/// Whether a fast verify is asked for has no influence on what is to be programmed, nor on whether
/// the block is refused.
pub proof fn law_fast_verify_has_no_influence<'a, 'd>(
    flasher: Flasher<'a>,
    address: u32,
    data: &'d [u8],
    do_chip_erase: bool,
    fast: Result<BlockProgram<'a, 'd>, FlasherError>,
    slow: Result<BlockProgram<'a, 'd>, FlasherError>,
)
    requires
        call_ensures(
            Flasher::<'a>::flash_block,
            (flasher, address, data, do_chip_erase, true),
            fast,
        ),
        call_ensures(
            Flasher::<'a>::flash_block,
            (flasher, address, data, do_chip_erase, false),
            slow,
        ),
    ensures
        fast == slow,
{
}

} // verus!

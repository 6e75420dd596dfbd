//! What holds of the parts that the operations are made of: lengths and bytes, ranges and sectors,
//! the codes of the operations, what is sent and what the replies mean.

use crate::active::callable;
use crate::bytes::{low_word, to_little_endian, to_low_word};
use crate::config::{AddressRange, FlashAlgorithm, FlashProperties, SectorInfo};
use crate::error::{FlasherError, TargetError};
use crate::flasher::{BlockProgram, Flasher, FlasherView};
use crate::laws::{
    law_a_sector_is_known_once, law_words_come_back_from_bytes, lemma_first_difference,
};
use crate::operation::{Erase, Operation, Program, Verify};
use crate::procedure::{
    first_difference, status_after, Abort, Exchange, ExchangeSpec, Outcome, OutcomeSpec,
    Output, Policy, PolicySpec, Procedure, Status,
};
use crate::target::{answers, Command, CommandSpec, CoreRegisterAddress, Reply, ReplySpec};
use vstd::prelude::*;

verus! {

/// A length that fits into a word is told as it is, and any other by what is left of it.
pub proof fn law_a_length_that_fits_is_told_as_it_is(length: usize, word: u32)
    requires
        call_ensures(to_low_word, (length,), word),
    ensures
        length < 0x1_0000_0000 ==> word == length,
        0 <= word < 0x1_0000_0000,
        (length - word) % 0x1_0000_0000 == 0,
{
    assert(word as int == length as int % 0x1_0000_0000);
}

/// The low half of a length that fits is the length, and that of any other differs from it by a
/// multiple of the number of addresses.
pub proof fn law_the_low_half_is_congruent(length: nat)
    ensures
        length < 0x1_0000_0000 ==> low_word(length) == length,
        (length - low_word(length)) % 0x1_0000_0000 == 0,
{
}

/// The bytes of words are four of each, of which the word can be put together.
pub proof fn law_bytes_are_those_of_the_words(words: &Vec<u32>, bytes: Vec<u8>, i: int)
    requires
        call_ensures(to_little_endian, (words,), bytes),
        0 <= i < words@.len(),
    ensures
        bytes@.len() == 4 * words@.len(),
        words@[i] == bytes@[4 * i] + 0x100 * bytes@[4 * i + 1] + 0x1_0000 * bytes@[4 * i + 2]
            + 0x100_0000 * bytes@[4 * i + 3],
{
    law_words_come_back_from_bytes(words@, i);
}

/// A range has the addresses from its start on and before its end, and another range if that begins
/// at one of them and does not go further.
pub proof fn law_ranges_have_what_lies_in_them(
    range: &AddressRange,
    address: u32,
    other: &AddressRange,
    contains: bool,
    contains_range: bool,
)
    requires
        call_ensures(AddressRange::contains, (range, address), contains),
        call_ensures(AddressRange::contains_range, (range, other), contains_range),
    ensures
        contains <==> range.start <= address && address < range.end,
        contains_range <==> range.start <= other.start && other.start < range.end && other.end
            <= range.end,
{
}

/// A block is taken if and only if it begins in the region of the flasher and does not go beyond
/// its end, and then it is the block that was given. Otherwise the error tells the address and the
/// region.
pub proof fn law_a_block_is_taken_if_it_lies_in_the_region<'a, 'd>(
    flasher: Flasher<'a>,
    address: u32,
    data: &'d [u8],
    do_chip_erase: bool,
    fast_verify: bool,
    result: Result<BlockProgram<'a, 'd>, FlasherError>,
)
    requires
        call_ensures(
            Flasher::<'a>::flash_block,
            (flasher, address, data, do_chip_erase, fast_verify),
            result,
        ),
        address + data@.len() <= u32::MAX,
    ensures
        result is Ok <==> flasher@.region.range.start <= address && address
            < flasher@.region.range.end && address + data@.len() <= flasher@.region.range.end,
        result matches Ok(block) ==> block.flasher == flasher && block.address == address
            && block.data == data && block.do_chip_erase == do_chip_erase
            && block.restore_unwritten_bytes,
        result matches Err(error) ==> error == (FlasherError::AddressNotInRegion {
            address,
            region: flasher@.region,
        }),
{
    law_the_low_half_is_congruent(data@.len());
}

/// Of all the sectors that begin at an offset or before it, one is the last.
proof fn lemma_last_sectors(properties: FlashProperties, address: u32, from: int)
    requires
        0 <= from < properties.sectors@.len(),
        properties.address_range.start + properties.sectors@[from].address <= address,
    ensures
        exists|k: int| #[trigger] properties.sectors_at(k, address),
    decreases properties.sectors@.len() - from,
{
    if properties.sectors_at(from, address) {
    } else {
        let next = choose|next: int|
            from < next < properties.sectors@.len() && (
            #[trigger] properties.sectors@[next]).address <= address
                - properties.address_range.start;
        lemma_last_sectors(properties, address, next);
    }
}

/// The sector of an address contains the address. It is one of the equal sectors, laid end to end,
/// that begin last at the address or before it. An address has no sector if and only if it is
/// outside the flash or no sectors begin at it or before it.
pub proof fn law_the_sector_of_an_address_contains_it(
    algorithm: &FlashAlgorithm,
    address: u32,
    info: Option<SectorInfo>,
)
    requires
        call_ensures(FlashAlgorithm::sector_info, (algorithm, address), info),
    ensures
        ({
            let properties = algorithm.flash_properties;
            let start = properties.address_range.start;
            let inside = start <= address && address < properties.address_range.end;
            let sectors = properties.sectors@;
            match info {
                Some(info) => {
                    &&& inside
                    &&& info.base_address <= address < info.base_address + info.size
                    &&& info.page_size == properties.page_size
                    &&& exists|k: int|
                        #![trigger sectors[k]]
                        {
                            &&& 0 <= k < sectors.len()
                            &&& start + sectors[k].address <= info.base_address
                            &&& info.size == sectors[k].size
                            &&& (info.base_address - (start + sectors[k].address)) % (
                            info.size as int) == 0
                            &&& forall|j: int|
                                k < j < sectors.len() ==> start + (
                                #[trigger] sectors[j]).address > address
                        }
                },
                None => inside ==> forall|k: int|
                    0 <= k < sectors.len() ==> start + (#[trigger] sectors[k]).address > address,
            }
        }),
{
    let properties = algorithm.flash_properties;
    let start = properties.address_range.start;
    let sectors = properties.sectors@;
    match info {
        Some(info) => {
            let k = choose|k: int|
                #[trigger] properties.sectors_at(k, address) && info == properties.sector_in(
                    sectors[k],
                    address,
                );
            let first = start + sectors[k].address;
            let inner = address - first;
            let size = info.size as int;
            vstd::arithmetic::div_mod::lemma_fundamental_div_mod(inner, size);
            vstd::arithmetic::div_mod::lemma_mod_bound(inner, size);
            vstd::arithmetic::div_mod::lemma_mod_decreases(inner as nat, size as nat);
            vstd::arithmetic::mul::lemma_mul_is_commutative(size, inner / size);
            vstd::arithmetic::div_mod::lemma_mod_multiples_basic(inner / size, size);
            assert((info.base_address - first) % size == 0);
            assert(sectors[k].size == info.size);
        },
        None => {
            if start <= address && address < properties.address_range.end {
                assert forall|k: int| 0 <= k < sectors.len() implies start + (
                #[trigger] sectors[k]).address > address by {
                    if start + sectors[k].address <= address {
                        lemma_last_sectors(properties, address, k);
                    }
                }
            }
        },
    }
}

/// A flasher knows of a sector what its algorithm knows.
pub proof fn law_a_flasher_knows_the_sectors_of_its_algorithm<'a>(
    flasher: &Flasher<'a>,
    algorithm: &FlashAlgorithm,
    address: u32,
    one: Option<SectorInfo>,
    other: Option<SectorInfo>,
)
    requires
        *algorithm == flasher@.algorithm,
        call_ensures(Flasher::<'a>::sector_info, (flasher, address), one),
        call_ensures(FlashAlgorithm::sector_info, (algorithm, address), other),
    ensures
        one == other,
{
    law_a_sector_is_known_once(*algorithm, address, one, other);
}

/// The operations have the codes 1, 2 and 3, in this order.
pub proof fn law_each_operation_has_its_code(erase: u32, program: u32, verify: u32)
    requires
        call_ensures(Erase::operation, (), erase),
        call_ensures(Program::operation, (), program),
        call_ensures(Verify::operation, (), verify),
    ensures
        erase == 1 && Erase::code() == 1,
        program == 2 && Program::code() == 2,
        verify == 3 && Verify::code() == 3,
{
}

/// An operation is called after its code, and one with an unknown code is said to be unknown.
pub proof fn law_each_code_has_its_name<O: Operation>(operation: &O, code: u32, name: &str)
    requires
        call_ensures(O::operation, (), code),
        call_ensures(O::operation_name, (operation,), name),
    ensures
        code == 1 ==> name@ == "Erase"@,
        code == 2 ==> name@ == "Program"@,
        code == 3 ==> name@ == "Verify"@,
        code < 1 || code > 3 ==> name@ == "Unknown Operation"@,
{
}

/// A reply leads on as the policy of the exchange says. What counts as a failure of an access to
/// the memory, and what as one of an access to the core, depends on the command alone.
pub proof fn law_a_reply_leads_on(
    exchanges: Seq<ExchangeSpec>,
    replies: Seq<ReplySpec>,
    index: int,
    reply: ReplySpec,
)
    requires
        status_after(exchanges, replies) == Status::Awaiting(index),
    ensures
        ({
            let next = status_after(exchanges, replies.push(reply));
            let command = exchanges[index].command;
            let policy = exchanges[index].policy;
            let on = if index + 1 < exchanges.len() {
                Status::Awaiting(index + 1)
            } else {
                Status::Finished(OutcomeSpec::Completed(Output::Unit))
            };
            let memory = command is AttachToCore || command is WriteBlock32 || command
                is ReadBlock32 || command is WriteBlock8 || command is ReadBlock8;
            &&& reply matches Reply::Failed(error) ==> match policy {
                Policy::Tolerate => next == on,
                Policy::Retry => next == Status::Awaiting(index),
                Policy::Insist => next == Status::Finished(
                    OutcomeSpec::Aborted(Abort::HaltFailed(error)),
                ),
                _ => next == Status::Finished(
                    OutcomeSpec::Failed(
                        if memory {
                            FlasherError::Memory(error)
                        } else {
                            FlasherError::Core(error)
                        },
                    ),
                ),
            }
            &&& !(reply is Failed) && (policy is Require || policy is Tolerate || policy is Insist
                || policy is Retry) ==> next == on
            &&& policy matches Policy::Zero { routine } ==> (reply matches Reply::Word(code)
                ==> next == if code == 0 {
                on
            } else {
                Status::Finished(
                    OutcomeSpec::Failed(
                        FlasherError::RoutineCallFailed { name: routine, errorcode: code },
                    ),
                )
            })
            &&& policy is Deliver ==> match reply {
                Reply::Done => next == Status::Finished(OutcomeSpec::Completed(Output::Unit)),
                Reply::Word(word) => next == Status::Finished(
                    OutcomeSpec::Completed(Output::Word(word)),
                ),
                Reply::Words(words) => next == Status::Finished(
                    OutcomeSpec::Completed(Output::Words(words)),
                ),
                Reply::Bytes(bytes) => next == Status::Finished(
                    OutcomeSpec::Completed(Output::Bytes(bytes)),
                ),
                Reply::Failed(_) => true,
            }
        }),
{
    assert(replies.push(reply).drop_last() =~= replies);
}

/// What is read back must be what was written: then the procedure goes on. Otherwise it is aborted,
/// and the first word that is not the same is told, with the address that it lies at, four for
/// each word before it, where addresses wrap around after the last one.
pub proof fn law_what_is_read_back_must_be_the_same(
    exchanges: Seq<ExchangeSpec>,
    replies: Seq<ReplySpec>,
    index: int,
    address: u32,
    length: usize,
    words: Seq<u32>,
    data: Seq<u32>,
)
    requires
        status_after(exchanges, replies) == Status::Awaiting(index),
        exchanges[index].command == (CommandSpec::ReadBlock32 { address, length }),
        exchanges[index].policy == (PolicySpec::ReadBack { words }),
        data.len() == words.len(),
    ensures
        ({
            let next = status_after(exchanges, replies.push(Reply::Words(data)));
            &&& data == words ==> next == if index + 1 < exchanges.len() {
                Status::Awaiting(index + 1)
            } else {
                Status::Finished(OutcomeSpec::Completed(Output::Unit))
            }
            &&& data != words ==> exists|i: int, at: u32|
                #![trigger data[i], mismatch(at, words[i], data[i], data)]
                {
                    &&& 0 <= i < data.len()
                    &&& data[i] != words[i]
                    &&& forall|j: int| 0 <= j < i ==> data[j] == words[j]
                    &&& at as int == (address + 4 * i) % 0x1_0000_0000
                    &&& next == mismatch(at, words[i], data[i], data)
                }
        }),
{
    assert(replies.push(Reply::Words(data)).drop_last() =~= replies);
    lemma_first_difference(words, data, 0);
    let i = first_difference(words, data, 0);
    if i == words.len() {
        assert(data =~= words);
    } else {
        let at = ((address + 4 * i) % 0x1_0000_0000) as u32;
        assert(status_after(exchanges, replies.push(Reply::Words(data))) == mismatch(
            at,
            words[i],
            data[i],
            data,
        ));
    }
}

/// Where a procedure stands that was aborted since `read_back` was read where `original` was
/// written.
pub open spec fn mismatch(address: u32, original: u32, read_back: u32, data: Seq<u32>) -> Status {
    Status::Finished(
        Outcome::Aborted(Abort::AlgorithmMismatch { address, original, read_back, data }),
    )
}

/// A procedure begins with its first exchange, and one without any is completed at once.
pub proof fn law_a_procedure_begins_at_the_beginning(exchanges: Seq<ExchangeSpec>)
    ensures
        status_after(exchanges, Seq::empty()) == if exchanges.len() > 0 {
            Status::Awaiting(0)
        } else {
            Status::Finished(OutcomeSpec::Completed(Output::Unit))
        },
{
}

/// A new procedure has the exchanges that it was made of, and no replies.
pub proof fn law_a_new_procedure_has_its_exchanges(exchanges: Vec<Exchange>, procedure: Procedure)
    requires
        call_ensures(Procedure::new, (exchanges,), procedure),
    ensures
        procedure.replies() == Seq::<ReplySpec>::empty(),
        procedure.exchanges().len() == exchanges@.len(),
        forall|i: int|
            0 <= i < exchanges@.len() ==> (#[trigger] procedure.exchanges()[i]).command
                == exchanges@[i].command@ && procedure.exchanges()[i].policy
                == exchanges@[i].policy@,
{
}

/// A procedure sends the command that it stands at, takes a reply as one more, and ends as it
/// stands.
pub proof fn law_a_procedure_does_what_it_stands_at(
    procedure: &Procedure,
    command: Option<&Command>,
    outcome: Option<Outcome>,
)
    requires
        call_ensures(Procedure::command, (procedure,), command),
        call_ensures(Procedure::outcome, (*procedure,), outcome),
    ensures
        match status_after(procedure.exchanges(), procedure.replies()) {
            Status::Awaiting(index) => {
                &&& command matches Some(command) && command@
                    == procedure.exchanges()[index].command
                &&& outcome is None
            },
            Status::Finished(end) => command is None && (outcome matches Some(outcome) && outcome@
                == end),
        },
{
}

/// A procedure that takes a reply keeps its exchanges and has one reply more.
pub proof fn law_a_procedure_takes_one_reply(procedure: &mut Procedure, reply: Reply)
    requires
        call_ensures(Procedure::resume, (procedure, reply), ()),
    ensures
        final(procedure).exchanges() == old(procedure).exchanges(),
        final(procedure).replies() == old(procedure).replies().push(reply@),
{
}

/// What contracts say of a command is said of the command that is sent.
pub proof fn law_commands_are_sent_as_contracts_see_them(
    address: u32,
    words: Vec<u32>,
    bytes: Vec<u8>,
    length: usize,
    index: usize,
    register: CoreRegisterAddress,
    value: u32,
)
    ensures
        (Command::<Vec<u32>, Vec<u8>>::AttachToCore { index })@ == (CommandSpec::AttachToCore {
            index,
        }),
        Command::<Vec<u32>, Vec<u8>>::Halt@ == CommandSpec::Halt,
        Command::<Vec<u32>, Vec<u8>>::WaitForCoreHalted@ == CommandSpec::WaitForCoreHalted,
        Command::<Vec<u32>, Vec<u8>>::ResetAndHalt@ == CommandSpec::ResetAndHalt,
        Command::<Vec<u32>, Vec<u8>>::Run@ == CommandSpec::Run,
        (Command::<Vec<u32>, Vec<u8>>::WriteCoreReg { register, value })@
            == (CommandSpec::WriteCoreReg { register, value }),
        (Command::<Vec<u32>, Vec<u8>>::ReadCoreReg { register })@ == (CommandSpec::ReadCoreReg {
            register,
        }),
        (Command::<Vec<u32>, Vec<u8>>::WriteBlock32 { address, words })@
            == (CommandSpec::WriteBlock32 { address, words: words@ }),
        (Command::<Vec<u32>, Vec<u8>>::ReadBlock32 { address, length })@
            == (CommandSpec::ReadBlock32 { address, length }),
        (Command::<Vec<u32>, Vec<u8>>::WriteBlock8 { address, bytes })@
            == (CommandSpec::WriteBlock8 { address, bytes: bytes@ }),
        (Command::<Vec<u32>, Vec<u8>>::ReadBlock8 { address, length })@
            == (CommandSpec::ReadBlock8 { address, length }),
{
}

/// What contracts say of a reply, of an output, of an abort and of an outcome is said of what is
/// there.
pub proof fn law_replies_and_outcomes_are_as_contracts_see_them(
    words: Vec<u32>,
    bytes: Vec<u8>,
    word: u32,
    error: TargetError,
    failure: FlasherError,
    address: u32,
    original: u32,
    output: Output,
    abort: Abort,
)
    ensures
        Reply::<Vec<u32>, Vec<u8>>::Done@ == ReplySpec::Done,
        Reply::<Vec<u32>, Vec<u8>>::Word(word)@ == ReplySpec::Word(word),
        Reply::<Vec<u32>, Vec<u8>>::Words(words)@ == ReplySpec::Words(words@),
        Reply::<Vec<u32>, Vec<u8>>::Bytes(bytes)@ == ReplySpec::Bytes(bytes@),
        Reply::<Vec<u32>, Vec<u8>>::Failed(error)@ == ReplySpec::Failed(error),
        Output::<Vec<u32>, Vec<u8>>::Unit@ == Output::<Seq<u32>, Seq<u8>>::Unit,
        Output::<Vec<u32>, Vec<u8>>::Word(word)@ == Output::<Seq<u32>, Seq<u8>>::Word(word),
        Output::<Vec<u32>, Vec<u8>>::Words(words)@ == Output::<Seq<u32>, Seq<u8>>::Words(words@),
        Output::<Vec<u32>, Vec<u8>>::Bytes(bytes)@ == Output::<Seq<u32>, Seq<u8>>::Bytes(bytes@),
        Abort::<Vec<u32>>::HaltFailed(error)@ == Abort::<Seq<u32>>::HaltFailed(error),
        (Abort::<Vec<u32>>::AlgorithmMismatch { address, original, read_back: word, data: words })@
            == (Abort::<Seq<u32>>::AlgorithmMismatch {
            address,
            original,
            read_back: word,
            data: words@,
        }),
        Outcome::<Vec<u32>, Vec<u8>>::Completed(output)@ == OutcomeSpec::Completed(output@),
        Outcome::<Vec<u32>, Vec<u8>>::Failed(failure)@ == OutcomeSpec::Failed(failure),
        Outcome::<Vec<u32>, Vec<u8>>::Aborted(abort)@ == OutcomeSpec::Aborted(abort@),
{
}

/// What contracts say of a policy is said of the policy that is there.
pub proof fn law_policies_are_as_contracts_see_them(words: Vec<u32>, routine: &'static str)
    ensures
        Policy::<Vec<u32>>::Require@ == PolicySpec::Require,
        Policy::<Vec<u32>>::Tolerate@ == PolicySpec::Tolerate,
        Policy::<Vec<u32>>::Insist@ == PolicySpec::Insist,
        Policy::<Vec<u32>>::Retry@ == PolicySpec::Retry,
        (Policy::<Vec<u32>>::ReadBack { words })@ == (PolicySpec::ReadBack { words: words@ }),
        (Policy::<Vec<u32>>::Zero { routine })@ == (PolicySpec::Zero { routine }),
        Policy::<Vec<u32>>::Deliver@ == PolicySpec::Deliver,
{
}

/// A target may fail at each command. If it does not, a read gives what was asked for, in the length
/// that was asked for, and anything else is done.
pub proof fn law_replies_answer_in_kind(
    command: CommandSpec,
    error: TargetError,
    word: u32,
    words: Seq<u32>,
    bytes: Seq<u8>,
)
    ensures
        answers(Reply::Failed(error), command),
        answers(Reply::Word(word), command) <==> command is ReadCoreReg,
        answers(Reply::Words(words), command) <==> (command matches Command::ReadBlock32 {
            length,
            ..
        } && words.len() == length),
        answers(Reply::Bytes(bytes), command) <==> (command matches Command::ReadBlock8 {
            length,
            ..
        } && bytes.len() == length),
        answers(Reply::Done, command) <==> !(command is ReadCoreReg) && !(command is ReadBlock32)
            && !(command is ReadBlock8),
{
}

/// A routine can be called if and only if there are four registers for arguments, a platform
/// register 9 and an address after the one that the algorithm is loaded at, and its result can be
/// read if and only if there is a register for it. A flasher without an `init` routine can always
/// be initialised.
pub proof fn law_what_a_call_needs(flasher: FlasherView)
    ensures
        ({
            let registers = flasher.session.core.registers;
            let calls = registers.argument_registers@.len() >= 4
                && registers.platform_registers@.len() >= 10 && flasher.algorithm.load_address + 1
                <= u32::MAX;
            let readable = registers.result_registers@.len() >= 1;
            &&& callable(flasher.session.core, flasher.algorithm) <==> calls
            &&& registers.can_return() <==> readable
            &&& flasher.active().callable() <==> calls
            &&& flasher.active().callable_and_returns() <==> calls && readable
            &&& flasher.can_init() <==> flasher.algorithm.pc_init is None || calls && readable
        }),
{
}

/// The sector of an address can be told unless the address is inside the flash and the last sectors
/// that begin at it or before it are empty.
pub proof fn law_only_empty_sectors_have_no_addresses(
    properties: FlashProperties,
    address: u32,
    k: int,
)
    requires
        0 <= k < properties.sectors@.len(),
        properties.address_range.start <= address < properties.address_range.end,
        properties.address_range.start + properties.sectors@[k].address <= address,
        forall|j: int|
            k < j < properties.sectors@.len() ==> properties.address_range.start + (
            #[trigger] properties.sectors@[j]).address > address,
    ensures
        properties.sized_at(address) <==> properties.sectors@[k].size > 0,
{
    assert(properties.sectors_at(k, address));
    assert forall|i: int| #[trigger] properties.sectors_at(i, address) implies i == k by {
        if i < k {
            assert(properties.sectors@[k].address > address - properties.address_range.start);
        } else if k < i {
            assert(properties.sectors@[i].address > address - properties.address_range.start);
        }
    }
}

/// The sector of an address outside the flash, or before all sectors, can always be told: there is
/// none.
pub proof fn law_an_address_elsewhere_needs_no_sectors(properties: FlashProperties, address: u32)
    requires
        address < properties.address_range.start || address >= properties.address_range.end
            || forall|j: int|
            0 <= j < properties.sectors@.len() ==> properties.address_range.start + (
            #[trigger] properties.sectors@[j]).address > address,
    ensures
        properties.sized_at(address),
{
}

} // verus!

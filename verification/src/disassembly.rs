//! The listing of a flash algorithm, for the log.

use crate::bytes::{little_endian, to_little_endian};
use crate::config::FlashAlgorithm;
use crate::laws::law_words_come_back_from_bytes;
use vstd::prelude::*;

verus! {

/// The error of the disassembler. Nothing is known of it here.
#[verifier::external_type_specification]
#[verifier::external_body]
pub struct ExCapstoneError(capstone::Error);

/// The disassembler could not be set up, or gave up.
#[derive(Debug)]
pub struct DisassemblyError {
    pub cause: capstone::Error,
}

/// The texts of a listing, line by line.
pub open spec fn texts(lines: Seq<String>) -> Seq<Seq<char>> {
    lines.map_values(|line: String| line@)
}

/// Calls `disasm_all` of a `capstone::Capstone` that was built for little endian Thumb code, which
/// gives one text for each instruction, up to the first that it cannot decode.
///
/// Nothing is claimed of the result. Whether there are texts is left open, since it fails where
/// memory runs out. So is what they are: besides the code and the address they depend on how the
/// C library writes floating-point values, which changes with the locale.
#[verifier::external_body]
fn disassemble_thumb(code: &Vec<u8>, address: u64) -> (result: Result<Vec<String>, capstone::Error>)
{
    let arm = capstone::Capstone::new().arm();
    let thumb = capstone::arch::BuildsCapstone::mode(arm, capstone::arch::arm::ArchMode::Thumb);
    let little = capstone::arch::BuildsCapstoneEndian::endian(thumb, capstone::Endian::Little);
    let cs = capstone::arch::BuildsCapstone::build(little)?;
    let instructions = cs.disasm_all(code.as_slice(), address)?;
    Ok(instructions.iter().map(|instruction| instruction.to_string()).collect())
}

/// Whether `answer` is one that the disassembler gives when it is asked for the Thumb instructions
/// in `code`, which begin at `address`. It need not give the same answer each time: its texts also
/// depend on how the C library writes floating-point values.
pub closed spec fn answered(
    code: Seq<u8>,
    address: u64,
    answer: Result<Vec<String>, capstone::Error>,
) -> bool {
    exists|bytes: Vec<u8>|
        bytes@ == code && #[trigger] call_ensures(disassemble_thumb, (&bytes, address), answer)
}

/// Whether `listing` is what the disassembler has to say of the instructions of `algorithm`, as
/// the bytes that they are in memory and at the addresses that they are loaded at: the texts, or
/// the error that it answered with.
pub open spec fn is_listing(
    algorithm: FlashAlgorithm,
    listing: Result<Vec<String>, DisassemblyError>,
) -> bool {
    let code = little_endian(algorithm.instructions@);
    let address = algorithm.load_address as u64;
    match listing {
        Ok(lines) => answered(code, address, Ok(lines)),
        Err(error) => answered(code, address, Err(error.cause)),
    }
}

/// The listing of the instructions of `algorithm`, at the addresses that they are loaded at. It
/// fails if and only if the disassembler does, with its error.
pub fn list_instructions(algorithm: &FlashAlgorithm) -> (result: Result<
    Vec<String>,
    DisassemblyError,
>)
    ensures
        is_listing(*algorithm, result),
{
    let code = to_little_endian(&algorithm.instructions);
    let answer = disassemble_thumb(&code, algorithm.load_address as u64);
    assert(call_ensures(disassemble_thumb, (&code, algorithm.load_address as u64), answer));
    match answer {
        Ok(lines) => Ok(lines),
        Err(cause) => Err(DisassemblyError { cause }),
    }
}

/// The disassembler is asked for the words of the algorithm, each as its four bytes with the least
/// significant first, at the address that the algorithm is loaded at, and what it answers is
/// handed on as it is.
proof fn law_the_listing_is_the_answer_to_the_algorithm(
    algorithm: &FlashAlgorithm,
    listing: Result<Vec<String>, DisassemblyError>,
    answer: Result<Vec<String>, capstone::Error>,
)
    requires
        call_ensures(list_instructions, (algorithm,), listing),
        match listing {
            Ok(lines) => answer == Ok::<Vec<String>, capstone::Error>(lines),
            Err(error) => answer == Err::<Vec<String>, capstone::Error>(error.cause),
        },
    ensures
        exists|code: Vec<u8>, address: u64|
            {
                let words = algorithm.instructions@;
                &&& #[trigger] call_ensures(disassemble_thumb, (&code, address), answer)
                &&& address as int == algorithm.load_address
                &&& code@.len() == 4 * words.len()
                &&& forall|i: int|
                    0 <= i < words.len() ==> #[trigger] words[i] == code@[4 * i] + 0x100 * code@[4
                        * i + 1] + 0x1_0000 * code@[4 * i + 2] + 0x100_0000 * code@[4 * i + 3]
            },
{
    let words = algorithm.instructions@;
    let address = algorithm.load_address as u64;
    let code = choose|code: Vec<u8>|
        code@ == little_endian(words) && #[trigger] call_ensures(
            disassemble_thumb,
            (&code, address),
            answer,
        );
    assert forall|i: int| 0 <= i < words.len() implies #[trigger] words[i] == code@[4 * i] + 0x100
        * code@[4 * i + 1] + 0x1_0000 * code@[4 * i + 2] + 0x100_0000 * code@[4 * i + 3] by {
        law_words_come_back_from_bytes(words, i);
    }
    assert(call_ensures(disassemble_thumb, (&code, address), answer));
}

} // verus!

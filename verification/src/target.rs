//! The target: its registers, the commands that it takes and the replies that it gives.

use crate::error::{TargetError, FlasherError};
use vstd::prelude::*;

verus! {

/// The number by which a register of the core is addressed.
#[derive(Clone, Copy, Debug, PartialEq, Eq, Structural)]
pub struct CoreRegisterAddress(pub u16);

/// One register of the core.
#[derive(Clone, Copy, Debug)]
pub struct RegisterDescription {
    pub name: &'static str,
    pub address: CoreRegisterAddress,
}

/// The registers of a core, by the role that they play in a call of a routine.
#[derive(Clone, Copy, Debug)]
pub struct RegisterFile {
    pub platform_registers: &'static [RegisterDescription],
    pub program_counter: &'static RegisterDescription,
    pub stack_pointer: &'static RegisterDescription,
    pub return_address: &'static RegisterDescription,
    pub argument_registers: &'static [RegisterDescription],
    pub result_registers: &'static [RegisterDescription],
}

impl RegisterFile {
    /// Whether the file holds the registers that a call of a routine sets: four for the
    /// arguments, and the platform register 9 for the static base.
    pub open spec fn can_call(&self) -> bool {
        &&& self.argument_registers@.len() >= 4
        &&& self.platform_registers@.len() >= 10
    }

    /// Whether the file holds the register that the result of a routine is read from.
    pub open spec fn can_return(&self) -> bool {
        self.result_registers@.len() >= 1
    }

    pub fn program_counter(&self) -> (register: &'static RegisterDescription)
        ensures
            register == self.program_counter,
    {
        self.program_counter
    }

    pub fn stack_pointer(&self) -> (register: &'static RegisterDescription)
        ensures
            register == self.stack_pointer,
    {
        self.stack_pointer
    }

    pub fn return_address(&self) -> (register: &'static RegisterDescription)
        ensures
            register == self.return_address,
    {
        self.return_address
    }

    pub fn argument_register(&self, index: usize) -> (register: &'static RegisterDescription)
        requires
            index < self.argument_registers@.len(),
        ensures
            *register == self.argument_registers@[index as int],
    {
        &self.argument_registers[index]
    }

    pub fn result_register(&self, index: usize) -> (register: &'static RegisterDescription)
        requires
            index < self.result_registers@.len(),
        ensures
            *register == self.result_registers@[index as int],
    {
        &self.result_registers[index]
    }

    pub fn platform_register(&self, index: usize) -> (register: &'static RegisterDescription)
        requires
            index < self.platform_registers@.len(),
        ensures
            *register == self.platform_registers@[index as int],
    {
        &self.platform_registers[index]
    }
}

/// What an operation has to know of the core that it runs on.
#[derive(Clone, Copy, Debug)]
pub struct Core {
    pub registers: &'static RegisterFile,
    /// Whether the debug log is on. It shows what the core answers to a halt, and each register
    /// that a call sets as it is read back.
    pub debug_log: bool,
}

/// What an operation has to know of the session with a target: its first core.
#[derive(Clone, Copy, Debug)]
pub struct Session {
    pub core: Core,
}

/// A command to the target. `W` and `B` hold blocks of words and of bytes: a `Vec` in a command
/// that is sent, a `Seq` in one that a contract speaks of.
#[derive(Debug, PartialEq, Eq)]
pub enum Command<W = Vec<u32>, B = Vec<u8>> {
    AttachToCore { index: usize },
    Halt,
    WaitForCoreHalted,
    ResetAndHalt,
    Run,
    WriteCoreReg { register: CoreRegisterAddress, value: u32 },
    ReadCoreReg { register: CoreRegisterAddress },
    WriteBlock32 { address: u32, words: W },
    ReadBlock32 { address: u32, length: usize },
    WriteBlock8 { address: u32, bytes: B },
    ReadBlock8 { address: u32, length: usize },
}

/// A command as contracts see it.
pub type CommandSpec = Command<Seq<u32>, Seq<u8>>;

/// A reply of the target: that it has done as it was told, what it read, or why it failed.
#[derive(Debug, PartialEq, Eq)]
pub enum Reply<W = Vec<u32>, B = Vec<u8>> {
    Done,
    Word(u32),
    Words(W),
    Bytes(B),
    Failed(TargetError),
}

/// A reply as contracts see it.
pub type ReplySpec = Reply<Seq<u32>, Seq<u8>>;

impl View for Command {
    type V = CommandSpec;

    open spec fn view(&self) -> CommandSpec {
        match *self {
            Command::AttachToCore { index } => Command::AttachToCore { index },
            Command::Halt => Command::Halt,
            Command::WaitForCoreHalted => Command::WaitForCoreHalted,
            Command::ResetAndHalt => Command::ResetAndHalt,
            Command::Run => Command::Run,
            Command::WriteCoreReg { register, value } => Command::WriteCoreReg { register, value },
            Command::ReadCoreReg { register } => Command::ReadCoreReg { register },
            Command::WriteBlock32 { address, words } => Command::WriteBlock32 {
                address,
                words: words@,
            },
            Command::ReadBlock32 { address, length } => Command::ReadBlock32 { address, length },
            Command::WriteBlock8 { address, bytes } => Command::WriteBlock8 {
                address,
                bytes: bytes@,
            },
            Command::ReadBlock8 { address, length } => Command::ReadBlock8 { address, length },
        }
    }
}

impl View for Reply {
    type V = ReplySpec;

    open spec fn view(&self) -> ReplySpec {
        match *self {
            Reply::Done => Reply::Done,
            Reply::Word(word) => Reply::Word(word),
            Reply::Words(words) => Reply::Words(words@),
            Reply::Bytes(bytes) => Reply::Bytes(bytes@),
            Reply::Failed(error) => Reply::Failed(error),
        }
    }
}

impl<W, B> Command<W, B> {
    /// Whether the command is one to the target's memory. Attaching to a core counts as one.
    pub open spec fn is_memory_access(self) -> bool {
        match self {
            Command::AttachToCore { .. } => true,
            Command::WriteBlock32 { .. } => true,
            Command::ReadBlock32 { .. } => true,
            Command::WriteBlock8 { .. } => true,
            Command::ReadBlock8 { .. } => true,
            _ => false,
        }
    }

    /// What a failure of the command is reported as.
    pub open spec fn failure_spec(self, error: TargetError) -> FlasherError {
        if self.is_memory_access() {
            FlasherError::Memory(error)
        } else {
            FlasherError::Core(error)
        }
    }

    pub fn failure(&self, error: TargetError) -> (failure: FlasherError)
        ensures
            failure == self.failure_spec(error),
    {
        match self {
            Command::AttachToCore { .. } => FlasherError::Memory(error),
            Command::WriteBlock32 { .. } => FlasherError::Memory(error),
            Command::ReadBlock32 { .. } => FlasherError::Memory(error),
            Command::WriteBlock8 { .. } => FlasherError::Memory(error),
            Command::ReadBlock8 { .. } => FlasherError::Memory(error),
            _ => FlasherError::Core(error),
        }
    }
}

/// Whether `reply` is of the kind that answers `command`: a read that succeeds gives what was
/// asked for, in the length that was asked for.
pub open spec fn answers(reply: ReplySpec, command: CommandSpec) -> bool {
    match reply {
        Reply::Failed(_) => true,
        Reply::Word(_) => command is ReadCoreReg,
        Reply::Words(words) => command matches Command::ReadBlock32 { length, .. } && words.len()
            == length,
        Reply::Bytes(bytes) => command matches Command::ReadBlock8 { length, .. } && bytes.len()
            == length,
        Reply::Done => !(command is ReadCoreReg || command is ReadBlock32 || command is ReadBlock8),
    }
}

} // verus!

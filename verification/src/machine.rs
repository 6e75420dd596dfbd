//! A target that does as it is told, as far as the operations depend on it: its registers, its
//! memory, and what both hold each time that the core is started.

use crate::procedure::ExchangeSpec;
use crate::target::{Command, CommandSpec, Core, CoreRegisterAddress, RegisterDescription};
use vstd::prelude::*;

verus! {

/// What a target holds at the moment at which its core is started.
#[verifier::ext_equal]
pub struct Snapshot {
    pub registers: Map<CoreRegisterAddress, u32>,
    pub memory: Map<int, u8>,
}

/// A target, with the registers and the bytes of memory that are known.
#[verifier::ext_equal]
pub struct Machine {
    pub registers: Map<CoreRegisterAddress, u32>,
    pub memory: Map<int, u8>,
    /// The starts of the core so far.
    pub calls: Seq<Snapshot>,
}

/// The byte that lies `i` bytes after the start of `words`, where a word lies with its least
/// significant byte first.
pub open spec fn byte_at(words: Seq<u32>, i: int) -> u8 {
    let word = words[i / 4] as int;
    let place = i % 4;
    let shifted = if place == 0 {
        word
    } else if place == 1 {
        word / 0x100
    } else if place == 2 {
        word / 0x1_0000
    } else {
        word / 0x100_0000
    };
    (shifted % 0x100) as u8
}

impl Machine {
    pub open spec fn with_register(self, register: RegisterDescription, value: u32) -> Machine {
        Machine { registers: self.registers.insert(register.address, value), ..self }
    }

    pub open spec fn with_bytes(self, address: u32, bytes: Seq<u8>) -> Machine {
        let stored = Map::new(
            |a: int| address <= a < address + bytes.len(),
            |a: int| bytes[a - address],
        );
        Machine { memory: self.memory.union_prefer_right(stored), ..self }
    }

    pub open spec fn with_words(self, address: u32, words: Seq<u32>) -> Machine {
        self.with_bytes(address, Seq::new(4 * words.len(), |i: int| byte_at(words, i)))
    }

    /// After a reset nothing is known of the registers.
    pub open spec fn reset(self) -> Machine {
        Machine { registers: Map::empty(), ..self }
    }

    pub open spec fn started(self) -> Machine {
        let call = Snapshot { registers: self.registers, memory: self.memory };
        Machine { calls: self.calls.push(call), ..self }
    }

    /// The target after it has done what `command` says.
    pub open spec fn obey(self, command: CommandSpec) -> Machine {
        match command {
            Command::WriteCoreReg { register, value } => Machine {
                registers: self.registers.insert(register, value),
                ..self
            },
            Command::WriteBlock8 { address, bytes } => self.with_bytes(address, bytes),
            Command::WriteBlock32 { address, words } => self.with_words(address, words),
            Command::ResetAndHalt => self.reset(),
            Command::Run => self.started(),
            _ => self,
        }
    }

    /// The target after it has done what all these exchanges say, one after the other.
    pub open spec fn obey_all(self, exchanges: Seq<ExchangeSpec>) -> Machine
        decreases exchanges.len(),
    {
        if exchanges.len() == 0 {
            self
        } else {
            self.obey_all(exchanges.drop_last()).obey(exchanges.last().command)
        }
    }

    /// What `register` holds when the core is started for the last time.
    pub open spec fn at_start(self, register: RegisterDescription) -> u32 {
        self.calls.last().registers[register.address]
    }
}

/// Whether the registers that a call sets are different ones.
pub open spec fn distinct(core: Core) -> bool {
    let all = seq![
        core.registers.program_counter.address,
        core.registers.argument_registers@[0].address,
        core.registers.argument_registers@[1].address,
        core.registers.argument_registers@[2].address,
        core.registers.argument_registers@[3].address,
        core.registers.platform_registers@[9].address,
        core.registers.stack_pointer.address,
        core.registers.return_address.address,
    ];
    forall|i: int, j: int| 0 <= i < j < 8 ==> #[trigger] all[i] != #[trigger] all[j]
}

/// What is done for two parts is done for one after the other.
pub proof fn lemma_obey_both(machine: Machine, first: Seq<ExchangeSpec>, second: Seq<ExchangeSpec>)
    ensures
        machine.obey_all(first + second) == machine.obey_all(first).obey_all(second),
    decreases second.len(),
{
    if second.len() == 0 {
        assert(first + second =~= first);
    } else {
        lemma_obey_both(machine, first, second.drop_last());
        assert((first + second).drop_last() =~= first + second.drop_last());
        assert((first + second).last() == second.last());
    }
}

} // verus!

//! The three kinds of work that a flash algorithm is initialised for.

use vstd::prelude::*;

verus! {

/// The name of the operation with the code `code`.
pub open spec fn name_of(code: u32) -> Seq<char> {
    if code == 1 {
        "Erase"@
    } else if code == 2 {
        "Program"@
    } else if code == 3 {
        "Verify"@
    } else {
        "Unknown Operation"@
    }
}

/// A kind of work that a flash algorithm is initialised for.
pub trait Operation {
    /// The code by which the `init` and `uninit` routines know the operation.
    spec fn code() -> u32;

    fn operation() -> (code: u32)
        ensures
            code == Self::code(),
    ;

    fn operation_name(&self) -> (name: &str)
        ensures
            name@ == name_of(Self::code()),
    {
        match Self::operation() {
            1 => "Erase",
            2 => "Program",
            3 => "Verify",
            _ => "Unknown Operation",
        }
    }
}

pub struct Erase;

impl Operation for Erase {
    open spec fn code() -> u32 {
        1
    }

    fn operation() -> (code: u32) {
        1
    }
}

pub struct Program;

impl Operation for Program {
    open spec fn code() -> u32 {
        2
    }

    fn operation() -> (code: u32) {
        2
    }
}

pub struct Verify;

impl Operation for Verify {
    open spec fn code() -> u32 {
        3
    }

    fn operation() -> (code: u32) {
        3
    }
}

} // verus!

//! Procedures: exchanges with the target, one after the other, that stop at the first reply
//! that is not acceptable.

use crate::error::{FlasherError, TargetError};
use crate::target::{answers, Command, Reply, ReplySpec};
use vstd::prelude::*;

verus! {

/// What a reply means to the procedure that gets it. `W` holds words, as in a [`Command`].
#[derive(Debug)]
pub enum Policy<W = Vec<u32>> {
    /// A failure ends the procedure with its error.
    Require,
    /// A failure is passed over.
    Tolerate,
    /// A failure aborts the procedure.
    Insist,
    /// After a failure the command is sent again.
    Retry,
    /// A failure ends the procedure with its error, and words other than `words` abort it.
    ReadBack { words: W },
    /// A failure ends the procedure with its error, and so does a word other than 0, which is
    /// the code that the routine `routine` failed with.
    Zero { routine: &'static str },
    /// A failure ends the procedure with its error, anything else is what the procedure gives.
    Deliver,
}

/// A policy as contracts see it.
pub type PolicySpec = Policy<Seq<u32>>;

/// A command, and what its reply means.
#[derive(Debug)]
pub struct Exchange<W = Vec<u32>, B = Vec<u8>> {
    pub command: Command<W, B>,
    pub policy: Policy<W>,
}

/// An exchange as contracts see it.
pub type ExchangeSpec = Exchange<Seq<u32>, Seq<u8>>;

/// What a completed procedure gives.
#[derive(Debug, PartialEq, Eq)]
pub enum Output<W = Vec<u32>, B = Vec<u8>> {
    Unit,
    Word(u32),
    Words(W),
    Bytes(B),
}

/// Why a procedure cannot go on although nothing can be reported as an error of the flash.
#[derive(Debug, PartialEq, Eq)]
pub enum Abort<W = Vec<u32>> {
    /// The core did not tell where it was halted.
    HaltFailed(TargetError),
    /// Of the words that were read back from RAM, `data`, the first that is not as it was written
    /// lies at `address`: `original` was written there and `read_back` was read.
    AlgorithmMismatch { address: u32, original: u32, read_back: u32, data: W },
}

/// How a procedure ends.
#[derive(Debug, PartialEq, Eq)]
pub enum Outcome<W = Vec<u32>, B = Vec<u8>> {
    Completed(Output<W, B>),
    Failed(FlasherError),
    Aborted(Abort<W>),
}

/// An outcome as contracts see it.
pub type OutcomeSpec = Outcome<Seq<u32>, Seq<u8>>;

impl View for Policy {
    type V = PolicySpec;

    open spec fn view(&self) -> PolicySpec {
        match *self {
            Policy::Require => Policy::Require,
            Policy::Tolerate => Policy::Tolerate,
            Policy::Insist => Policy::Insist,
            Policy::Retry => Policy::Retry,
            Policy::ReadBack { words } => Policy::ReadBack { words: words@ },
            Policy::Zero { routine } => Policy::Zero { routine },
            Policy::Deliver => Policy::Deliver,
        }
    }
}

impl View for Exchange {
    type V = ExchangeSpec;

    open spec fn view(&self) -> ExchangeSpec {
        Exchange { command: self.command@, policy: self.policy@ }
    }
}

impl View for Output {
    type V = Output<Seq<u32>, Seq<u8>>;

    open spec fn view(&self) -> Output<Seq<u32>, Seq<u8>> {
        match *self {
            Output::Unit => Output::Unit,
            Output::Word(word) => Output::Word(word),
            Output::Words(words) => Output::Words(words@),
            Output::Bytes(bytes) => Output::Bytes(bytes@),
        }
    }
}

impl View for Abort {
    type V = Abort<Seq<u32>>;

    open spec fn view(&self) -> Abort<Seq<u32>> {
        match *self {
            Abort::HaltFailed(error) => Abort::HaltFailed(error),
            Abort::AlgorithmMismatch { address, original, read_back, data } => {
                Abort::AlgorithmMismatch { address, original, read_back, data: data@ }
            },
        }
    }
}

impl View for Outcome {
    type V = OutcomeSpec;

    open spec fn view(&self) -> OutcomeSpec {
        match *self {
            Outcome::Completed(output) => Outcome::Completed(output@),
            Outcome::Failed(error) => Outcome::Failed(error),
            Outcome::Aborted(abort) => Outcome::Aborted(abort@),
        }
    }
}

/// The exchanges of `exchanges`, as contracts see them.
pub open spec fn views(exchanges: Seq<Exchange>) -> Seq<ExchangeSpec> {
    exchanges.map_values(|exchange: Exchange| exchange@)
}

/// Whether each of these exchanges can be carried out.
pub open spec fn all_valid(exchanges: Seq<ExchangeSpec>) -> bool {
    forall|i: int| 0 <= i < exchanges.len() ==> (#[trigger] exchanges[i]).valid()
}

/// The least index, from `from` on, at which `a` and `b` differ; the length of `a` if there is
/// none.
pub open spec fn first_difference(a: Seq<u32>, b: Seq<u32>, from: int) -> int
    decreases a.len() - from,
{
    if from >= a.len() {
        a.len() as int
    } else if a[from] != b[from] {
        from
    } else {
        first_difference(a, b, from + 1)
    }
}

/// The address of the word with the index `index` in a block that starts at `address`. Addresses
/// wrap around after the last one.
pub open spec fn word_address(address: u32, index: int) -> u32 {
    ((address + 4 * index) % 0x1_0000_0000) as u32
}

/// What a procedure does after a reply.
pub enum Reaction {
    Advance,
    Repeat,
    End(OutcomeSpec),
}

impl ExchangeSpec {
    /// What a procedure does that gets `reply` to the command of this exchange.
    pub open spec fn reaction(self, reply: ReplySpec) -> Reaction {
        let failure = Reaction::End(Outcome::Failed(self.command.failure_spec(reply->Failed_0)));
        match self.policy {
            Policy::Require => if reply is Failed {
                failure
            } else {
                Reaction::Advance
            },
            Policy::Tolerate => Reaction::Advance,
            Policy::Insist => if reply is Failed {
                Reaction::End(Outcome::Aborted(Abort::HaltFailed(reply->Failed_0)))
            } else {
                Reaction::Advance
            },
            Policy::Retry => if reply is Failed {
                Reaction::Repeat
            } else {
                Reaction::Advance
            },
            Policy::ReadBack { words } => match (self.command, reply) {
                (_, Reply::Failed(_)) => failure,
                (Command::ReadBlock32 { address, .. }, Reply::Words(data)) => {
                    let i = first_difference(words, data, 0);
                    if i < words.len() {
                        Reaction::End(
                            Outcome::Aborted(
                                Abort::AlgorithmMismatch {
                                    address: word_address(address, i),
                                    original: words[i],
                                    read_back: data[i],
                                    data,
                                },
                            ),
                        )
                    } else {
                        Reaction::Advance
                    }
                },
                _ => Reaction::Advance,
            },
            Policy::Zero { routine } => match reply {
                Reply::Failed(_) => failure,
                Reply::Word(code) => if code != 0 {
                    Reaction::End(
                        Outcome::Failed(
                            FlasherError::RoutineCallFailed { name: routine, errorcode: code },
                        ),
                    )
                } else {
                    Reaction::Advance
                },
                _ => Reaction::Advance,
            },
            Policy::Deliver => match reply {
                Reply::Failed(_) => failure,
                Reply::Done => Reaction::End(Outcome::Completed(Output::Unit)),
                Reply::Word(word) => Reaction::End(Outcome::Completed(Output::Word(word))),
                Reply::Words(words) => Reaction::End(Outcome::Completed(Output::Words(words))),
                Reply::Bytes(bytes) => Reaction::End(Outcome::Completed(Output::Bytes(bytes))),
            },
        }
    }

    /// Whether the exchange can be carried out: what is read back is as long as what it is
    /// compared with.
    pub open spec fn valid(self) -> bool {
        self.policy matches Policy::ReadBack { words } ==> (self.command matches Command::ReadBlock32 {
            length,
            ..
        } && words.len() == length)
    }
}

/// Where a procedure stands.
pub enum Status {
    /// It has sent the command with this index and waits for the reply.
    Awaiting(int),
    Finished(OutcomeSpec),
}

/// Where a procedure stands that has come to the exchange with the index `index`.
pub open spec fn arrive(exchanges: Seq<ExchangeSpec>, index: int) -> Status {
    if index < exchanges.len() {
        Status::Awaiting(index)
    } else {
        Status::Finished(Outcome::Completed(Output::Unit))
    }
}

/// Where the procedure with these exchanges stands once it has got these replies, in this order.
pub open spec fn status_after(exchanges: Seq<ExchangeSpec>, replies: Seq<ReplySpec>) -> Status
    decreases replies.len(),
{
    if replies.len() == 0 {
        arrive(exchanges, 0)
    } else {
        match status_after(exchanges, replies.drop_last()) {
            Status::Finished(outcome) => Status::Finished(outcome),
            Status::Awaiting(index) => match exchanges[index].reaction(replies.last()) {
                Reaction::Advance => arrive(exchanges, index + 1),
                Reaction::Repeat => Status::Awaiting(index),
                Reaction::End(outcome) => Status::Finished(outcome),
            },
        }
    }
}

/// Whether each of the replies answers the command that it was given to, when a procedure with
/// these exchanges got them.
pub open spec fn fitting(exchanges: Seq<ExchangeSpec>, replies: Seq<ReplySpec>) -> bool {
    forall|j: int|
        0 <= j < replies.len() ==> (#[trigger] status_after(exchanges, replies.take(j)) matches Status::Awaiting(
            index,
        ) ==> answers(replies[j], exchanges[index].command))
}

/// Whether no reply can abort a procedure with these exchanges.
pub open spec fn cannot_abort(exchanges: Seq<ExchangeSpec>) -> bool {
    forall|i: int|
        0 <= i < exchanges.len() ==> !((#[trigger] exchanges[i]).policy is Insist) && !(
        exchanges[i].policy is ReadBack)
}

/// A procedure that waits for a reply waits for one to a command of its own.
pub proof fn lemma_awaiting_in_bounds(exchanges: Seq<ExchangeSpec>, replies: Seq<ReplySpec>)
    ensures
        status_after(exchanges, replies) matches Status::Awaiting(index) ==> 0 <= index
            < exchanges.len(),
    decreases replies.len(),
{
    if replies.len() > 0 {
        lemma_awaiting_in_bounds(exchanges, replies.drop_last());
    }
}

/// A procedure that no reply can abort does not end aborted.
pub proof fn lemma_not_aborted(exchanges: Seq<ExchangeSpec>, replies: Seq<ReplySpec>)
    requires
        cannot_abort(exchanges),
    ensures
        !(status_after(exchanges, replies) matches Status::Finished(Outcome::Aborted(_))),
    decreases replies.len(),
{
    if replies.len() > 0 {
        lemma_not_aborted(exchanges, replies.drop_last());
        lemma_awaiting_in_bounds(exchanges, replies.drop_last());
    }
}

/// Replies that fit still fit when one that answers is added.
proof fn lemma_fitting_push(
    exchanges: Seq<ExchangeSpec>,
    replies: Seq<ReplySpec>,
    reply: ReplySpec,
)
    requires
        fitting(exchanges, replies),
        status_after(exchanges, replies) matches Status::Awaiting(index) ==> answers(
            reply,
            exchanges[index].command,
        ),
    ensures
        fitting(exchanges, replies.push(reply)),
{
    let longer = replies.push(reply);
    assert forall|j: int| 0 <= j < longer.len() implies (#[trigger] status_after(
        exchanges,
        longer.take(j),
    ) matches Status::Awaiting(index) ==> answers(longer[j], exchanges[index].command)) by {
        if j < replies.len() {
            assert(longer.take(j) =~= replies.take(j));
        } else {
            assert(longer.take(j) =~= replies);
        }
    }
}

/// The least index, from 0 on, at which the two blocks differ.
fn find_difference(a: &Vec<u32>, b: &Vec<u32>) -> (index: usize)
    requires
        a@.len() == b@.len(),
    ensures
        index == first_difference(a@, b@, 0),
        index <= a@.len(),
{
    let mut i: usize = 0;
    while i < a.len()
        invariant
            a@.len() == b@.len(),
            i <= a@.len(),
            first_difference(a@, b@, 0) == first_difference(a@, b@, i as int),
        decreases a.len() - i,
    {
        if a[i] != b[i] {
            return i;
        }
        i = i + 1;
    }
    i
}

/// What [`word_address`] says.
fn find_word_address(address: u32, index: usize) -> (result: u32)
    ensures
        result == word_address(address, index as int),
{
    let low: u64 = (index as u64) % 0x1_0000_0000;
    let sum: u64 = address as u64 + 4 * low;
    proof {
        assert((address + 4 * (index as int)) % 0x1_0000_0000 == sum as int % 0x1_0000_0000) by {
            let q: int = (index as int) / 0x1_0000_0000;
            assert(index as int == q * 0x1_0000_0000 + low as int);
            assert(address + 4 * (index as int) == 0x1_0000_0000 * (4 * q) + sum as int);
            vstd::arithmetic::div_mod::lemma_mod_multiples_vanish(4 * q, sum as int, 0x1_0000_0000);
        }
    }
    (sum % 0x1_0000_0000) as u32
}

enum Stage {
    Awaiting(usize),
    Finished(Outcome),
}

/// A sequence of exchanges that is being carried out.
///
/// Whoever carries it out sends [`Procedure::command`] to the target, hands the reply to
/// [`Procedure::resume`], and goes on so until there is no command any more. Then
/// [`Procedure::outcome`] says how it ended.
pub struct Procedure {
    exchanges: Vec<Exchange>,
    stage: Stage,
    replies: Ghost<Seq<ReplySpec>>,
}

impl Procedure {
    /// All the exchanges of the procedure.
    pub closed spec fn exchanges(&self) -> Seq<ExchangeSpec> {
        views(self.exchanges@)
    }

    /// The replies that the procedure has got so far.
    pub closed spec fn replies(&self) -> Seq<ReplySpec> {
        self.replies@
    }

    /// Where the procedure stands.
    pub open spec fn status(&self) -> Status {
        status_after(self.exchanges(), self.replies())
    }

    /// Whether the procedure knows where it stands.
    pub closed spec fn wf(&self) -> bool {
        &&& all_valid(self.exchanges())
        &&& fitting(self.exchanges(), self.replies())
        &&& match self.stage {
            Stage::Awaiting(index) => index < self.exchanges@.len() && self.status()
                == Status::Awaiting(index as int),
            Stage::Finished(outcome) => self.status() == Status::Finished(outcome@),
        }
    }

    /// Whatever has happened to a procedure, the replies that it has got are answers to the
    /// commands that it has sent.
    pub proof fn law_replies_are_answers(&self)
        requires
            self.wf(),
        ensures
            all_valid(self.exchanges()),
            fitting(self.exchanges(), self.replies()),
    {
    }

    /// Whether the procedure has just this to do, and has not begun.
    pub open spec fn begins(&self, exchanges: Seq<ExchangeSpec>) -> bool {
        &&& self.wf()
        &&& self.exchanges() == exchanges
        &&& self.replies() == Seq::<ReplySpec>::empty()
    }

    /// The procedure that carries out `exchanges`, before the first of them.
    pub fn new(exchanges: Vec<Exchange>) -> (procedure: Procedure)
        requires
            all_valid(views(exchanges@)),
        ensures
            procedure.begins(views(exchanges@)),
    {
        let stage = if exchanges.len() == 0 {
            Stage::Finished(Outcome::Completed(Output::Unit))
        } else {
            Stage::Awaiting(0)
        };
        Procedure { exchanges, stage, replies: Ghost(Seq::empty()) }
    }

    /// The command to send next; `None` once the procedure is finished.
    pub fn command(&self) -> (command: Option<&Command>)
        requires
            self.wf(),
        ensures
            match self.status() {
                Status::Awaiting(index) => command matches Some(command) && command@
                    == self.exchanges()[index].command,
                Status::Finished(_) => command is None,
            },
    {
        match &self.stage {
            Stage::Awaiting(index) => Some(&self.exchanges[*index].command),
            Stage::Finished(_) => None,
        }
    }

    /// Takes the reply to the command that was sent last.
    pub fn resume(&mut self, reply: Reply)
        requires
            old(self).wf(),
            old(self).status() matches Status::Awaiting(index) && answers(
                reply@,
                old(self).exchanges()[index].command,
            ),
        ensures
            final(self).wf(),
            final(self).exchanges() == old(self).exchanges(),
            final(self).replies() == old(self).replies().push(reply@),
    {
        let ghost before = self.replies@;
        let ghost answer = reply@;
        let ghost all = self.exchanges();
        let index: usize = match &self.stage {
            Stage::Awaiting(index) => *index,
            Stage::Finished(_) => 0,
        };
        let exchange: &Exchange = &self.exchanges[index];
        assert(exchange@ == all[index as int]);
        let end: Option<Outcome> = match (&exchange.policy, reply) {
            (Policy::Require, Reply::Failed(error)) => Some(
                Outcome::Failed(exchange.command.failure(error)),
            ),
            (Policy::Insist, Reply::Failed(error)) => Some(
                Outcome::Aborted(Abort::HaltFailed(error)),
            ),
            (Policy::Retry, Reply::Failed(_)) => {
                proof {
                    assert(before.push(answer).drop_last() == before);
                    lemma_fitting_push(all, before, answer);
                }
                self.replies = Ghost(before.push(answer));
                return ;
            },
            (Policy::ReadBack { .. }, Reply::Failed(error)) => Some(
                Outcome::Failed(exchange.command.failure(error)),
            ),
            (Policy::ReadBack { words }, Reply::Words(data)) => {
                let i: usize = find_difference(words, &data);
                match &exchange.command {
                    Command::ReadBlock32 { address, .. } if i < words.len() => {
                        let original: u32 = words[i];
                        let read_back: u32 = data[i];
                        Some(
                            Outcome::Aborted(
                                Abort::AlgorithmMismatch {
                                    address: find_word_address(*address, i),
                                    original,
                                    read_back,
                                    data,
                                },
                            ),
                        )
                    },
                    _ => None,
                }
            },
            (Policy::Zero { .. }, Reply::Failed(error)) => Some(
                Outcome::Failed(exchange.command.failure(error)),
            ),
            (Policy::Zero { routine }, Reply::Word(code)) => if code != 0 {
                Some(
                    Outcome::Failed(
                        FlasherError::RoutineCallFailed { name: *routine, errorcode: code },
                    ),
                )
            } else {
                None
            },
            (Policy::Deliver, Reply::Failed(error)) => Some(
                Outcome::Failed(exchange.command.failure(error)),
            ),
            (Policy::Deliver, Reply::Done) => Some(Outcome::Completed(Output::Unit)),
            (Policy::Deliver, Reply::Word(word)) => Some(Outcome::Completed(Output::Word(word))),
            (Policy::Deliver, Reply::Words(words)) => Some(
                Outcome::Completed(Output::Words(words)),
            ),
            (Policy::Deliver, Reply::Bytes(bytes)) => Some(
                Outcome::Completed(Output::Bytes(bytes)),
            ),
            _ => None,
        };
        let count: usize = self.exchanges.len();
        self.stage = match end {
            Some(outcome) => Stage::Finished(outcome),
            None => if index + 1 < count {
                Stage::Awaiting(index + 1)
            } else {
                Stage::Finished(Outcome::Completed(Output::Unit))
            },
        };
        self.replies = Ghost(before.push(answer));
        proof {
            assert(before.push(answer).drop_last() == before);
            lemma_fitting_push(all, before, answer);
        }
    }

    /// How the procedure ended; `None` as long as it is not finished.
    pub fn outcome(self) -> (outcome: Option<Outcome>)
        requires
            self.wf(),
        ensures
            match self.status() {
                Status::Awaiting(_) => outcome is None,
                Status::Finished(end) => outcome matches Some(outcome) && outcome@ == end,
            },
    {
        match self.stage {
            Stage::Awaiting(_) => None,
            Stage::Finished(outcome) => Some(outcome),
        }
    }
}

} // verus!

//! How initialisations, runs and their ends take their course, from the replies that came in.

use crate::active::ActiveFlasher;
use crate::disassembly::{is_listing, texts, DisassemblyError};
use crate::error::FlasherError;
use crate::flasher::{Flasher, Initialization, Run, Setup, Teardown, Work};
use crate::operation::Operation;
use crate::procedure::{status_after, Outcome, Status};
use crate::target::{Command, Reply};
use vstd::prelude::*;

verus! {

/// An initialisation sends the command that it stands at. When it has ended, the flasher is ready
/// if and only if nothing failed, and otherwise what went wrong is told.
pub proof fn law_a_flasher_is_ready_if_nothing_failed<'a, O: Operation>(
    initialization: Initialization<'a, O>,
    command: Option<&Command>,
    setup: Option<Setup<'a, O>>,
)
    requires
        call_ensures(Initialization::<'a, O>::command, (&initialization,), command),
        call_ensures(Initialization::<'a, O>::finish, (initialization,), setup),
    ensures
        ({
            let all = initialization.procedure().exchanges();
            match status_after(all, initialization.procedure().replies()) {
                Status::Awaiting(index) => setup is None && (command matches Some(command)
                    && command@ == all[index].command),
                Status::Finished(outcome) => command is None && match outcome {
                    Outcome::Completed(_) => setup matches Some(Setup::Ready(flasher)) && flasher@
                        == initialization.flasher(),
                    Outcome::Failed(error) => setup matches Some(Setup::Failed(failure)) && failure
                        == error,
                    Outcome::Aborted(abort) => setup matches Some(Setup::Aborted(reason))
                        && reason@ == abort,
                },
            }
        }),
{
}

/// A reply to an initialisation is one more for it, and changes nothing else.
pub proof fn law_an_initialisation_takes_one_reply<'a, O: Operation>(
    initialization: &mut Initialization<'a, O>,
    reply: Reply,
)
    requires
        call_ensures(Initialization::<'a, O>::resume, (initialization, reply), ()),
    ensures
        final(initialization).listed() == old(initialization).listed(),
        final(initialization).flasher() == old(initialization).flasher(),
        final(initialization).procedure().exchanges()
            == old(initialization).procedure().exchanges(),
        final(initialization).procedure().replies()
            == old(initialization).procedure().replies().push(reply@),
{
}

/// A reply to work that waits is one more for its initialisation, and changes nothing else.
pub proof fn law_work_takes_one_reply<'a, O: Operation, F>(work: &mut Work<'a, O, F>, reply: Reply)
    requires
        call_ensures(Work::<'a, O, F>::resume, (work, reply), ()),
    ensures
        final(work).work() == old(work).work(),
        final(work).initialization().listed() == old(work).initialization().listed(),
        final(work).initialization().flasher() == old(work).initialization().flasher(),
        final(work).initialization().procedure().exchanges()
            == old(work).initialization().procedure().exchanges(),
        final(work).initialization().procedure().replies()
            == old(work).initialization().procedure().replies().push(reply@),
{
}

/// Work is done if and only if the initialisation has ended and nothing failed in it, and then with
/// the flasher that resulted. If the work fails, its error is what the run returns; if it
/// succeeds, it is ended, and its value kept. A failed initialisation is what the run returns.
pub proof fn law_work_is_done_with_a_ready_flasher<'a, O: Operation, F, T, E: From<FlasherError>>(
    work: Work<'a, O, F>,
    command: Option<&Command>,
    run: Option<Run<T, E>>,
) where F: FnOnce(&ActiveFlasher<'a, O>) -> Result<T, E>
    requires
        call_ensures(Work::<'a, O, F>::command, (&work,), command),
        call_ensures(Work::<'a, O, F>::proceed::<T, E>, (work,), run),
    ensures
        ({
            let all = work.initialization().procedure().exchanges();
            match status_after(all, work.initialization().procedure().replies()) {
                Status::Awaiting(index) => run is None && (command matches Some(command) && command@
                    == all[index].command),
                Status::Finished(outcome) => command is None && match outcome {
                    Outcome::Completed(_) => exists|
                        flasher: &ActiveFlasher<'a, O>,
                        result: Result<T, E>,
                    |
                        {
                            &&& flasher@ == work.initialization().flasher()
                            &&& #[trigger] call_ensures(work.work(), (flasher,), result)
                            &&& result matches Ok(value) ==> (run matches Some(
                                Run::Teardown(teardown),
                            ) && teardown.value() == value)
                            &&& result matches Err(error) ==> (run matches Some(
                                Run::Returned(Err(returned)),
                            ) && returned == error)
                        },
                    Outcome::Failed(error) => run matches Some(Run::Returned(Err(returned)))
                        && call_ensures(E::from, (error,), returned),
                    Outcome::Aborted(abort) => run matches Some(Run::Aborted(reason)) && reason@
                        == abort,
                },
            }
        }),
{
}

/// The end of a run sends the command that it stands at. When it has ended, the run returns the
/// value of the work if nothing failed, and otherwise the failure.
pub proof fn law_a_run_returns_the_value_of_its_work<T, E: From<FlasherError>>(
    teardown: Teardown<T>,
    command: Option<&Command>,
    result: Option<Result<T, E>>,
)
    requires
        call_ensures(Teardown::<T>::command, (&teardown,), command),
        call_ensures(Teardown::<T>::result::<E>, (teardown,), result),
    ensures
        ({
            let all = teardown.procedure().exchanges();
            match status_after(all, teardown.procedure().replies()) {
                Status::Awaiting(index) => result is None && (command matches Some(command)
                    && command@ == all[index].command),
                Status::Finished(outcome) => command is None && match outcome {
                    Outcome::Completed(_) => result matches Some(Ok(value)) && value
                        == teardown.value(),
                    Outcome::Failed(error) => result matches Some(Err(returned)) && call_ensures(
                        E::from,
                        (error,),
                        returned,
                    ),
                    Outcome::Aborted(_) => true,
                },
            }
        }),
{
}

/// A reply to the end of a run is one more for it, and changes nothing else.
pub proof fn law_the_end_of_a_run_takes_one_reply<T>(teardown: &mut Teardown<T>, reply: Reply)
    requires
        call_ensures(Teardown::<T>::resume, (teardown, reply), ()),
    ensures
        final(teardown).value() == old(teardown).value(),
        final(teardown).procedure().exchanges() == old(teardown).procedure().exchanges(),
        final(teardown).procedure().replies() == old(teardown).procedure().replies().push(reply@),
{
}

/// The listing that an initialisation shows is, line by line, the one that was made before it, and
/// without one there is nothing to carry out.
pub proof fn law_the_listing_is_kept<'a, 'b, O: Operation>(
    flasher: &'b mut Flasher<'a>,
    listing: Result<Vec<String>, DisassemblyError>,
    address: Option<u32>,
    clock: Option<u32>,
    result: Result<Initialization<'b, O>, DisassemblyError>,
    shown: &Vec<String>,
)
    requires
        call_ensures(
            Flasher::<'a>::init_with_listing::<O>,
            (flasher, listing, address, clock),
            result,
        ),
        result matches Ok(initialization) ==> call_ensures(
            Initialization::<'b, O>::listing,
            (&initialization,),
            shown,
        ),
    ensures
        listing matches Ok(lines) ==> {
            &&& result is Ok
            &&& shown@.len() == lines@.len()
            &&& forall|i: int| 0 <= i < lines@.len() ==> #[trigger] shown@[i]@ == lines@[i]@
        },
        listing matches Err(error) ==> (result matches Err(returned) && returned == error),
{
    if let Ok(lines) = listing {
        lemma_same_texts(lines, *shown);
    }
}

/// The listing that an initialisation shows is, line by line, one that the disassembler made of the
/// algorithm of the flasher; where it made none its error is returned.
pub proof fn law_the_listing_is_shown<'a, 'b, O: Operation>(
    flasher: &'b mut Flasher<'a>,
    address: Option<u32>,
    clock: Option<u32>,
    result: Result<Initialization<'b, O>, DisassemblyError>,
    shown: &Vec<String>,
)
    requires
        call_ensures(Flasher::<'a>::init::<O>, (flasher, address, clock), result),
        result matches Ok(initialization) ==> call_ensures(
            Initialization::<'b, O>::listing,
            (&initialization,),
            shown,
        ),
    ensures
        result is Ok ==> exists|lines: Vec<String>|
            {
                &&& #[trigger] is_listing(old(flasher)@.algorithm, Ok(lines))
                &&& shown@.len() == lines@.len()
                &&& forall|i: int| 0 <= i < lines@.len() ==> #[trigger] shown@[i]@ == lines@[i]@
            },
        result matches Err(error) ==> is_listing(old(flasher)@.algorithm, Err(error)),
{
    if let Ok(initialization) = result {
        let lines = choose|lines: Vec<String>| #[trigger]
            is_listing(old(flasher)@.algorithm, Ok(lines)) && initialization.listed() == texts(
                lines@,
            );
        lemma_same_texts(lines, *shown);
    }
}

/// Listings with the same texts are the same line by line.
proof fn lemma_same_texts(one: Vec<String>, other: Vec<String>)
    ensures
        texts(one@) == texts(other@) ==> {
            &&& one@.len() == other@.len()
            &&& forall|i: int| 0 <= i < one@.len() ==> #[trigger] other@[i]@ == one@[i]@
        },
{
    if texts(one@) == texts(other@) {
        assert(texts(one@).len() == one@.len());
        assert(texts(other@).len() == other@.len());
        assert forall|i: int| 0 <= i < one@.len() implies #[trigger] other@[i]@ == one@[i]@ by {
            assert(texts(one@)[i] == one@[i]@);
            assert(texts(other@)[i] == other@[i]@);
        }
    }
}

} // verus!

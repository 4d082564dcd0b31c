//! Forwarding in both directions between a TCP connection and a stream: how one
//! direction ends, when the other is cancelled, and what comes of it.

use vstd::prelude::*;

verus! {

/// One direction of forwarding.
#[derive(Debug, Clone, Copy, PartialEq, Eq, Structural)]
pub enum Leg {
    /// From the TCP connection to the stream.
    Out,
    /// From the stream to the TCP connection.
    Back,
}

/// What ended the copying of one direction.
#[derive(Debug)]
pub enum Race<E> {
    /// The source ended after this many bytes.
    Copied(u64),
    /// Copying failed.
    Failed(E),
    /// Forwarding was cancelled.
    Cancelled,
}

/// What to do with the stream when the copying of one direction ended.
#[derive(Debug)]
pub enum LegAction<E> {
    /// Finish the stream; the direction is done once that succeeds.
    Finish(u64),
    /// The direction is done.
    Done(u64),
    /// The direction failed.
    Fail(E),
    /// Reset the stream; the direction was cancelled.
    Reset,
    /// Stop the stream; the direction was cancelled.
    StopStream,
}

/// What to do when the copying of one direction ended: a stream that was written
/// to is finished or reset, one that was read from is left or stopped.
pub fn leg_ended<E>(leg: Leg, race: Race<E>) -> (r: LegAction<E>)
    ensures
        match race {
            Race::Copied(n) => r == (match leg {
                Leg::Out => LegAction::<E>::Finish(n),
                Leg::Back => LegAction::<E>::Done(n),
            }),
            Race::Failed(e) => r == LegAction::Fail(e),
            Race::Cancelled => r == (match leg {
                Leg::Out => LegAction::<E>::Reset,
                Leg::Back => LegAction::<E>::StopStream,
            }),
        },
{
    match race {
        Race::Copied(n) => match leg {
            Leg::Out => LegAction::Finish(n),
            Leg::Back => LegAction::Done(n),
        },
        Race::Failed(e) => LegAction::Fail(e),
        Race::Cancelled => match leg {
            Leg::Out => LegAction::Reset,
            Leg::Back => LegAction::StopStream,
        },
    }
}

/// How far forwarding has come. What came of the way out is kept until the way
/// back ended, whose failure is reported first.
#[derive(Debug)]
pub enum Forward<E> {
    /// Both directions run.
    Both,
    /// The way out ended so, and the way back runs.
    OutEnded(Result<u64, E>),
    /// The way back is done, and the way out runs.
    BackDone,
    /// Forwarding is over.
    Over,
}

/// What to do next.
#[derive(Debug)]
pub struct Verdict<E> {
    /// Whether the other direction is to be cancelled.
    pub cancel: bool,
    /// What came of forwarding, once it is decided.
    pub result: Option<Result<(), E>>,
}

/// What came of a direction, without the number of bytes.
pub open spec fn outcome<E>(end: Result<u64, E>) -> Result<(), E> {
    match end {
        Ok(_) => Ok(()),
        Err(e) => Err(e),
    }
}

/// The course of forwarding: a direction that fails cancels the other one; the
/// failure of the way back is the result at once; otherwise what came of the
/// way out is the result when both have ended.
pub open spec fn forwarded<E>(f: Forward<E>, leg: Leg, end: Result<u64, E>) -> (
    Forward<E>,
    Verdict<E>,
) {
    let cancel = end is Err;
    match (f, leg) {
        (Forward::Both, Leg::Out) => (Forward::OutEnded(end), Verdict { cancel, result: None }),
        (Forward::Both, Leg::Back) => match end {
            Ok(_) => (Forward::BackDone, Verdict { cancel, result: None }),
            Err(e) => (Forward::Over, Verdict { cancel, result: Some(Err(e)) }),
        },
        (Forward::OutEnded(out), Leg::Back) => match end {
            Ok(_) => (Forward::Over, Verdict { cancel, result: Some(outcome(out)) }),
            Err(e) => (Forward::Over, Verdict { cancel, result: Some(Err(e)) }),
        },
        (Forward::BackDone, Leg::Out) => (
            Forward::Over,
            Verdict { cancel, result: Some(outcome(end)) },
        ),
        _ => (f, Verdict { cancel, result: None }),
    }
}

/// The result after both directions ended does not depend on which ended first:
/// it is the failure of the way back if there is one, else what came of the way
/// out.
pub proof fn order_does_not_matter<E>(out: Result<u64, E>, back: Result<u64, E>)
    ensures
        ({
            let expected = if back is Err {
                outcome(back)
            } else {
                outcome(out)
            };
            let (after_out, first) = forwarded(Forward::Both, Leg::Out, out);
            let (after_back, early) = forwarded(Forward::Both, Leg::Back, back);
            &&& first.result is None
            &&& forwarded(after_out, Leg::Back, back).1.result == Some(expected)
            &&& if back is Err {
                early.result == Some(expected)
            } else {
                early.result is None && forwarded(after_back, Leg::Out, out).1.result == Some(
                    expected,
                )
            }
        }),
{
}

/// Forwarding succeeds exactly when both directions do.
pub proof fn succeeds_with_both<E>(out: Result<u64, E>, back: Result<u64, E>)
    ensures
        ({
            let (after_out, _) = forwarded(Forward::Both, Leg::Out, out);
            forwarded(after_out, Leg::Back, back).1.result == Some(Ok::<(), E>(())) <==> out is Ok
                && back is Ok
        }),
{
}

/// A direction that fails cancels the other one, whatever has happened before.
pub proof fn failure_cancels<E>(f: Forward<E>, leg: Leg, end: Result<u64, E>)
    ensures
        forwarded(f, leg, end).1.cancel <==> end is Err,
{
}

impl<E> Forward<E> {
    /// Forwarding that begins.
    pub fn new() -> (r: Forward<E>)
        ensures
            r == Forward::<E>::Both,
    {
        Forward::Both
    }

    /// Takes how a direction ended and says what to do next.
    pub fn forward_bidi(self, leg: Leg, end: Result<u64, E>) -> (r: (Forward<E>, Verdict<E>))
        ensures
            r == forwarded(self, leg, end),
    {
        let cancel = match &end {
            Ok(_) => false,
            Err(_) => true,
        };
        match (self, leg) {
            (Forward::Both, Leg::Out) => (
                Forward::OutEnded(end),
                Verdict { cancel, result: None },
            ),
            (Forward::Both, Leg::Back) => match end {
                Ok(_) => (Forward::BackDone, Verdict { cancel, result: None }),
                Err(e) => (Forward::Over, Verdict { cancel, result: Some(Err(e)) }),
            },
            (Forward::OutEnded(out), Leg::Back) => match end {
                Ok(_) => (
                    Forward::Over,
                    Verdict {
                        cancel,
                        result: Some(
                            match out {
                                Ok(_) => Ok(()),
                                Err(e) => Err(e),
                            },
                        ),
                    },
                ),
                Err(e) => (Forward::Over, Verdict { cancel, result: Some(Err(e)) }),
            },
            (Forward::BackDone, Leg::Out) => (
                Forward::Over,
                Verdict {
                    cancel,
                    result: Some(
                        match end {
                            Ok(_) => Ok(()),
                            Err(e) => Err(e),
                        },
                    ),
                },
            ),
            (f, _) => (f, Verdict { cancel, result: None }),
        }
    }
}

/// Each direction tells how many bytes it copied or why it failed, as it was; a stream
/// that was written to is finished when all was copied and reset when forwarding was
/// cancelled, one that was read from is stopped then.
pub proof fn leg_ends_as_its_race<E>(leg: Leg, race: Race<E>, r: LegAction<E>)
    requires
        call_ensures(leg_ended, (leg, race), r),
    ensures
        race matches Race::Copied(n) ==> r == LegAction::<E>::Finish(n) || r == LegAction::<E>::Done(
            n,
        ),
        race matches Race::Failed(e) ==> r == LegAction::Fail(e),
        r is Finish ==> leg is Out,
        r is Done ==> leg is Back,
        r is Reset <==> race is Cancelled && leg is Out,
        r is StopStream <==> race is Cancelled && leg is Back,
        r is Fail <==> race is Failed,
{
}

/// Whichever direction ends first, forwarding has a result no later than with the
/// second: the failure of the way back if there is one, else what came of the way out.
/// A direction that fails cancels the other, one that is done does not.
pub proof fn forwarding_ends_with_both<E>(
    start: Forward<E>,
    out: Result<u64, E>,
    back: Result<u64, E>,
    out_first: (Forward<E>, Verdict<E>),
    then_back: (Forward<E>, Verdict<E>),
    back_first: (Forward<E>, Verdict<E>),
    then_out: (Forward<E>, Verdict<E>),
)
    requires
        call_ensures(Forward::<E>::new, (), start),
        call_ensures(Forward::<E>::forward_bidi, (start, Leg::Out, out), out_first),
        call_ensures(Forward::<E>::forward_bidi, (out_first.0, Leg::Back, back), then_back),
        call_ensures(Forward::<E>::forward_bidi, (start, Leg::Back, back), back_first),
        call_ensures(Forward::<E>::forward_bidi, (back_first.0, Leg::Out, out), then_out),
    ensures
        out_first.1.result is None,
        out_first.1.cancel <==> out is Err,
        then_back.1.cancel <==> back is Err,
        back_first.1.cancel <==> back is Err,
        then_out.1.cancel <==> out is Err,
        back matches Err(e) ==> then_back.1.result == Some(Err::<(), E>(e))
            && back_first.1.result == Some(Err::<(), E>(e)) && then_out.1.result is None,
        back is Ok ==> back_first.1.result is None && then_back.1.result is Some
            && then_out.1.result == then_back.1.result,
        back is Ok && out is Ok ==> then_back.1.result == Some(Ok::<(), E>(())),
        back is Ok ==> (out matches Err(e) ==> then_back.1.result == Some(Err::<(), E>(e))),
{
}

} // verus!

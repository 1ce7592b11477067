//! Taking the meters out of a stream of collected items.
//!
//! A consumer of collected items passes every item on but the meters, which it
//! hands to the channel of a batch reporter.
use tokio::sync::mpsc::error::TrySendError;
use tokio::sync::mpsc::Sender;
use vstd::prelude::*;

verus! {

/// `tokio::sync::mpsc::Sender`, the sending end of a bounded channel.
#[verifier::external_type_specification]
#[verifier::external_body]
#[verifier::reject_recursive_types(T)]
pub struct ExSender<T>(tokio::sync::mpsc::Sender<T>);

/// What became of a meter that was offered to the channel.
#[derive(Debug)]
pub enum Enqueued<M> {
    /// It is in the channel.
    Queued,
    /// The channel was full, and gave it back.
    Full(M),
    /// The channel was closed, and gave it back.
    Closed(M),
}

/// The channel of a batch reporter, with the history of what was offered to
/// it and of what it answered.
#[verifier::reject_recursive_types(M)]
pub struct MeterSender<M> {
    tx: Sender<M>,
    offered: Ghost<Seq<M>>,
    answers: Ghost<Seq<Enqueued<M>>>,
}

impl<M> MeterSender<M> {
    /// What was handed to `Sender::try_send` here, in order.
    pub closed spec fn offered(self) -> Seq<M> {
        self.offered@
    }

    /// What `Sender::try_send` answered here, in order.
    pub closed spec fn answers(self) -> Seq<Enqueued<M>> {
        self.answers@
    }

    /// The channel that meters are offered to.
    pub closed spec fn channel(self) -> Sender<M> {
        self.tx
    }

    fn new(tx: Sender<M>) -> (r: Self)
        ensures
            r.channel() == tx,
            r.offered() == Seq::<M>::empty(),
            r.answers() == Seq::<Enqueued<M>>::empty(),
    {
        MeterSender { tx, offered: Ghost(Seq::empty()), answers: Ghost(Seq::empty()) }
    }

    /// Calls `Sender::try_send` with `meter`. The meter, and what the channel
    /// answered, join the histories. The sender stays the same.
    ///
    /// A channel that is full or closed gives back what it was offered. Whether
    /// it is rests on its other end; that is left unsaid.
    #[verifier::external_body]
    fn try_send(&mut self, meter: M) -> (r: Enqueued<M>)
        ensures
            final(self).channel() == old(self).channel(),
            final(self).offered() == old(self).offered().push(meter),
            final(self).answers() == old(self).answers().push(r),
            match r {
                Enqueued::Queued => true,
                Enqueued::Full(back) => back == meter,
                Enqueued::Closed(back) => back == meter,
            },
    {
        match self.tx.try_send(meter) {
            Ok(()) => Enqueued::Queued,
            Err(TrySendError::Full(back)) => Enqueued::Full(back),
            Err(TrySendError::Closed(back)) => Enqueued::Closed(back),
        }
    }
}

/// A collected item: a meter, or one that is passed on.
pub enum Collected<M, O> {
    Meter(M),
    Other(O),
}

/// What a consumer does with what came in.
pub enum ConsumeStep<M, O, E> {
    /// It was a meter, and this became of it: the consumer asks for the next.
    Again(Enqueued<M>),
    /// This is passed on.
    Return(Result<Option<O>, E>),
}

/// What is passed on for what came in; nothing for a meter.
pub open spec fn passed_on<M, O, E>(result: Result<Option<Collected<M, O>>, E>) -> Option<
    Result<Option<O>, E>,
> {
    match result {
        Ok(Some(Collected::Meter(_))) => None,
        Ok(Some(Collected::Other(item))) => Some(Ok(Some(item))),
        Ok(None) => Some(Ok(None)),
        Err(err) => Some(Err(err)),
    }
}

/// What has been offered to the channel after something came in: a meter joins
/// it.
pub open spec fn offered_after<M, O, E>(
    offered: Seq<M>,
    result: Result<Option<Collected<M, O>>, E>,
) -> Seq<M> {
    match result {
        Ok(Some(Collected::Meter(meter))) => offered.push(meter),
        _ => offered,
    }
}

/// Passes on what `inner` collects, but for the meters.
#[verifier::reject_recursive_types(M)]
pub struct MeterFilteringConsumer<C, M> {
    inner: C,
    meter_tx: MeterSender<M>,
}

impl<C, M> MeterFilteringConsumer<C, M> {
    /// What was offered to the channel, in order.
    pub closed spec fn offered(self) -> Seq<M> {
        self.meter_tx.offered()
    }

    /// What the channel answered, in order.
    pub closed spec fn answers(self) -> Seq<Enqueued<M>> {
        self.meter_tx.answers()
    }

    /// The channel that meters are offered to.
    pub closed spec fn channel(self) -> Sender<M> {
        self.meter_tx.channel()
    }

    /// Where the items come from.
    pub closed spec fn source(self) -> C {
        self.inner
    }

    pub fn new(inner: C, meter_tx: Sender<M>) -> (r: Self)
        ensures
            r.source() == inner,
            r.channel() == meter_tx,
            r.offered() == Seq::<M>::empty(),
            r.answers() == Seq::<Enqueued<M>>::empty(),
    {
        MeterFilteringConsumer { inner, meter_tx: MeterSender::new(meter_tx) }
    }

    /// Where to ask for the next item.
    pub fn inner(&mut self) -> (r: &mut C)
        ensures
            *r == old(self).source(),
            final(self).source() == *final(r),
            final(self).channel() == old(self).channel(),
            final(self).offered() == old(self).offered(),
            final(self).answers() == old(self).answers(),
    {
        &mut self.inner
    }

    /// Offers a meter to the channel, and returns what the channel answered. One
    /// that is refused is not offered again.
    fn forward_meter(&mut self, meter: M) -> (r: Enqueued<M>)
        ensures
            final(self).source() == old(self).source(),
            final(self).channel() == old(self).channel(),
            final(self).offered() == old(self).offered().push(meter),
            final(self).answers() == old(self).answers().push(r),
            match r {
                Enqueued::Queued => true,
                Enqueued::Full(back) => back == meter,
                Enqueued::Closed(back) => back == meter,
            },
    {
        self.meter_tx.try_send(meter)
    }

    /// Takes what `inner` gave. A meter goes to the channel, and the next item
    /// is due, whatever the channel answered; anything else is passed on.
    pub fn consumed<O, E>(&mut self, result: Result<Option<Collected<M, O>>, E>) -> (r: ConsumeStep<
        M,
        O,
        E,
    >)
        ensures
            final(self).source() == old(self).source(),
            final(self).channel() == old(self).channel(),
            final(self).offered() == offered_after(old(self).offered(), result),
            match r {
                ConsumeStep::Again(enqueued) => {
                    &&& passed_on(result) is None
                    &&& final(self).answers() == old(self).answers().push(enqueued)
                    &&& match enqueued {
                        Enqueued::Queued => true,
                        Enqueued::Full(back) => final(self).offered().last() == back,
                        Enqueued::Closed(back) => final(self).offered().last() == back,
                    }
                },
                ConsumeStep::Return(answer) => {
                    &&& passed_on(result) == Some(answer)
                    &&& final(self).answers() == old(self).answers()
                },
            },
    {
        match result {
            Ok(Some(Collected::Meter(meter))) => ConsumeStep::Again(self.forward_meter(meter)),
            Ok(Some(Collected::Other(item))) => ConsumeStep::Return(Ok(Some(item))),
            Ok(None) => ConsumeStep::Return(Ok(None)),
            Err(err) => ConsumeStep::Return(Err(err)),
        }
    }
}

/// What a consumer has offered to the channel, and what it answered, if it has,
/// after a number of results of `inner`. It asks for no more once it answered.
pub open spec fn consume<M, O, E>(
    offered: Seq<M>,
    results: Seq<Result<Option<Collected<M, O>>, E>>,
) -> (Seq<M>, Option<Result<Option<O>, E>>)
    decreases results.len(),
{
    if results.len() == 0 {
        (offered, None)
    } else {
        match passed_on(results[0]) {
            Some(answer) => (offered_after(offered, results[0]), Some(answer)),
            None => consume(offered_after(offered, results[0]), results.skip(1)),
        }
    }
}

pub open spec fn is_meter<M, O, E>(result: Result<Option<Collected<M, O>>, E>) -> bool {
    result matches Ok(Some(Collected::Meter(_)))
}

/// The meter that came in.
pub open spec fn meter_of<M, O, E>(result: Result<Option<Collected<M, O>>, E>) -> M
    recommends
        is_meter(result),
{
    result->Ok_0->Some_0->Meter_0
}

/// A meter is never passed on, and is the only thing that is not: an item, the
/// end and an error go on unchanged. A meter joins what was offered to the
/// channel, behind the others; nothing else is offered.
pub proof fn law_only_meters_are_kept<M, O, E>(offered: Seq<M>, meter: M, item: O, err: E)
    ensures
        passed_on::<M, O, E>(Ok(Some(Collected::Meter(meter)))) is None,
        passed_on::<M, O, E>(Ok(Some(Collected::Other(item)))) == Some(
            Ok::<Option<O>, E>(Some(item)),
        ),
        passed_on::<M, O, E>(Ok(None)) == Some(Ok::<Option<O>, E>(None)),
        passed_on::<M, O, E>(Err(err)) == Some(Err::<Option<O>, E>(err)),
        offered_after::<M, O, E>(offered, Ok(Some(Collected::Meter(meter)))).len() == offered.len()
            + 1,
        offered_after::<M, O, E>(offered, Ok(Some(Collected::Meter(meter)))).last() == meter,
        offered_after::<M, O, E>(offered, Ok(Some(Collected::Meter(meter)))).drop_last() == offered,
        offered_after::<M, O, E>(offered, Ok(Some(Collected::Other(item)))) == offered,
        offered_after::<M, O, E>(offered, Ok(None)) == offered,
        offered_after::<M, O, E>(offered, Err(err)) == offered,
{
    assert(offered.push(meter).drop_last() =~= offered);
}

/// With `n` meters in front of the first other result, exactly these meters
/// are offered to the channel, each once and in order, and that other result,
/// an item, the end or an error, is the answer.
pub proof fn law_meters_are_taken_out<M, O, E>(
    offered: Seq<M>,
    results: Seq<Result<Option<Collected<M, O>>, E>>,
    n: int,
)
    requires
        0 <= n <= results.len(),
        forall|i: int| 0 <= i < n ==> is_meter(#[trigger] results[i]),
        n < results.len() ==> !is_meter(results[n]),
    ensures
        consume(offered, results).0 == offered + Seq::new(
            n as nat,
            |i: int| meter_of(results[i]),
        ),
        consume(offered, results).1 == if n < results.len() {
            passed_on(results[n])
        } else {
            None
        },
    decreases n,
{
    if n > 0 {
        let rest = results.skip(1);
        let more = offered.push(meter_of(results[0]));
        law_meters_are_taken_out(more, rest, n - 1);
    }
}

} // verus!

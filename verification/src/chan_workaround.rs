//! The streaming pipeline: a producer that parses the elements of a list one
//! at a time and offers each to a consumer over a hand-off that holds one
//! record at most.
//!
//! The producer and the consumer's facade are state machines. Whoever runs
//! them does the work between two steps: parsing the next element, handing a
//! record over, taking one. The producer is told what came of that work and
//! says what to do next. `run_from` is the pipeline as a whole, for a
//! consumer that takes a given number of records and then goes away.

use vstd::prelude::*;

verus! {

/// One record of the stream.
#[derive(Clone, Debug, PartialEq, Eq)]
pub struct MyJson {
    pub val1: String,
    pub val2: Vec<i32>,
}

/// What the consumer is handed: a record, or the message of the failure that
/// ended the stream.
pub type DeserializeResult = Result<MyJson, String>;

/// The other side of the hand-off is gone.
#[derive(Clone, Copy, Debug, PartialEq, Eq, Structural)]
pub struct Disconnected;

/// Where the producer stands.
#[derive(Clone, Copy, Debug, PartialEq, Eq, Structural)]
pub enum ProducerState {
    /// It waits for the next element to be parsed.
    Parsing,
    /// It waits for a record to be handed over. `last` says that the record
    /// is the failure that ends the stream.
    Sending { last: bool },
    /// It has stopped for good.
    Done,
}

/// What came of the work that the producer asked for.
#[derive(Debug, PartialEq, Eq)]
pub enum ProducerEvent {
    /// The next element was parsed.
    Element(MyJson),
    /// The list could not be parsed any further.
    Failure(String),
    /// The list has no more elements.
    End,
    /// The consumer took the record.
    Accepted,
    /// The consumer is gone; the record was not taken.
    Disconnected,
}

/// What the producer asks for next.
#[derive(Debug, PartialEq, Eq)]
pub enum ProducerAction {
    /// Parse the next element.
    Parse,
    /// Hand this record to the consumer, waiting until it takes it.
    Send(DeserializeResult),
    /// Nothing more: let go of the input and end.
    Stop,
}

/// The producer's step. An element is offered to the consumer; a failure is
/// offered once and ends the stream whether or not it is taken; the end of
/// the list and a consumer that is gone end the stream at once. An event
/// that does not answer what the producer asked for ends the stream too.
pub open spec fn step_spec(state: ProducerState, event: ProducerEvent) -> (
    ProducerState,
    ProducerAction,
) {
    match (state, event) {
        (ProducerState::Parsing, ProducerEvent::Element(record)) => (
            ProducerState::Sending { last: false },
            ProducerAction::Send(Ok(record)),
        ),
        (ProducerState::Parsing, ProducerEvent::Failure(message)) => (
            ProducerState::Sending { last: true },
            ProducerAction::Send(Err(message)),
        ),
        (ProducerState::Sending { last: false }, ProducerEvent::Accepted) => (
            ProducerState::Parsing,
            ProducerAction::Parse,
        ),
        _ => (ProducerState::Done, ProducerAction::Stop),
    }
}

/// The producer of a stream.
#[derive(Debug)]
pub struct MyJsonVisitor {
    state: ProducerState,
}

impl MyJsonVisitor {
    /// Where the producer stands.
    pub closed spec fn state(&self) -> ProducerState {
        self.state
    }

    /// A producer at the start of its list. Its first request is `Parse`.
    pub fn new() -> (producer: MyJsonVisitor)
        ensures
            producer.state() == ProducerState::Parsing,
    {
        MyJsonVisitor { state: ProducerState::Parsing }
    }

    /// Whether the producer has stopped for good.
    pub fn is_done(&self) -> (done: bool)
        ensures
            done == (self.state() == ProducerState::Done),
    {
        match self.state {
            ProducerState::Done => true,
            _ => false,
        }
    }

    /// Takes what came of the last request and says what to do next.
    pub fn step(&mut self, event: ProducerEvent) -> (action: ProducerAction)
        ensures
            (final(self).state(), action) == step_spec(old(self).state(), event),
    {
        match (self.state, event) {
            (ProducerState::Parsing, ProducerEvent::Element(record)) => {
                self.state = ProducerState::Sending { last: false };
                ProducerAction::Send(Ok(record))
            },
            (ProducerState::Parsing, ProducerEvent::Failure(message)) => {
                self.state = ProducerState::Sending { last: true };
                ProducerAction::Send(Err(message))
            },
            (ProducerState::Sending { last: false }, ProducerEvent::Accepted) => {
                self.state = ProducerState::Parsing;
                ProducerAction::Parse
            },
            _ => {
                self.state = ProducerState::Done;
                ProducerAction::Stop
            },
        }
    }
}

/// The consumer's side of a stream.
#[derive(Debug)]
pub struct MyJsonIterator {
    exhausted: bool,
}

impl MyJsonIterator {
    /// Whether the stream has ended.
    pub closed spec fn exhausted(&self) -> bool {
        self.exhausted
    }

    /// The consumer's side of a stream that has not ended.
    pub fn new() -> (facade: MyJsonIterator)
        ensures
            !facade.exhausted(),
    {
        MyJsonIterator { exhausted: false }
    }

    /// Whether the stream has ended: nothing is to be taken any more.
    pub fn is_exhausted(&self) -> (exhausted: bool)
        ensures
            exhausted == self.exhausted(),
    {
        self.exhausted
    }

    /// One pull, given what taking a record from the hand-off came to. A
    /// record is passed on; a producer that is gone is the end of the stream,
    /// not a failure, and a stream that has ended stays ended.
    pub fn next(&mut self, received: Result<DeserializeResult, Disconnected>) -> (item: Option<
        DeserializeResult,
    >)
        ensures
            item == if old(self).exhausted() {
                None
            } else {
                match received {
                    Ok(record) => Some(record),
                    Err(_) => None,
                }
            },
            final(self).exhausted() == (old(self).exhausted() || received is Err),
    {
        if self.exhausted {
            return None;
        }
        match received {
            Ok(record) => Some(record),
            Err(_) => {
                self.exhausted = true;
                None
            },
        }
    }
}

/// What parsing the next element of `outcomes` comes to: the element, the
/// failure, or the end of the list.
pub open spec fn next_event(outcomes: Seq<DeserializeResult>) -> ProducerEvent {
    if outcomes.len() == 0 {
        ProducerEvent::End
    } else {
        match outcomes[0] {
            Ok(record) => ProducerEvent::Element(record),
            Err(message) => ProducerEvent::Failure(message),
        }
    }
}

/// The pipeline as a whole. The producer stands in `state`; `outcomes` is
/// what parsing the rest of the list gives, element by element; the consumer
/// takes `pulls` records and then goes away. The result is what the consumer
/// is handed, in order, and where the producer stands in the end.
pub open spec fn run_from(
    state: ProducerState,
    outcomes: Seq<DeserializeResult>,
    pulls: nat,
) -> (Seq<DeserializeResult>, ProducerState)
    decreases outcomes.len(),
{
    if state != ProducerState::Parsing {
        (Seq::empty(), state)
    } else {
        let (sending, action) = step_spec(state, next_event(outcomes));
        match action {
            ProducerAction::Send(record) => if pulls > 0 {
                let (after, _) = step_spec(sending, ProducerEvent::Accepted);
                let (more, end) = run_from(after, outcomes.drop_first(), (pulls - 1) as nat);
                (seq![record] + more, end)
            } else {
                let (after, _) = step_spec(sending, ProducerEvent::Disconnected);
                (Seq::empty(), after)
            },
            _ => (Seq::empty(), sending),
        }
    }
}

/// The stream that a list gives: its elements up to the first failure, the
/// failure included.
pub open spec fn stream_of(outcomes: Seq<DeserializeResult>) -> Seq<DeserializeResult>
    decreases outcomes.len(),
{
    if outcomes.len() == 0 {
        Seq::empty()
    } else if outcomes[0] is Err {
        seq![outcomes[0]]
    } else {
        seq![outcomes[0]] + stream_of(outcomes.drop_first())
    }
}

/// Records, each as the consumer is handed it.
pub open spec fn all_ok(records: Seq<MyJson>) -> Seq<DeserializeResult> {
    records.map_values(|record: MyJson| Ok::<MyJson, String>(record))
}

/// The consumer is handed the stream of the list, in order, as far as it
/// pulls; and the producer stops for good, however few records were taken.
pub proof fn lemma_run(outcomes: Seq<DeserializeResult>, pulls: nat)
    ensures
        run_from(ProducerState::Parsing, outcomes, pulls).0 == if pulls < stream_of(
            outcomes,
        ).len() {
            stream_of(outcomes).take(pulls as int)
        } else {
            stream_of(outcomes)
        },
        run_from(ProducerState::Parsing, outcomes, pulls).1 == ProducerState::Done,
    decreases outcomes.len(),
{
    let stream = stream_of(outcomes);
    if outcomes.len() == 0 {
    } else if pulls == 0 {
        assert(stream.take(0) =~= Seq::<DeserializeResult>::empty());
    } else if outcomes[0] is Err {
        assert(run_from(ProducerState::Done, outcomes.drop_first(), (pulls - 1) as nat).0
            =~= Seq::<DeserializeResult>::empty());
        assert(seq![outcomes[0]] + Seq::<DeserializeResult>::empty() =~= stream);
    } else {
        let rest = outcomes.drop_first();
        lemma_run(rest, (pulls - 1) as nat);
        if pulls < stream.len() {
            assert(seq![outcomes[0]] + stream_of(rest).take(pulls - 1) =~= stream.take(
                pulls as int,
            ));
        }
    }
}

/// The stream of a list without failures is the list.
pub proof fn lemma_stream_of_all_ok(records: Seq<MyJson>)
    ensures
        stream_of(all_ok(records)) == all_ok(records),
    decreases records.len(),
{
    if records.len() > 0 {
        lemma_stream_of_all_ok(records.drop_first());
        assert(all_ok(records).drop_first() =~= all_ok(records.drop_first()));
        assert(seq![all_ok(records)[0]] + all_ok(records.drop_first()) =~= all_ok(records));
    }
}

/// The stream of a list ends with its first failure: what stands after it in
/// the list is not in the stream.
pub proof fn lemma_stream_ends_at_failure(
    before: Seq<MyJson>,
    message: String,
    after: Seq<DeserializeResult>,
)
    ensures
        stream_of(all_ok(before) + seq![Err::<MyJson, String>(message)] + after) == all_ok(before)
            + seq![Err::<MyJson, String>(message)],
    decreases before.len(),
{
    let failure = seq![Err::<MyJson, String>(message)];
    let list = all_ok(before) + failure + after;
    if before.len() == 0 {
        assert(list[0] == Err::<MyJson, String>(message));
        assert(all_ok(before) + failure =~= seq![list[0]]);
    } else {
        lemma_stream_ends_at_failure(before.drop_first(), message, after);
        assert(list.drop_first() =~= all_ok(before.drop_first()) + failure + after);
        assert(list[0] == all_ok(before)[0]);
        assert(seq![list[0]] + (all_ok(before.drop_first()) + failure) =~= all_ok(before)
            + failure);
    }
}

/// Ordering: a consumer that pulls often enough is handed every element of a
/// list without failures, each once and in the order of the list.
pub proof fn lemma_ordering(records: Seq<MyJson>, pulls: nat)
    requires
        pulls >= records.len(),
    ensures
        run_from(ProducerState::Parsing, all_ok(records), pulls).0 == all_ok(records),
{
    lemma_run(all_ok(records), pulls);
    lemma_stream_of_all_ok(records);
}

/// Early disconnect: a consumer that goes away after `pulls` records has been
/// handed the first `pulls` records of the stream, and the producer has
/// stopped for good.
pub proof fn lemma_early_disconnect(outcomes: Seq<DeserializeResult>, pulls: nat)
    requires
        pulls < stream_of(outcomes).len(),
    ensures
        run_from(ProducerState::Parsing, outcomes, pulls).0 == stream_of(outcomes).take(
            pulls as int,
        ),
        run_from(ProducerState::Parsing, outcomes, pulls).1 == ProducerState::Done,
{
    lemma_run(outcomes, pulls);
}

/// Single terminal error: of a list with a failure the consumer is handed
/// the elements before the failure, then the failure, and nothing of what
/// stands after it.
pub proof fn lemma_single_terminal_error(
    before: Seq<MyJson>,
    message: String,
    after: Seq<DeserializeResult>,
    pulls: nat,
)
    requires
        pulls > before.len(),
    ensures
        run_from(
            ProducerState::Parsing,
            all_ok(before) + seq![Err::<MyJson, String>(message)] + after,
            pulls,
        ).0 == all_ok(before) + seq![Err::<MyJson, String>(message)],
{
    lemma_run(all_ok(before) + seq![Err::<MyJson, String>(message)] + after, pulls);
    lemma_stream_ends_at_failure(before, message, after);
}

} // verus!

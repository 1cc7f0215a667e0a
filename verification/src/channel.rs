//! The control channel to the driver.
//!
//! The driver creates its endpoint some time after its service has started,
//! so opening the endpoint is retried a bounded number of times, with a
//! growing pause before each new attempt. Once the channel is open, each
//! operation is one exchange: a request goes out under an operation code, and
//! the driver writes its answer into a buffer of a given capacity and reports
//! how many bytes it wrote.

use vstd::prelude::*;
use crate::error::Error;
use crate::outcome::Outcome;
use crate::protocol::Opcode;

verus! {

/// The rights to read and to write, asked for when the endpoint is opened.
pub const ENDPOINT_ACCESS: u32 = 0x8000_0000 | 0x4000_0000;

/// How often opening the endpoint is attempted before giving up.
pub const MAX_OPEN_ATTEMPTS: u32 = 10;

/// The pause before the second attempt, in milliseconds.
pub const FIRST_BACKOFF_MS: u32 = 10;

/// The longest pause before an attempt, in milliseconds.
pub const MAX_BACKOFF_MS: u32 = 1000;

/// The pause before the next attempt after `failed` failed ones: none before
/// the first attempt, then [`FIRST_BACKOFF_MS`], doubling with each further
/// failure up to [`MAX_BACKOFF_MS`].
pub open spec fn backoff(failed: nat) -> nat
    decreases failed,
{
    if failed == 0 {
        0
    } else if failed == 1 {
        FIRST_BACKOFF_MS as nat
    } else if 2 * backoff((failed - 1) as nat) < MAX_BACKOFF_MS {
        2 * backoff((failed - 1) as nat)
    } else {
        MAX_BACKOFF_MS as nat
    }
}

/// No pause is longer than [`MAX_BACKOFF_MS`], and pauses never shrink.
pub proof fn lemma_backoff_bounded(failed: nat)
    ensures
        backoff(failed) <= MAX_BACKOFF_MS,
        backoff(failed) <= backoff(failed + 1),
    decreases failed,
{
    if failed > 1 {
        lemma_backoff_bounded((failed - 1) as nat);
    }
}

/// The pause before the next attempt after `failed` failed ones, in
/// milliseconds.
pub fn backoff_ms(failed: u32) -> (delay: u32)
    ensures
        delay == backoff(failed as nat),
{
    if failed == 0 {
        return 0;
    }
    let mut delay: u32 = FIRST_BACKOFF_MS;
    let mut i: u32 = 1;
    while i < failed
        invariant
            1 <= i <= failed,
            delay == backoff(i as nat),
            delay <= MAX_BACKOFF_MS,
        decreases failed - i,
    {
        if 2 * delay < MAX_BACKOFF_MS {
            delay = 2 * delay;
        } else {
            delay = MAX_BACKOFF_MS;
        }
        i += 1;
    }
    delay
}

/// The state of a channel.
#[derive(Clone, Copy, Debug, PartialEq, Eq, Structural)]
pub enum ChannelState {
    /// No endpoint is open and none is being opened.
    Closed,
    /// The endpoint is being opened; `failed` attempts have failed so far.
    Opening { failed: u32 },
    /// The endpoint is open.
    Open { handle: u64 },
    /// The endpoint's handle is to be closed.
    Closing { handle: u64 },
    /// The endpoint did not appear within the allowed attempts.
    Unavailable,
}

/// What the caller must do next for the channel.
#[derive(Clone, Copy, Debug, PartialEq, Eq, Structural)]
pub enum ChannelStep {
    /// Wait for `delay_ms` milliseconds, then try to open the existing
    /// endpoint, unshared, asking for `access`.
    Open { delay_ms: u32, access: u32 },
    /// Close the endpoint's handle.
    Close { handle: u64 },
    /// Nothing.
    Idle,
}

impl ChannelState {
    /// The step that the state calls for.
    pub open spec fn step(self) -> ChannelStep {
        match self {
            ChannelState::Opening { failed } => ChannelStep::Open {
                delay_ms: backoff(failed as nat) as u32,
                access: ENDPOINT_ACCESS,
            },
            ChannelState::Closing { handle } => ChannelStep::Close { handle },
            _ => ChannelStep::Idle,
        }
    }

    /// The state after the caller asked for the channel to be opened: a
    /// channel that is neither open nor busy starts with its first attempt.
    pub open spec fn opened(self) -> ChannelState {
        match self {
            ChannelState::Closed | ChannelState::Unavailable => ChannelState::Opening { failed: 0 },
            _ => self,
        }
    }

    /// The state after the pending step ended with `outcome`.
    ///
    /// An attempt that brings a handle opens the channel. One that brings
    /// none is followed by another, unless it was the last that the bound
    /// allows. Closing ends closed, whatever was reported.
    pub open spec fn after(self, outcome: Outcome) -> ChannelState {
        match self {
            ChannelState::Opening { failed } => match outcome.spec_handle() {
                Some(handle) => ChannelState::Open { handle },
                None => if failed + 1 >= MAX_OPEN_ATTEMPTS {
                    ChannelState::Unavailable
                } else {
                    ChannelState::Opening { failed: (failed + 1) as u32 }
                },
            },
            ChannelState::Closing { handle } => ChannelState::Closed,
            _ => self,
        }
    }

    /// The state after the caller asked for the channel to be closed: an
    /// open channel has its handle closed next, an attempt to open is given
    /// up, and a closed channel stays closed.
    pub open spec fn closed(self) -> ChannelState {
        match self {
            ChannelState::Open { handle } => ChannelState::Closing { handle },
            ChannelState::Opening { failed } => ChannelState::Closed,
            _ => self,
        }
    }

    /// The state after the pending steps ended with `outcomes`, in order.
    pub open spec fn after_all(self, outcomes: Seq<Outcome>) -> ChannelState
        decreases outcomes.len(),
    {
        if outcomes.len() == 0 {
            self
        } else {
            self.after(outcomes[0]).after_all(outcomes.skip(1))
        }
    }

    /// The error that the state stands for, if it stands for one.
    pub open spec fn error(self) -> Option<Error> {
        if self is Unavailable {
            Some(Error::EndpointUnavailable)
        } else {
            None
        }
    }

    /// How many steps are still to come at most before the channel is idle.
    pub open spec fn steps_left(self) -> nat {
        match self {
            ChannelState::Opening { failed } => if failed < MAX_OPEN_ATTEMPTS {
                (MAX_OPEN_ATTEMPTS - failed) as nat
            } else {
                1
            },
            ChannelState::Closing { handle } => 1,
            _ => 0,
        }
    }
}

/// A step is pending exactly while steps are left, and every outcome of a
/// pending step leaves fewer.
pub proof fn lemma_channel_progress(state: ChannelState, outcome: Outcome)
    ensures
        (state.steps_left() == 0) == (state.step() == ChannelStep::Idle),
        state.steps_left() > 0 ==> state.after(outcome).steps_left() < state.steps_left(),
        state.steps_left() == 0 ==> state.after(outcome) == state,
{
}

/// Opening succeeds on the attempt on which the endpoint is there: when
/// `failures` attempts bring no handle and the next one brings `handle`, the
/// channel is open with that handle, provided that the attempt is within the
/// bound.
pub proof fn lemma_open_retry(failures: Seq<Outcome>, handle: u64)
    requires
        handle != 0,
        failures.len() < MAX_OPEN_ATTEMPTS,
        forall|i: int| 0 <= i < failures.len() ==> (#[trigger] failures[i]).spec_handle() is None,
    ensures
        ChannelState::Closed.opened().after_all(failures.push(Outcome::Handle(handle)))
            == (ChannelState::Open { handle }),
{
    lemma_failed_attempts(0, failures);
    lemma_after_all_push(ChannelState::Closed.opened(), failures, Outcome::Handle(handle));
}

/// Opening gives up when the bound is exceeded: when as many attempts as
/// are allowed bring no handle, the endpoint is reported unavailable, and no
/// later outcome changes that.
pub proof fn lemma_open_gives_up(failures: Seq<Outcome>, later: Seq<Outcome>)
    requires
        failures.len() == MAX_OPEN_ATTEMPTS,
        forall|i: int| 0 <= i < failures.len() ==> (#[trigger] failures[i]).spec_handle() is None,
    ensures
        ChannelState::Closed.opened().after_all(failures) == ChannelState::Unavailable,
        ChannelState::Closed.opened().after_all(failures).error() == Some(
            Error::EndpointUnavailable,
        ),
        ChannelState::Closed.opened().after_all(failures + later) == ChannelState::Unavailable,
{
    let start = ChannelState::Closed.opened();
    let most = failures.drop_last();
    lemma_failed_attempts(0, most);
    lemma_after_all_push(start, most, failures.last());
    assert(most.push(failures.last()) =~= failures);
    lemma_after_all_concat(start, failures, later);
    lemma_idle_stays(ChannelState::Unavailable, later);
}

/// Steps taken one after another add up.
pub proof fn lemma_after_all_concat(state: ChannelState, first: Seq<Outcome>, second: Seq<Outcome>)
    ensures
        state.after_all(first + second) == state.after_all(first).after_all(second),
    decreases first.len(),
{
    if first.len() == 0 {
        assert(first + second =~= second);
    } else {
        assert((first + second).skip(1) =~= first.skip(1) + second);
        lemma_after_all_concat(state.after(first[0]), first.skip(1), second);
    }
}

/// One more step after a sequence of steps.
pub proof fn lemma_after_all_push(state: ChannelState, outcomes: Seq<Outcome>, last: Outcome)
    ensures
        state.after_all(outcomes.push(last)) == state.after_all(outcomes).after(last),
{
    let one = seq![last];
    assert(outcomes.push(last) =~= outcomes + one);
    lemma_after_all_concat(state, outcomes, one);
    assert(one.skip(1).len() == 0);
    let end = state.after_all(outcomes);
    assert(end.after(one[0]).after_all(one.skip(1)) == end.after(last));
}

/// An idle channel ignores whatever is reported to it.
pub proof fn lemma_idle_stays(state: ChannelState, outcomes: Seq<Outcome>)
    requires
        state.step() == ChannelStep::Idle,
    ensures
        state.after_all(outcomes) == state,
    decreases outcomes.len(),
{
    if outcomes.len() > 0 {
        lemma_idle_stays(state, outcomes.skip(1));
    }
}

/// Attempts that bring no handle are counted, as long as the bound is not
/// reached.
pub proof fn lemma_failed_attempts(failed: u32, failures: Seq<Outcome>)
    requires
        failed + failures.len() < MAX_OPEN_ATTEMPTS,
        forall|i: int| 0 <= i < failures.len() ==> (#[trigger] failures[i]).spec_handle() is None,
    ensures
        (ChannelState::Opening { failed }).after_all(failures) == (ChannelState::Opening {
            failed: (failed + failures.len()) as u32,
        }),
    decreases failures.len(),
{
    if failures.len() > 0 {
        assert(failures[0].spec_handle() is None);
        let rest = failures.skip(1);
        assert forall|i: int| 0 <= i < rest.len() implies (#[trigger] rest[i]).spec_handle()
            is None by {
            assert(rest[i] == failures[i + 1]);
        }
        lemma_failed_attempts((failed + 1) as u32, rest);
    }
}

/// One exchange to perform: send `request` under `opcode` over the channel's
/// handle, and offer the driver `capacity` bytes for its answer.
#[derive(Debug)]
pub struct Exchange {
    pub handle: u64,
    pub opcode: Opcode,
    pub request: Vec<u8>,
    pub capacity: u32,
}

/// An exchange, as contracts see it.
pub struct ExchangeView {
    pub handle: u64,
    pub opcode: Opcode,
    pub request: Seq<u8>,
    pub capacity: u32,
}

impl View for Exchange {
    type V = ExchangeView;

    open spec fn view(&self) -> ExchangeView {
        ExchangeView {
            handle: self.handle,
            opcode: self.opcode,
            request: self.request@,
            capacity: self.capacity,
        }
    }
}

/// What an exchange brought back: whether the call succeeded, the answer
/// buffer, and how many bytes of it the driver reported as written.
#[derive(Debug)]
pub struct Completion {
    pub succeeded: bool,
    pub buffer: Vec<u8>,
    pub transferred: u32,
}

/// A completion, as contracts see it.
pub struct CompletionView {
    pub succeeded: bool,
    pub buffer: Seq<u8>,
    pub transferred: u32,
}

impl View for Completion {
    type V = CompletionView;

    open spec fn view(&self) -> CompletionView {
        CompletionView {
            succeeded: self.succeeded,
            buffer: self.buffer@,
            transferred: self.transferred,
        }
    }
}

impl CompletionView {
    /// The answer that the completion carries for an exchange of the given
    /// capacity, if the exchange succeeded and the report is sound: the
    /// first `transferred` bytes of the buffer, where `transferred` exceeds
    /// neither the capacity nor the buffer.
    pub open spec fn answer(self, capacity: u32) -> Option<Seq<u8>> {
        if self.succeeded && self.transferred <= capacity && self.transferred <= self.buffer.len() {
            Some(self.buffer.take(self.transferred as int))
        } else {
            None
        }
    }
}

/// A channel to the driver's endpoint.
pub struct ControlChannel {
    device_path: String,
    state: ChannelState,
}

/// A channel, as contracts see it.
pub struct ChannelView {
    pub device_path: Seq<char>,
    pub state: ChannelState,
}

impl View for ControlChannel {
    type V = ChannelView;

    closed spec fn view(&self) -> ChannelView {
        ChannelView { device_path: self.device_path@, state: self.state }
    }
}

impl ControlChannel {
    /// A closed channel to the endpoint at `device_path`.
    pub fn new(device_path: &str) -> (channel: Self)
        ensures
            channel@ == (ChannelView { device_path: device_path@, state: ChannelState::Closed }),
    {
        ControlChannel { device_path: device_path.to_owned(), state: ChannelState::Closed }
    }

    /// The path of the endpoint.
    pub fn device_path(&self) -> (path: &str)
        ensures
            path@ == self@.device_path,
    {
        self.device_path.as_str()
    }

    /// The state of the channel.
    pub fn state(&self) -> (state: ChannelState)
        ensures
            state == self@.state,
    {
        self.state
    }

    /// Whether the channel is open.
    pub open spec fn spec_is_open(&self) -> bool {
        self@.state is Open
    }

    /// Whether the channel is open.
    #[verifier::when_used_as_spec(spec_is_open)]
    pub fn is_open(&self) -> (open: bool)
        ensures
            open == self.spec_is_open(),
    {
        match self.state {
            ChannelState::Open { handle } => true,
            _ => false,
        }
    }

    /// The handle of the endpoint, while the channel is open.
    pub fn handle(&self) -> (handle: Option<u64>)
        ensures
            handle == (match self@.state {
                ChannelState::Open { handle } => Some(handle),
                _ => None,
            }),
    {
        match self.state {
            ChannelState::Open { handle } => Some(handle),
            _ => None,
        }
    }

    /// The error that the channel has run into, if it has.
    pub fn error(&self) -> (error: Option<Error>)
        ensures
            error == self@.state.error(),
    {
        match self.state {
            ChannelState::Unavailable => Some(Error::EndpointUnavailable),
            _ => None,
        }
    }

    /// The step to perform now.
    pub fn step(&self) -> (step: ChannelStep)
        ensures
            step == self@.state.step(),
    {
        match self.state {
            ChannelState::Opening { failed } => ChannelStep::Open {
                delay_ms: backoff_ms(failed),
                access: ENDPOINT_ACCESS,
            },
            ChannelState::Closing { handle } => ChannelStep::Close { handle },
            _ => ChannelStep::Idle,
        }
    }

    /// Asks for the channel to be opened. The attempts then come from
    /// [`step`](Self::step).
    pub fn open(&mut self)
        ensures
            final(self)@ == (ChannelView { state: old(self)@.state.opened(), ..old(self)@ }),
    {
        match self.state {
            ChannelState::Closed | ChannelState::Unavailable => {
                self.state = ChannelState::Opening { failed: 0 };
            },
            _ => {},
        }
    }

    /// Takes in the outcome of the step that [`step`](Self::step) asked
    /// for.
    pub fn advance(&mut self, outcome: &Outcome)
        ensures
            final(self)@ == (ChannelView { state: old(self)@.state.after(*outcome), ..old(self)@ }),
    {
        match self.state {
            ChannelState::Opening { failed } => {
                match outcome.handle() {
                    Some(handle) => {
                        self.state = ChannelState::Open { handle };
                    },
                    None => {
                        if failed >= MAX_OPEN_ATTEMPTS - 1 {
                            self.state = ChannelState::Unavailable;
                        } else {
                            self.state = ChannelState::Opening { failed: failed + 1 };
                        }
                    },
                }
            },
            ChannelState::Closing { handle } => {
                self.state = ChannelState::Closed;
            },
            _ => {},
        }
    }

    /// Asks for the channel to be closed. Asking again changes nothing.
    pub fn close(&mut self)
        ensures
            final(self)@ == (ChannelView { state: old(self)@.state.closed(), ..old(self)@ }),
    {
        match self.state {
            ChannelState::Open { handle } => {
                self.state = ChannelState::Closing { handle };
            },
            ChannelState::Opening { failed } => {
                self.state = ChannelState::Closed;
            },
            _ => {},
        }
    }

    /// The exchange that sends `request` under `opcode` over this channel.
    pub fn issue(&self, opcode: Opcode, request: Vec<u8>, capacity: u32) -> (exchange: Exchange)
        requires
            self.spec_is_open(),
        ensures
            self@.state == (ChannelState::Open { handle: exchange.handle }),
            exchange@.opcode == opcode,
            exchange@.request == request@,
            exchange@.capacity == capacity,
    {
        match self.state {
            ChannelState::Open { handle } => Exchange { handle, opcode, request, capacity },
            _ => Exchange { handle: 0, opcode, request, capacity },
        }
    }

    /// The driver's answer to an exchange of the given capacity, with its
    /// length: as many bytes of the buffer as the driver reported, which may
    /// be none. A call that failed is a [`Error::ChannelError`], and so is a
    /// report of more bytes than the capacity or the buffer can hold; a
    /// successful exchange that transferred nothing is an empty answer.
    pub fn complete(capacity: u32, completion: &Completion) -> (result: Result<
        (Vec<u8>, u32),
        Error,
    >)
        ensures
            match completion@.answer(capacity) {
                Some(bytes) => result matches Ok((data, count)) && data@ == bytes && count
                    == completion.transferred && count == bytes.len(),
                None => result == Err::<(Vec<u8>, u32), Error>(Error::ChannelError),
            },
    {
        if !completion.succeeded || completion.transferred > capacity
            || completion.transferred as usize > completion.buffer.len() {
            return Err(Error::ChannelError);
        }
        let count: usize = completion.transferred as usize;
        let mut data: Vec<u8> = Vec::new();
        let mut i: usize = 0;
        while i < count
            invariant
                i <= count <= completion.buffer@.len(),
                data@ == completion.buffer@.take(i as int),
            decreases count - i,
        {
            data.push(completion.buffer[i]);
            i += 1;
            proof {
                assert(data@ =~= completion.buffer@.take(i as int));
            }
        }
        Ok((data, completion.transferred))
    }
}

} // verus!

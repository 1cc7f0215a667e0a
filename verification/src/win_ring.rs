//! A session with the driver, and the operations that the driver offers.
//!
//! A session brings the driver's service up, opens the channel to it, and
//! takes both down again in the opposite order. While it is ready, each
//! operation of the driver is available in two halves: one that builds the
//! exchange to perform, and one that reads the result out of what the
//! exchange brought back.

use vstd::prelude::*;
use crate::channel::{
    ChannelState, ChannelStep, Completion, CompletionView, ControlChannel, Exchange, ExchangeView,
    MAX_OPEN_ATTEMPTS,
};
use crate::error::Error;
use crate::outcome::Outcome;
use crate::protocol::{
    MemoryRequest, MemoryRequestView, MsrRequest, Opcode, PortInRequest, PortOutRequest, PortWidth,
    MAX_WRITE_LEN,
};
use crate::service::{
    is_absolute_path, lemma_after_progress, lemma_after_wf, lemma_released_wf, DriverService,
    ServiceStep, ServiceView, Stage,
};
use crate::wire::{get_le, le_value, lemma_le_value_bound, pow256};

verus! {

/// The name under which the driver's service is registered.
pub const SERVICE_NAME: &'static str = "WinRing0_1_2_0";

/// Where the driver binary is looked for.
pub const DRIVER_FILE: &'static str = ".\\WinRing0x64.sys";

/// The path of the driver's endpoint.
pub const DEVICE_PATH: &'static str = "\\\\.\\WinRing0_1_2_0";

/// What the caller must do next for the session.
#[derive(Clone, Copy, Debug, PartialEq, Eq, Structural)]
pub enum Step {
    /// Perform a step for the service.
    Service(ServiceStep),
    /// Perform a step for the channel.
    Channel(ChannelStep),
    /// Nothing: the session is ready for operations.
    Ready,
    /// Nothing: the session has ended, or never came up.
    Stopped,
}

/// The state of a session, as contracts see it.
pub struct SessionView {
    pub service: ServiceView,
    pub channel: ChannelState,
    pub device_path: Seq<char>,
}

impl SessionView {
    /// A session that nothing has been done for yet.
    pub open spec fn initial() -> SessionView {
        SessionView {
            service: ServiceView::initial(SERVICE_NAME@, DRIVER_FILE@),
            channel: ChannelState::Closed,
            device_path: DEVICE_PATH@,
        }
    }

    /// The step to perform now: the channel's if it has one, else the
    /// service's.
    pub open spec fn step(self) -> Step {
        if self.channel.step() != ChannelStep::Idle {
            Step::Channel(self.channel.step())
        } else if self.service.step() != ServiceStep::Idle {
            Step::Service(self.service.step())
        } else if self.ready() {
            Step::Ready
        } else {
            Step::Stopped
        }
    }

    /// The service is running and the channel is open.
    pub open spec fn ready(self) -> bool {
        self.service.stage == Stage::Running && self.channel is Open
    }

    /// The state after the pending step ended with `outcome`.
    ///
    /// The channel is opened as soon as the service runs, and the service is
    /// released as soon as the channel has been closed or has been given up.
    pub open spec fn after(self, outcome: Outcome) -> SessionView {
        if self.channel.step() != ChannelStep::Idle {
            let channel = self.channel.after(outcome);
            if channel is Closed || channel is Unavailable {
                SessionView { service: self.service.released(), channel, ..self }
            } else {
                SessionView { channel, ..self }
            }
        } else if self.service.step() != ServiceStep::Idle {
            let service = self.service.after(outcome);
            if service.stage == Stage::Running {
                SessionView { service, channel: self.channel.opened(), ..self }
            } else {
                SessionView { service, ..self }
            }
        } else {
            self
        }
    }

    /// The state after the caller asked for the session to end: the channel
    /// is closed first, and the service is released once the channel holds
    /// no handle.
    pub open spec fn shut_down(self) -> SessionView {
        let channel = self.channel.closed();
        if channel.step() == ChannelStep::Idle {
            SessionView { service: self.service.released(), channel, ..self }
        } else {
            SessionView { channel, ..self }
        }
    }

    /// The state after the pending steps ended with `outcomes`, in order.
    pub open spec fn after_all(self, outcomes: Seq<Outcome>) -> SessionView
        decreases outcomes.len(),
    {
        if outcomes.len() == 0 {
            self
        } else {
            self.after(outcomes[0]).after_all(outcomes.skip(1))
        }
    }

    /// Whether the session is on its way down: the channel is being closed,
    /// or the service is being torn down or has come to its end.
    pub open spec fn ending(self) -> bool {
        self.channel is Closing || self.service.winding_down()
    }

    /// The error that kept the session from coming up, if one did.
    pub open spec fn error(self) -> Option<Error> {
        if self.channel.error() is Some {
            self.channel.error()
        } else {
            self.service.error()
        }
    }

    /// The service holds what its stage accounts for, and the channel is in
    /// use exactly while the service is running.
    pub open spec fn wf(self) -> bool {
        &&& self.service.wf()
        &&& (self.service.stage == Stage::Running) == (self.channel is Opening || self.channel is Open
            || self.channel is Closing)
        &&& (self.channel matches ChannelState::Opening { failed } ==> failed < MAX_OPEN_ATTEMPTS)
    }

    /// How many steps are still to come at most before the session is ready
    /// or has stopped.
    pub open spec fn steps_left(self) -> nat {
        match self.service.stage {
            Stage::Resolve | Stage::Connect | Stage::Register | Stage::Lookup | Stage::Start => {
                self.service.steps_left() + MAX_OPEN_ATTEMPTS as nat + 4
            },
            Stage::Running => match self.channel {
                ChannelState::Open { handle } => 0,
                _ => self.channel.steps_left() + 4,
            },
            _ => self.service.steps_left(),
        }
    }
}

/// A new session holds nothing and asks for the driver binary first.
pub proof fn lemma_session_initial()
    ensures
        SessionView::initial().wf(),
        SessionView::initial().step() == Step::Service(ServiceStep::ResolveBinary),
{
}

/// The channel is never in use unless the service is running: whatever a
/// step reports, and whenever the caller asks for the end, the endpoint is
/// opened only after the service has started and is closed before the
/// service is stopped.
pub proof fn lemma_session_wf(state: SessionView, outcome: Outcome)
    requires
        state.wf(),
    ensures
        state.after(outcome).wf(),
        state.shut_down().wf(),
{
    lemma_after_wf(state.service, outcome);
    lemma_released_wf(state.service);
}

/// A step is pending exactly while steps are left, and every outcome of a
/// pending step leaves fewer: a caller that performs the steps one after
/// another reaches a ready or a stopped session.
pub proof fn lemma_session_progress(state: SessionView, outcome: Outcome)
    requires
        state.wf(),
    ensures
        (state.steps_left() == 0) == (state.step() == Step::Ready || state.step() == Step::Stopped),
        state.steps_left() > 0 ==> state.after(outcome).steps_left() < state.steps_left(),
        state.steps_left() == 0 ==> state.after(outcome) == state,
{
    lemma_after_progress(state.service, outcome);
}

/// Once as many steps have been performed as were left, whatever they
/// reported, the session is ready or has stopped. A session on its way down
/// stays on its way down.
pub proof fn lemma_session_settles(state: SessionView, outcomes: Seq<Outcome>)
    requires
        state.wf(),
        outcomes.len() >= state.steps_left(),
    ensures
        state.after_all(outcomes).wf(),
        state.after_all(outcomes).steps_left() == 0,
        state.ending() ==> state.after_all(outcomes).ending(),
    decreases outcomes.len(),
{
    if outcomes.len() > 0 {
        lemma_session_wf(state, outcomes[0]);
        lemma_session_progress(state, outcomes[0]);
        lemma_session_settles(state.after(outcomes[0]), outcomes.skip(1));
    }
}

/// Every way out releases what was acquired: whenever the caller asks for
/// the end, five steps at most, whatever they report, leave the session
/// stopped, with the channel closed and neither handle of the service held.
pub proof fn lemma_shut_down_completes(state: SessionView, outcomes: Seq<Outcome>)
    requires
        state.wf(),
        outcomes.len() >= 5,
    ensures
        state.shut_down().steps_left() <= 5,
        state.shut_down().after_all(outcomes).step() == Step::Stopped,
        state.shut_down().after_all(outcomes).service.manager is None,
        state.shut_down().after_all(outcomes).service.service is None,
        !(state.shut_down().after_all(outcomes).channel is Open),
        state.shut_down().shut_down() == state.shut_down(),
{
    let down = state.shut_down();
    lemma_session_wf(state, Outcome::Done);
    lemma_session_settles(down, outcomes);
    lemma_session_progress(down.after_all(outcomes), Outcome::Done);
}

/// A session comes up when every step for the service succeeds and the
/// endpoint appears within the allowed attempts: after the binary is
/// resolved to an absolute path, the manager is opened, the service is
/// registered or found, and a start is asked for, any number of failed
/// attempts below the bound followed by one that brings a handle makes the
/// session ready, with that handle as the channel's.
pub proof fn lemma_session_comes_up(
    path: String,
    manager: u64,
    registered: Outcome,
    service: u64,
    started: Outcome,
    failures: Seq<Outcome>,
    endpoint: u64,
)
    requires
        is_absolute_path(path@),
        manager != 0,
        service != 0,
        endpoint != 0,
        failures.len() < MAX_OPEN_ATTEMPTS,
        forall|i: int| 0 <= i < failures.len() ==> (#[trigger] failures[i]).spec_handle() is None,
    ensures
        ({
            let connected = SessionView::initial().after(Outcome::Path(path)).after(
                Outcome::Handle(manager),
            );
            let acquired = if registered.spec_handle() is Some {
                connected.after(registered)
            } else {
                connected.after(registered).after(Outcome::Handle(service))
            };
            let up = acquired.after(started).after_all(failures.push(Outcome::Handle(endpoint)));
            &&& up.ready()
            &&& up.step() == Step::Ready
            &&& up.channel == (ChannelState::Open { handle: endpoint })
            &&& up.service.manager == Some(manager)
            &&& up.service.service == if registered.spec_handle() is Some {
                registered.spec_handle()
            } else {
                Some(service)
            }
            &&& up.error() is None
        }),
{
    let connected = SessionView::initial().after(Outcome::Path(path)).after(
        Outcome::Handle(manager),
    );
    let acquired = if registered.spec_handle() is Some {
        connected.after(registered)
    } else {
        connected.after(registered).after(Outcome::Handle(service))
    };
    let running = acquired.after(started);
    assert(running.service.stage == Stage::Running);
    assert(running.channel == ChannelState::Opening { failed: 0 });
    lemma_session_attempts(running, 0, failures);
    lemma_session_after_all_push(running, failures, Outcome::Handle(endpoint));
}

/// While the service runs, attempts that bring no handle are counted and
/// change nothing else, as long as the bound is not reached.
pub proof fn lemma_session_attempts(state: SessionView, failed: u32, failures: Seq<Outcome>)
    requires
        state.channel == (ChannelState::Opening { failed }),
        failed + failures.len() < MAX_OPEN_ATTEMPTS,
        forall|i: int| 0 <= i < failures.len() ==> (#[trigger] failures[i]).spec_handle() is None,
    ensures
        state.after_all(failures) == (SessionView {
            channel: ChannelState::Opening { failed: (failed + failures.len()) as u32 },
            ..state
        }),
    decreases failures.len(),
{
    if failures.len() > 0 {
        assert(failures[0].spec_handle() is None);
        let rest = failures.skip(1);
        assert forall|i: int| 0 <= i < rest.len() implies (#[trigger] rest[i]).spec_handle()
            is None by {
            assert(rest[i] == failures[i + 1]);
        }
        lemma_session_attempts(state.after(failures[0]), (failed + 1) as u32, rest);
    }
}

/// One more step after a sequence of steps.
pub proof fn lemma_session_after_all_push(state: SessionView, outcomes: Seq<Outcome>, last: Outcome)
    ensures
        state.after_all(outcomes.push(last)) == state.after_all(outcomes).after(last),
    decreases outcomes.len(),
{
    if outcomes.len() == 0 {
        let one = outcomes.push(last);
        assert(one[0] == last);
        assert(one.skip(1).len() == 0);
        assert(state.after(last).after_all(one.skip(1)) == state.after(last));
    } else {
        assert(outcomes.push(last).skip(1) =~= outcomes.skip(1).push(last));
        assert(outcomes.push(last)[0] == outcomes[0]);
        lemma_session_after_all_push(state.after(outcomes[0]), outcomes.skip(1), last);
    }
}

/// A session that has stopped holds no handle.
pub proof fn lemma_stopped_holds_nothing(state: SessionView)
    requires
        state.wf(),
        state.step() == Step::Stopped,
    ensures
        state.service.manager is None,
        state.service.service is None,
        !(state.channel is Open),
{
}

/// A session with the driver: the service that hosts it and the channel to
/// it.
pub struct WinRing0 {
    service: DriverService,
    channel: ControlChannel,
}

impl View for WinRing0 {
    type V = SessionView;

    closed spec fn view(&self) -> SessionView {
        SessionView {
            service: self.service@,
            channel: self.channel@.state,
            device_path: self.channel@.device_path,
        }
    }
}

/// The exchange that reads `count` bytes of physical memory from `address`.
pub open spec fn read_exchange(handle: u64, address: u64, count: u32) -> ExchangeView {
    ExchangeView {
        handle,
        opcode: Opcode::ReadMemory,
        request: MemoryRequestView::read(address, count).wire(),
        capacity: count,
    }
}

/// The exchange that writes `data` to physical memory at `address`.
pub open spec fn write_exchange(handle: u64, address: u64, data: Seq<u8>) -> ExchangeView {
    ExchangeView {
        handle,
        opcode: Opcode::WriteMemory,
        request: MemoryRequestView::write(address, data).wire(),
        capacity: 0,
    }
}

/// The exchange that reads the model-specific register `index`.
pub open spec fn read_msr_exchange(handle: u64, index: u32) -> ExchangeView {
    ExchangeView {
        handle,
        opcode: Opcode::ReadMsr,
        request: (MsrRequest { index, value: 0 }).wire(),
        capacity: 8,
    }
}

/// The exchange that writes `value` to the model-specific register `index`.
pub open spec fn write_msr_exchange(handle: u64, index: u32, value: u64) -> ExchangeView {
    ExchangeView {
        handle,
        opcode: Opcode::WriteMsr,
        request: (MsrRequest { index, value }).wire(),
        capacity: 0,
    }
}

/// The exchange that reads the port `address` at the given width.
pub open spec fn in_exchange(handle: u64, address: u16, width: PortWidth) -> ExchangeView {
    ExchangeView {
        handle,
        opcode: Opcode::spec_port_in(width),
        request: (PortInRequest { address }).wire(),
        capacity: width.spec_bytes() as u32,
    }
}

/// The exchange that writes `value` to the port `address` at the given
/// width.
pub open spec fn out_exchange(handle: u64, address: u16, width: PortWidth, value: u32) -> ExchangeView {
    ExchangeView {
        handle,
        opcode: Opcode::spec_port_out(width),
        request: (PortOutRequest { address, width, value }).wire(),
        capacity: 0,
    }
}

/// What a memory read of `count` bytes returns for a completion: the
/// answer, however short, or an error where there is none.
pub open spec fn read_result(count: u32, completion: CompletionView) -> Result<Seq<u8>, Error> {
    match completion.answer(count) {
        Some(bytes) => Ok(bytes),
        None => Err(Error::ChannelError),
    }
}

/// What an operation that expects a number of exactly `width` bytes returns
/// for a completion: the number that the answer holds, or an error where
/// there is no answer or one of another length.
pub open spec fn number_result(width: nat, completion: CompletionView) -> Result<nat, Error> {
    match completion.answer(width as u32) {
        Some(bytes) => if bytes.len() == width {
            Ok(le_value(bytes))
        } else {
            Err(Error::ChannelError)
        },
        None => Err(Error::ChannelError),
    }
}

/// What an operation that expects no answer returns for a completion.
pub open spec fn empty_result(completion: CompletionView) -> Result<(), Error> {
    match completion.answer(0) {
        Some(bytes) => Ok(()),
        None => Err(Error::ChannelError),
    }
}

impl WinRing0 {
    /// A session that nothing has been done for yet.
    pub fn new() -> (session: Self)
        ensures
            session@ == SessionView::initial(),
    {
        WinRing0 {
            service: DriverService::new(SERVICE_NAME, DRIVER_FILE),
            channel: ControlChannel::new(DEVICE_PATH),
        }
    }

    /// The service that hosts the driver.
    pub fn service(&self) -> (service: &DriverService)
        ensures
            service@ == self@.service,
    {
        &self.service
    }

    /// The channel to the driver.
    pub fn channel(&self) -> (channel: &ControlChannel)
        ensures
            channel@.state == self@.channel,
            channel@.device_path == self@.device_path,
    {
        &self.channel
    }

    /// The step to perform now.
    pub fn step(&self) -> (step: Step)
        ensures
            step == self@.step(),
    {
        let channel_step: ChannelStep = self.channel.step();
        match channel_step {
            ChannelStep::Idle => {},
            _ => {
                return Step::Channel(channel_step);
            },
        }
        let service_step: ServiceStep = self.service.step();
        match service_step {
            ServiceStep::Idle => {},
            _ => {
                return Step::Service(service_step);
            },
        }
        if self.is_ready() {
            Step::Ready
        } else {
            Step::Stopped
        }
    }

    /// Takes in the outcome of the step that [`step`](Self::step) asked
    /// for.
    pub fn advance(&mut self, outcome: Outcome)
        ensures
            final(self)@ == old(self)@.after(outcome),
    {
        match self.channel.step() {
            ChannelStep::Idle => {},
            _ => {
                self.channel.advance(&outcome);
                match self.channel.state() {
                    ChannelState::Closed | ChannelState::Unavailable => {
                        self.service.release();
                    },
                    _ => {},
                }
                return ;
            },
        }
        match self.service.step() {
            ServiceStep::Idle => {},
            _ => {
                self.service.advance(outcome);
                if self.service.is_running() {
                    self.channel.open();
                }
            },
        }
    }

    /// Asks for the session to end. The steps that take it down then come
    /// from [`step`](Self::step). Asking again changes nothing.
    pub fn shut_down(&mut self)
        ensures
            final(self)@ == old(self)@.shut_down(),
    {
        self.channel.close();
        match self.channel.step() {
            ChannelStep::Idle => {
                self.service.release();
            },
            _ => {},
        }
    }

    /// Whether the session is ready for operations.
    pub open spec fn spec_is_ready(&self) -> bool {
        self@.ready()
    }

    /// Whether the session is ready for operations.
    #[verifier::when_used_as_spec(spec_is_ready)]
    pub fn is_ready(&self) -> (ready: bool)
        ensures
            ready == self@.ready(),
    {
        self.service.is_running() && self.channel.is_open()
    }

    /// The error that kept the session from coming up, if one did.
    pub fn error(&self) -> (error: Option<Error>)
        ensures
            error == self@.error(),
    {
        match self.channel.error() {
            Some(error) => Some(error),
            None => self.service.error(),
        }
    }

    /// The handle of the open channel.
    pub open spec fn spec_handle(&self) -> u64
        recommends
            self@.channel is Open,
    {
        self@.channel->Open_handle
    }

    /// The exchange that reads `count` bytes of physical memory from
    /// `address`. The driver may answer with fewer.
    pub fn read(&self, address: u64, count: u32) -> (exchange: Exchange)
        requires
            self.is_ready(),
        ensures
            exchange@ == read_exchange(self.spec_handle(), address, count),
    {
        let request: MemoryRequest = MemoryRequest::read(address, count);
        self.channel.issue(Opcode::ReadMemory, request.encode(), count)
    }

    /// The bytes that a memory read of `count` bytes brought back: as many
    /// as the driver reported, which may be fewer than `count`.
    pub fn read_reply(count: u32, completion: &Completion) -> (result: Result<Vec<u8>, Error>)
        ensures
            match result {
                Ok(data) => read_result(count, completion@) == Ok::<Seq<u8>, Error>(data@)
                    && data@.len() == completion.transferred,
                Err(error) => read_result(count, completion@) == Err::<Seq<u8>, Error>(error),
            },
    {
        match ControlChannel::complete(count, completion) {
            Ok((data, transferred)) => Ok(data),
            Err(error) => Err(error),
        }
    }

    /// The exchange that writes `data` to physical memory at `address`.
    pub fn write(&self, address: u64, data: &[u8]) -> (exchange: Exchange)
        requires
            self.is_ready(),
            data@.len() <= MAX_WRITE_LEN,
        ensures
            exchange@ == write_exchange(self.spec_handle(), address, data@),
    {
        let request: MemoryRequest = MemoryRequest::write(address, data);
        self.channel.issue(Opcode::WriteMemory, request.encode(), 0)
    }

    /// Whether a memory write went through.
    pub fn write_reply(completion: &Completion) -> (result: Result<(), Error>)
        ensures
            result == empty_result(completion@),
    {
        Self::acknowledge(completion)
    }

    /// The exchange that reads the model-specific register `index`.
    pub fn read_msr(&self, index: u32) -> (exchange: Exchange)
        requires
            self.is_ready(),
        ensures
            exchange@ == read_msr_exchange(self.spec_handle(), index),
    {
        let request: MsrRequest = MsrRequest { index, value: 0 };
        self.channel.issue(Opcode::ReadMsr, request.encode(), 8)
    }

    /// The value that an MSR read brought back. The answer must have
    /// exactly eight bytes.
    pub fn read_msr_reply(completion: &Completion) -> (result: Result<u64, Error>)
        ensures
            match result {
                Ok(value) => number_result(8, completion@) == Ok::<nat, Error>(value as nat),
                Err(error) => number_result(8, completion@) == Err::<nat, Error>(error),
            },
    {
        Self::number(8, completion)
    }

    /// The exchange that writes `value` to the model-specific register
    /// `index`.
    pub fn write_msr(&self, index: u32, value: u64) -> (exchange: Exchange)
        requires
            self.is_ready(),
        ensures
            exchange@ == write_msr_exchange(self.spec_handle(), index, value),
    {
        let request: MsrRequest = MsrRequest { index, value };
        self.channel.issue(Opcode::WriteMsr, request.encode(), 0)
    }

    /// Whether an MSR write went through.
    pub fn write_msr_reply(completion: &Completion) -> (result: Result<(), Error>)
        ensures
            result == empty_result(completion@),
    {
        Self::acknowledge(completion)
    }

    /// The exchange that reads the port `address` at the given width.
    pub fn generic_in(&self, address: u16, width: PortWidth) -> (exchange: Exchange)
        requires
            self.is_ready(),
        ensures
            exchange@ == in_exchange(self.spec_handle(), address, width),
    {
        let request: PortInRequest = PortInRequest { address };
        self.channel.issue(Opcode::port_in(width), request.encode(), width.bytes() as u32)
    }

    /// The value that a port read of the given width brought back. The
    /// answer must have exactly as many bytes as the width.
    pub fn generic_in_reply(width: PortWidth, completion: &Completion) -> (result: Result<
        u32,
        Error,
    >)
        ensures
            match result {
                Ok(value) => number_result(width.spec_bytes() as nat, completion@) == Ok::<
                    nat,
                    Error,
                >(value as nat) && value <= width.spec_max(),
                Err(error) => number_result(width.spec_bytes() as nat, completion@) == Err::<
                    nat,
                    Error,
                >(error),
            },
    {
        let max: u32 = width.max();
        match Self::number(width.bytes(), completion) {
            Ok(value) => Ok(value as u32),
            Err(error) => Err(error),
        }
    }

    /// The exchange that reads a byte from the port `address`.
    pub fn in8(&self, address: u16) -> (exchange: Exchange)
        requires
            self.is_ready(),
        ensures
            exchange@ == in_exchange(self.spec_handle(), address, PortWidth::Byte),
    {
        self.generic_in(address, PortWidth::Byte)
    }

    /// The byte that a port read brought back.
    pub fn in8_reply(completion: &Completion) -> (result: Result<u8, Error>)
        ensures
            match result {
                Ok(value) => number_result(1, completion@) == Ok::<nat, Error>(value as nat),
                Err(error) => number_result(1, completion@) == Err::<nat, Error>(error),
            },
    {
        match Self::generic_in_reply(PortWidth::Byte, completion) {
            Ok(value) => Ok(value as u8),
            Err(error) => Err(error),
        }
    }

    /// The exchange that reads a word from the port `address`.
    pub fn in16(&self, address: u16) -> (exchange: Exchange)
        requires
            self.is_ready(),
        ensures
            exchange@ == in_exchange(self.spec_handle(), address, PortWidth::Word),
    {
        self.generic_in(address, PortWidth::Word)
    }

    /// The word that a port read brought back.
    pub fn in16_reply(completion: &Completion) -> (result: Result<u16, Error>)
        ensures
            match result {
                Ok(value) => number_result(2, completion@) == Ok::<nat, Error>(value as nat),
                Err(error) => number_result(2, completion@) == Err::<nat, Error>(error),
            },
    {
        match Self::generic_in_reply(PortWidth::Word, completion) {
            Ok(value) => Ok(value as u16),
            Err(error) => Err(error),
        }
    }

    /// The exchange that reads a double word from the port `address`.
    pub fn in32(&self, address: u16) -> (exchange: Exchange)
        requires
            self.is_ready(),
        ensures
            exchange@ == in_exchange(self.spec_handle(), address, PortWidth::Dword),
    {
        self.generic_in(address, PortWidth::Dword)
    }

    /// The double word that a port read brought back.
    pub fn in32_reply(completion: &Completion) -> (result: Result<u32, Error>)
        ensures
            match result {
                Ok(value) => number_result(4, completion@) == Ok::<nat, Error>(value as nat),
                Err(error) => number_result(4, completion@) == Err::<nat, Error>(error),
            },
    {
        Self::generic_in_reply(PortWidth::Dword, completion)
    }

    /// The exchange that writes `value` to the port `address` at the given
    /// width.
    pub fn generic_out(&self, address: u16, width: PortWidth, value: u32) -> (exchange: Exchange)
        requires
            self.is_ready(),
            value <= width.spec_max(),
        ensures
            exchange@ == out_exchange(self.spec_handle(), address, width, value),
    {
        let request: PortOutRequest = PortOutRequest { address, width, value };
        self.channel.issue(Opcode::port_out(width), request.encode(), 0)
    }

    /// The exchange that writes the byte `value` to the port `address`.
    pub fn out8(&self, address: u16, value: u8) -> (exchange: Exchange)
        requires
            self.is_ready(),
        ensures
            exchange@ == out_exchange(self.spec_handle(), address, PortWidth::Byte, value as u32),
    {
        self.generic_out(address, PortWidth::Byte, value as u32)
    }

    /// The exchange that writes the word `value` to the port `address`.
    pub fn out16(&self, address: u16, value: u16) -> (exchange: Exchange)
        requires
            self.is_ready(),
        ensures
            exchange@ == out_exchange(self.spec_handle(), address, PortWidth::Word, value as u32),
    {
        self.generic_out(address, PortWidth::Word, value as u32)
    }

    /// The exchange that writes the double word `value` to the port
    /// `address`.
    pub fn out32(&self, address: u16, value: u32) -> (exchange: Exchange)
        requires
            self.is_ready(),
        ensures
            exchange@ == out_exchange(self.spec_handle(), address, PortWidth::Dword, value),
    {
        self.generic_out(address, PortWidth::Dword, value)
    }

    /// Whether a port write went through.
    pub fn out_reply(completion: &Completion) -> (result: Result<(), Error>)
        ensures
            result == empty_result(completion@),
    {
        Self::acknowledge(completion)
    }

    fn acknowledge(completion: &Completion) -> (result: Result<(), Error>)
        ensures
            result == empty_result(completion@),
    {
        match ControlChannel::complete(0, completion) {
            Ok((data, transferred)) => Ok(()),
            Err(error) => Err(error),
        }
    }

    fn number(width: usize, completion: &Completion) -> (result: Result<u64, Error>)
        requires
            width <= 8,
        ensures
            match result {
                Ok(value) => number_result(width as nat, completion@) == Ok::<nat, Error>(
                    value as nat,
                ) && value < pow256(width as nat),
                Err(error) => number_result(width as nat, completion@) == Err::<nat, Error>(error),
            },
    {
        match ControlChannel::complete(width as u32, completion) {
            Ok((data, transferred)) => {
                if data.len() != width {
                    return Err(Error::ChannelError);
                }
                proof {
                    assert(data@.subrange(0, width as int) =~= data@);
                    lemma_le_value_bound(data@);
                }
                Ok(get_le(data.as_slice(), 0, width))
            },
            Err(error) => Err(error),
        }
    }
}

} // verus!

//! The lifecycle of the service that hosts the driver.
//!
//! Acquiring the service takes up to five steps: resolve the driver binary,
//! connect to the service manager, register the service, fall back to the
//! existing registration when registering fails, and start it. Releasing it
//! takes four: stop, delete, and close the two handles. [`DriverService`]
//! keeps track of where in this sequence a session stands and of the handles
//! it holds, and decides after each step what comes next.

use vstd::prelude::*;
use crate::error::Error;
use crate::outcome::Outcome;

verus! {

/// The right to create services, asked of the service manager.
pub const MANAGER_ACCESS: u32 = 0x0002;

/// The rights to start, to stop and to delete the service.
pub const SERVICE_ACCESS: u32 = 0x0010 | 0x0020 | 0x0001_0000;

/// The kind of service that a kernel driver is.
pub const KERNEL_DRIVER: u32 = 1;

/// The start type of a service that is started only on request.
pub const DEMAND_START: u32 = 3;

/// The error control of a service whose start-up errors are ignored.
pub const ERROR_IGNORE: u32 = 0;

/// The control that stops a service.
pub const CONTROL_STOP: u32 = 1;

/// What the caller must do next for the service. Each step names the
/// handles it works on and the rights and settings to ask for; the names of
/// the service and of the driver binary are the service's own.
#[derive(Clone, Copy, Debug, PartialEq, Eq, Structural)]
pub enum ServiceStep {
    /// Resolve the driver binary to the absolute path of an existing file.
    ResolveBinary,
    /// Connect to the service manager, asking for `access`.
    OpenManager { access: u32 },
    /// Register the driver binary under the service's name with the given
    /// type, start type and error control, asking for `access` to it.
    CreateService {
        manager: u64,
        access: u32,
        service_type: u32,
        start_type: u32,
        error_control: u32,
    },
    /// Open the existing registration by name, asking for `access` to it.
    OpenService { manager: u64, access: u32 },
    /// Ask the system to start the service.
    StartService { service: u64 },
    /// Send the service the given control, which stops it.
    StopService { service: u64, control: u32 },
    /// Mark the service for deletion.
    DeleteService { service: u64 },
    /// Close the handle to the service.
    CloseService { service: u64 },
    /// Close the connection to the service manager.
    CloseManager { manager: u64 },
    /// Nothing: the service is running, has failed or has been released.
    Idle,
}

/// The handle held, or 0 where none is.
pub open spec fn held(handle: Option<u64>) -> u64 {
    match handle {
        Some(h) => h,
        None => 0,
    }
}

/// A teardown step that failed. Such failures are recorded and never stop
/// the teardown.
#[derive(Clone, Copy, Debug, PartialEq, Eq, Structural)]
pub enum TeardownWarning {
    /// The stop control was refused, for instance because the service was
    /// not running.
    StopFailed,
    /// The service could not be marked for deletion.
    DeleteFailed,
    /// The handle to the service could not be closed.
    CloseServiceFailed,
    /// The connection to the service manager could not be closed.
    CloseManagerFailed,
}

/// Where in its lifecycle a service stands.
#[derive(Clone, Copy, Debug, PartialEq, Eq, Structural)]
pub enum Stage {
    /// The driver binary is to be resolved.
    Resolve,
    /// The service manager is to be opened.
    Connect,
    /// The service is to be registered.
    Register,
    /// Registering failed; the existing registration is to be opened.
    Lookup,
    /// The service is to be started.
    Start,
    /// The service has been acquired.
    Running,
    /// The service is to be stopped.
    Stop,
    /// The service is to be deleted.
    Delete,
    /// The service handle is to be closed.
    Close,
    /// The manager connection is to be closed, which ends the release.
    Disconnect,
    /// Acquiring failed with the manager connected; the connection is to be
    /// closed before the failure is reported.
    Abandon(Error),
    /// Acquiring failed; nothing is held.
    Failed(Error),
    /// The service was released; nothing is held.
    Released,
}

/// A character that separates the components of a path.
pub open spec fn is_separator(c: char) -> bool {
    c == '\\' || c == '/'
}

/// A character that can name a drive.
pub open spec fn is_drive_letter(c: char) -> bool {
    ('a' as u32 <= c as u32 && c as u32 <= 'z' as u32) || ('A' as u32 <= c as u32 && c as u32
        <= 'Z' as u32)
}

/// Whether `path` is absolute: a drive, a colon and a separator, or two
/// leading separators (a network or verbatim path), and in either case
/// something after them or the root itself.
pub open spec fn is_absolute_path(path: Seq<char>) -> bool {
    path.len() >= 3 && ((is_drive_letter(path[0]) && path[1] == ':' && is_separator(path[2])) || (
    is_separator(path[0]) && is_separator(path[1])))
}

/// Decides whether `path` is absolute.
pub fn is_absolute(path: &str) -> (absolute: bool)
    ensures
        absolute == is_absolute_path(path@),
{
    if path.unicode_len() < 3 {
        return false;
    }
    let first: char = path.get_char(0);
    let second: char = path.get_char(1);
    let third: char = path.get_char(2);
    let first_code: u32 = first as u32;
    let letter: bool = (0x61 <= first_code && first_code <= 0x7a) || (0x41 <= first_code
        && first_code <= 0x5a);
    let drive: bool = letter && second == ':' && (third == '\\' || third == '/');
    let network: bool = (first == '\\' || first == '/') && (second == '\\' || second == '/');
    drive || network
}

/// The error that a step's failure stands for where a handle was asked for
/// and none came: a refusal for want of rights is
/// [`Error::PermissionDenied`], anything else is
/// [`Error::ServiceUnavailable`].
pub open spec fn failure(outcome: Outcome) -> Error {
    if outcome is Denied {
        Error::PermissionDenied
    } else {
        Error::ServiceUnavailable
    }
}

fn failure_of(outcome: &Outcome) -> (error: Error)
    ensures
        error == failure(*outcome),
{
    match outcome {
        Outcome::Denied => Error::PermissionDenied,
        _ => Error::ServiceUnavailable,
    }
}

/// The state of a service, as contracts see it.
pub struct ServiceView {
    pub name: Seq<char>,
    pub driver_path: Seq<char>,
    pub stage: Stage,
    pub manager: Option<u64>,
    pub service: Option<u64>,
    pub warnings: Seq<TeardownWarning>,
}

impl ServiceView {
    /// A service that nothing has been done for yet.
    pub open spec fn initial(name: Seq<char>, driver_path: Seq<char>) -> ServiceView {
        ServiceView {
            name,
            driver_path,
            stage: Stage::Resolve,
            manager: None,
            service: None,
            warnings: Seq::empty(),
        }
    }

    /// The step that the stage calls for.
    pub open spec fn step(self) -> ServiceStep {
        match self.stage {
            Stage::Resolve => ServiceStep::ResolveBinary,
            Stage::Connect => ServiceStep::OpenManager { access: MANAGER_ACCESS },
            Stage::Register => ServiceStep::CreateService {
                manager: held(self.manager),
                access: SERVICE_ACCESS,
                service_type: KERNEL_DRIVER,
                start_type: DEMAND_START,
                error_control: ERROR_IGNORE,
            },
            Stage::Lookup => ServiceStep::OpenService {
                manager: held(self.manager),
                access: SERVICE_ACCESS,
            },
            Stage::Start => ServiceStep::StartService { service: held(self.service) },
            Stage::Stop => ServiceStep::StopService {
                service: held(self.service),
                control: CONTROL_STOP,
            },
            Stage::Delete => ServiceStep::DeleteService { service: held(self.service) },
            Stage::Close => ServiceStep::CloseService { service: held(self.service) },
            Stage::Disconnect | Stage::Abandon(_) => ServiceStep::CloseManager {
                manager: held(self.manager),
            },
            Stage::Running | Stage::Failed(_) | Stage::Released => ServiceStep::Idle,
        }
    }

    /// The warnings after a teardown step with the given outcome: a step
    /// that did not report `Done` adds `warning`.
    pub open spec fn noted(self, outcome: Outcome, warning: TeardownWarning) -> Seq<
        TeardownWarning,
    > {
        if outcome is Done {
            self.warnings
        } else {
            self.warnings.push(warning)
        }
    }

    /// The state after the pending step ended with `outcome`.
    ///
    /// While acquiring: a binary that does not resolve to an absolute path
    /// is [`Error::BinaryNotFound`]; a manager that refuses for want of
    /// rights is [`Error::PermissionDenied`], one that cannot be reached is
    /// [`Error::ServiceUnavailable`]; a registration that fails, for
    /// whatever reason, is followed by a lookup of the existing one; a
    /// lookup that fails is [`Error::PermissionDenied`] if rights were
    /// wanting and [`Error::ServiceUnavailable`] otherwise, reported once
    /// the manager has been closed again; and a start request that fails is
    /// no failure, since the service may be running already.
    ///
    /// While releasing: every step is followed by the next, and one that
    /// did not succeed leaves a warning.
    pub open spec fn after(self, outcome: Outcome) -> ServiceView {
        match self.stage {
            Stage::Resolve => match outcome {
                Outcome::Path(path) => if is_absolute_path(path@) {
                    ServiceView { stage: Stage::Connect, driver_path: path@, ..self }
                } else {
                    ServiceView { stage: Stage::Failed(Error::BinaryNotFound), ..self }
                },
                _ => ServiceView { stage: Stage::Failed(Error::BinaryNotFound), ..self },
            },
            Stage::Connect => match outcome.spec_handle() {
                Some(handle) => ServiceView {
                    stage: Stage::Register,
                    manager: Some(handle),
                    ..self
                },
                None => ServiceView { stage: Stage::Failed(failure(outcome)), ..self },
            },
            Stage::Register => match outcome.spec_handle() {
                Some(handle) => ServiceView { stage: Stage::Start, service: Some(handle), ..self },
                None => ServiceView { stage: Stage::Lookup, ..self },
            },
            Stage::Lookup => match outcome.spec_handle() {
                Some(handle) => ServiceView { stage: Stage::Start, service: Some(handle), ..self },
                None => ServiceView { stage: Stage::Abandon(failure(outcome)), ..self },
            },
            Stage::Start => ServiceView { stage: Stage::Running, ..self },
            Stage::Stop => ServiceView {
                stage: Stage::Delete,
                warnings: self.noted(outcome, TeardownWarning::StopFailed),
                ..self
            },
            Stage::Delete => ServiceView {
                stage: Stage::Close,
                warnings: self.noted(outcome, TeardownWarning::DeleteFailed),
                ..self
            },
            Stage::Close => ServiceView {
                stage: Stage::Disconnect,
                service: None,
                warnings: self.noted(outcome, TeardownWarning::CloseServiceFailed),
                ..self
            },
            Stage::Disconnect => ServiceView {
                stage: Stage::Released,
                manager: None,
                warnings: self.noted(outcome, TeardownWarning::CloseManagerFailed),
                ..self
            },
            Stage::Abandon(error) => ServiceView {
                stage: Stage::Failed(error),
                manager: None,
                warnings: self.noted(outcome, TeardownWarning::CloseManagerFailed),
                ..self
            },
            Stage::Running | Stage::Failed(_) | Stage::Released => self,
        }
    }

    /// Whether a teardown is under way.
    pub open spec fn tearing_down(self) -> bool {
        match self.stage {
            Stage::Stop | Stage::Delete | Stage::Close | Stage::Disconnect | Stage::Abandon(_) => true,
            _ => false,
        }
    }

    /// The state after the caller asked for the service to be released.
    ///
    /// Whether the service is being torn down or has come to its end: no
    /// stage from here on acquires anything.
    pub open spec fn winding_down(self) -> bool {
        self.tearing_down() || self.stage is Failed || self.stage is Released
    }

    /// A teardown that is under way goes on undisturbed, and a service that
    /// failed or was released stays as it is. Otherwise the teardown starts
    /// with the first step that what is held calls for; with nothing held,
    /// the service counts as released at once.
    pub open spec fn released(self) -> ServiceView {
        if self.winding_down() {
            self
        } else if self.service is Some {
            ServiceView { stage: Stage::Stop, ..self }
        } else if self.manager is Some {
            ServiceView { stage: Stage::Disconnect, ..self }
        } else {
            ServiceView { stage: Stage::Released, ..self }
        }
    }

    /// The state after the pending steps ended with `outcomes`, in order.
    pub open spec fn after_all(self, outcomes: Seq<Outcome>) -> ServiceView
        decreases outcomes.len(),
    {
        if outcomes.len() == 0 {
            self
        } else {
            self.after(outcomes[0]).after_all(outcomes.skip(1))
        }
    }

    /// The handles held are those that the stage accounts for, and none of
    /// them is 0.
    pub open spec fn wf(self) -> bool {
        &&& self.manager != Some(0u64)
        &&& self.service != Some(0u64)
        &&& match self.stage {
            Stage::Resolve | Stage::Connect | Stage::Failed(_) | Stage::Released => {
                self.manager is None && self.service is None
            },
            Stage::Register | Stage::Lookup | Stage::Abandon(_) | Stage::Disconnect => {
                self.manager is Some && self.service is None
            },
            Stage::Start | Stage::Running | Stage::Stop | Stage::Delete | Stage::Close => {
                self.manager is Some && self.service is Some
            },
        }
    }

    /// The error that ended the acquisition, if one did.
    pub open spec fn error(self) -> Option<Error> {
        match self.stage {
            Stage::Failed(error) => Some(error),
            Stage::Abandon(error) => Some(error),
            _ => None,
        }
    }

    /// How many steps are still to come at most before the service is idle,
    /// if nobody asks for a release in between.
    pub open spec fn steps_left(self) -> nat {
        match self.stage {
            Stage::Resolve => 5,
            Stage::Connect => 4,
            Stage::Register => 3,
            Stage::Lookup => 2,
            Stage::Start => 1,
            Stage::Stop => 4,
            Stage::Delete => 3,
            Stage::Close => 2,
            Stage::Disconnect => 1,
            Stage::Abandon(_) => 1,
            Stage::Running | Stage::Failed(_) | Stage::Released => 0,
        }
    }
}

/// A new service holds nothing.
pub proof fn lemma_initial_wf(name: Seq<char>, driver_path: Seq<char>)
    ensures
        ServiceView::initial(name, driver_path).wf(),
{
}

/// Whatever a step reports, the handles held afterwards are those that the
/// new stage accounts for; in particular a service that is idle without
/// running holds nothing.
pub proof fn lemma_after_wf(state: ServiceView, outcome: Outcome)
    requires
        state.wf(),
    ensures
        state.after(outcome).wf(),
{
}

/// The handles that a step names are handles held: a step for the service
/// names the service's handle, and a step for the manager or through it
/// names the manager's.
pub proof fn lemma_step_handles(state: ServiceView)
    requires
        state.wf(),
    ensures
        match state.step() {
            ServiceStep::CreateService { manager, .. } => state.manager == Some(manager),
            ServiceStep::OpenService { manager, .. } => state.manager == Some(manager),
            ServiceStep::CloseManager { manager } => state.manager == Some(manager),
            ServiceStep::StartService { service } => state.service == Some(service),
            ServiceStep::StopService { service, .. } => state.service == Some(service),
            ServiceStep::DeleteService { service } => state.service == Some(service),
            ServiceStep::CloseService { service } => state.service == Some(service),
            _ => true,
        },
{
}

/// Asking for a release keeps the handles accounted for.
pub proof fn lemma_released_wf(state: ServiceView)
    requires
        state.wf(),
    ensures
        state.released().wf(),
{
}

/// Asking for a release twice is the same as asking once.
pub proof fn lemma_release_idempotent(state: ServiceView)
    ensures
        state.released().released() == state.released(),
{
}

/// A step is pending exactly while steps are left, and every outcome of a
/// pending step leaves fewer.
pub proof fn lemma_after_progress(state: ServiceView, outcome: Outcome)
    ensures
        (state.steps_left() == 0) == (state.step() == ServiceStep::Idle),
        state.steps_left() > 0 ==> state.after(outcome).steps_left() < state.steps_left(),
        state.steps_left() == 0 ==> state.after(outcome) == state,
{
}

/// Once as many steps have been performed as were left, whatever they
/// reported, the service is idle.
pub proof fn lemma_after_all_idle(state: ServiceView, outcomes: Seq<Outcome>)
    requires
        outcomes.len() >= state.steps_left(),
    ensures
        state.after_all(outcomes).step() == ServiceStep::Idle,
        state.wf() ==> state.after_all(outcomes).wf(),
        state.winding_down() ==> state.after_all(outcomes).winding_down(),
    decreases outcomes.len(),
{
    if outcomes.len() > 0 {
        lemma_after_progress(state, outcomes[0]);
        if state.wf() {
            lemma_after_wf(state, outcomes[0]);
        }
        lemma_after_all_idle(state.after(outcomes[0]), outcomes.skip(1));
    } else {
        lemma_after_progress(state, Outcome::Done);
    }
}

/// A teardown never aborts and never reports an error: from a running
/// service, a release followed by its four steps ends with the service
/// released and nothing held, whatever the steps reported. Each step that
/// did not succeed has left exactly one warning.
pub proof fn lemma_teardown_completes(state: ServiceView, outcomes: Seq<Outcome>)
    requires
        state.wf(),
        state.stage == Stage::Running,
        outcomes.len() == 4,
    ensures
        state.released().step() is StopService,
        state.released().after_all(outcomes).stage == Stage::Released,
        state.released().after_all(outcomes).manager is None,
        state.released().after_all(outcomes).service is None,
        state.released().after_all(outcomes).error() is None,
        state.released().after_all(outcomes).warnings.len() == state.warnings.len()
            + outcomes.filter(|o: Outcome| !(o is Done)).len(),
{
    let s0 = state.released();
    let s1 = s0.after(outcomes[0]);
    let s2 = s1.after(outcomes[1]);
    let s3 = s2.after(outcomes[2]);
    let s4 = s3.after(outcomes[3]);
    let r1 = outcomes.skip(1);
    let r2 = r1.skip(1);
    let r3 = r2.skip(1);
    let r4 = r3.skip(1);
    assert(r1[0] == outcomes[1] && r2[0] == outcomes[2] && r3[0] == outcomes[3]);
    assert(r4.len() == 0);
    assert(s4.after_all(r4) == s4);
    assert(s3.after_all(r3) == s4);
    assert(s2.after_all(r2) == s4);
    assert(s1.after_all(r1) == s4);
    assert(s0.after_all(outcomes) == s4);
    reveal_with_fuel(Seq::filter, 5);
    assert(outcomes.drop_last().drop_last().drop_last().drop_last() =~= Seq::empty());
}

/// Releasing a service a second time, after the first release has run its
/// course, asks for no step, changes nothing and reports nothing.
pub proof fn lemma_second_release_silent(state: ServiceView, outcomes: Seq<Outcome>)
    requires
        state.wf(),
        outcomes.len() >= 4,
    ensures
        state.released().after_all(outcomes).released() == state.released().after_all(outcomes),
        state.released().after_all(outcomes).step() == ServiceStep::Idle,
        state.released().after_all(outcomes).manager is None,
        state.released().after_all(outcomes).service is None,
{
    let first = state.released();
    lemma_released_wf(state);
    lemma_after_all_idle(first, outcomes);
}

/// The service that hosts the driver: its name, the driver binary, the stage
/// it has reached and the handles held for it.
pub struct DriverService {
    name: String,
    driver_path: String,
    stage: Stage,
    manager: Option<u64>,
    service: Option<u64>,
    warnings: Vec<TeardownWarning>,
}

impl View for DriverService {
    type V = ServiceView;

    closed spec fn view(&self) -> ServiceView {
        ServiceView {
            name: self.name@,
            driver_path: self.driver_path@,
            stage: self.stage,
            manager: self.manager,
            service: self.service,
            warnings: self.warnings@,
        }
    }
}

impl DriverService {
    /// A service named `name` for the driver binary at `driver_path`, with
    /// nothing done for it yet. The path may be relative: the first step
    /// asks the caller to resolve it.
    pub fn new(name: &str, driver_path: &str) -> (service: Self)
        ensures
            service@ == ServiceView::initial(name@, driver_path@),
    {
        DriverService {
            name: name.to_owned(),
            driver_path: driver_path.to_owned(),
            stage: Stage::Resolve,
            manager: None,
            service: None,
            warnings: Vec::new(),
        }
    }

    /// The step to perform now.
    pub fn step(&self) -> (step: ServiceStep)
        ensures
            step == self@.step(),
    {
        let manager: u64 = match self.manager {
            Some(handle) => handle,
            None => 0,
        };
        let service: u64 = match self.service {
            Some(handle) => handle,
            None => 0,
        };
        match self.stage {
            Stage::Resolve => ServiceStep::ResolveBinary,
            Stage::Connect => ServiceStep::OpenManager { access: MANAGER_ACCESS },
            Stage::Register => ServiceStep::CreateService {
                manager,
                access: SERVICE_ACCESS,
                service_type: KERNEL_DRIVER,
                start_type: DEMAND_START,
                error_control: ERROR_IGNORE,
            },
            Stage::Lookup => ServiceStep::OpenService { manager, access: SERVICE_ACCESS },
            Stage::Start => ServiceStep::StartService { service },
            Stage::Stop => ServiceStep::StopService { service, control: CONTROL_STOP },
            Stage::Delete => ServiceStep::DeleteService { service },
            Stage::Close => ServiceStep::CloseService { service },
            Stage::Disconnect | Stage::Abandon(_) => ServiceStep::CloseManager { manager },
            Stage::Running | Stage::Failed(_) | Stage::Released => ServiceStep::Idle,
        }
    }

    fn note(&mut self, outcome: &Outcome, warning: TeardownWarning)
        ensures
            final(self)@ == (ServiceView {
                warnings: old(self)@.noted(*outcome, warning),
                ..old(self)@
            }),
    {
        match outcome {
            Outcome::Done => {},
            _ => {
                self.warnings.push(warning);
            },
        }
    }

    /// Takes in the outcome of the step that [`step`](Self::step) asked for
    /// and moves on to the next stage.
    pub fn advance(&mut self, outcome: Outcome)
        ensures
            final(self)@ == old(self)@.after(outcome),
    {
        match self.stage {
            Stage::Resolve => {
                self.stage = Stage::Failed(Error::BinaryNotFound);
                match outcome {
                    Outcome::Path(path) => {
                        if is_absolute(path.as_str()) {
                            self.driver_path = path;
                            self.stage = Stage::Connect;
                        }
                    },
                    _ => {},
                }
            },
            Stage::Connect => {
                match outcome.handle() {
                    Some(handle) => {
                        self.manager = Some(handle);
                        self.stage = Stage::Register;
                    },
                    None => {
                        self.stage = Stage::Failed(failure_of(&outcome));
                    },
                }
            },
            Stage::Register => {
                match outcome.handle() {
                    Some(handle) => {
                        self.service = Some(handle);
                        self.stage = Stage::Start;
                    },
                    None => {
                        self.stage = Stage::Lookup;
                    },
                }
            },
            Stage::Lookup => {
                match outcome.handle() {
                    Some(handle) => {
                        self.service = Some(handle);
                        self.stage = Stage::Start;
                    },
                    None => {
                        self.stage = Stage::Abandon(failure_of(&outcome));
                    },
                }
            },
            Stage::Start => {
                self.stage = Stage::Running;
            },
            Stage::Stop => {
                self.note(&outcome, TeardownWarning::StopFailed);
                self.stage = Stage::Delete;
            },
            Stage::Delete => {
                self.note(&outcome, TeardownWarning::DeleteFailed);
                self.stage = Stage::Close;
            },
            Stage::Close => {
                self.note(&outcome, TeardownWarning::CloseServiceFailed);
                self.service = None;
                self.stage = Stage::Disconnect;
            },
            Stage::Disconnect => {
                self.note(&outcome, TeardownWarning::CloseManagerFailed);
                self.manager = None;
                self.stage = Stage::Released;
            },
            Stage::Abandon(error) => {
                self.note(&outcome, TeardownWarning::CloseManagerFailed);
                self.manager = None;
                self.stage = Stage::Failed(error);
            },
            Stage::Running | Stage::Failed(_) | Stage::Released => {},
        }
    }

    /// Asks for the service to be released: stopped, deleted, and both
    /// handles closed. The steps then come from [`step`](Self::step) as
    /// before. Asking again, during the teardown or after it, changes
    /// nothing.
    pub fn release(&mut self)
        ensures
            final(self)@ == old(self)@.released(),
    {
        match self.stage {
            Stage::Stop | Stage::Delete | Stage::Close | Stage::Disconnect | Stage::Abandon(_) => {},
            Stage::Failed(_) | Stage::Released => {},
            _ => {
                if self.service.is_some() {
                    self.stage = Stage::Stop;
                } else if self.manager.is_some() {
                    self.stage = Stage::Disconnect;
                } else {
                    self.stage = Stage::Released;
                }
            },
        }
    }

    /// The stage reached.
    pub fn stage(&self) -> (stage: Stage)
        ensures
            stage == self@.stage,
    {
        self.stage
    }

    /// Whether the service has been acquired and not yet released.
    pub fn is_running(&self) -> (running: bool)
        ensures
            running == (self@.stage == Stage::Running),
    {
        match self.stage {
            Stage::Running => true,
            _ => false,
        }
    }

    /// The error that ended the acquisition, if one did.
    pub fn error(&self) -> (error: Option<Error>)
        ensures
            error == self@.error(),
    {
        match self.stage {
            Stage::Failed(error) => Some(error),
            Stage::Abandon(error) => Some(error),
            _ => None,
        }
    }

    /// The service's name.
    pub fn name(&self) -> (name: &str)
        ensures
            name@ == self@.name,
    {
        self.name.as_str()
    }

    /// The driver binary's path: as given at first, absolute once resolved.
    pub fn driver_path(&self) -> (path: &str)
        ensures
            path@ == self@.driver_path,
    {
        self.driver_path.as_str()
    }

    /// The connection to the service manager, while one is held.
    pub fn manager(&self) -> (handle: Option<u64>)
        ensures
            handle == self@.manager,
    {
        self.manager
    }

    /// The handle to the service, while one is held.
    pub fn service(&self) -> (handle: Option<u64>)
        ensures
            handle == self@.service,
    {
        self.service
    }

    /// The teardown steps that failed so far, in the order in which they
    /// were performed.
    pub fn warnings(&self) -> (warnings: &Vec<TeardownWarning>)
        ensures
            warnings@ == self@.warnings,
    {
        &self.warnings
    }
}

} // verus!

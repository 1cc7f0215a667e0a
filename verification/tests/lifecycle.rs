use winring0::channel::{
    backoff_ms, ChannelState, ChannelStep, Completion, ControlChannel, ENDPOINT_ACCESS,
    FIRST_BACKOFF_MS, MAX_BACKOFF_MS, MAX_OPEN_ATTEMPTS,
};
use winring0::error::Error;
use winring0::outcome::Outcome;
use winring0::protocol::Opcode;
use winring0::service::{
    is_absolute, DriverService, ServiceStep, Stage, TeardownWarning, CONTROL_STOP, DEMAND_START,
    ERROR_IGNORE, KERNEL_DRIVER, MANAGER_ACCESS, SERVICE_ACCESS,
};
use winring0::win_ring::{Step, WinRing0, DEVICE_PATH, DRIVER_FILE, SERVICE_NAME};

const DRIVER: &str = "C:\\drivers\\WinRing0x64.sys";

fn running_service() -> DriverService {
    let mut service = DriverService::new("svc", "drv.sys");
    service.advance(Outcome::Path(DRIVER.to_string()));
    service.advance(Outcome::Handle(0x10));
    service.advance(Outcome::Handle(0x20));
    service.advance(Outcome::Done);
    assert!(service.is_running());
    service
}

fn ready_session() -> WinRing0 {
    let mut session = WinRing0::new();
    session.advance(Outcome::Path(DRIVER.to_string()));
    session.advance(Outcome::Handle(0x10));
    session.advance(Outcome::Handle(0x20));
    session.advance(Outcome::Done);
    session.advance(Outcome::Handle(0x30));
    assert!(session.is_ready());
    session
}

#[test]
fn absolute_paths_are_recognised() {
    assert!(is_absolute("C:\\drivers\\WinRing0x64.sys"));
    assert!(is_absolute("c:/drivers/WinRing0x64.sys"));
    assert!(is_absolute("Z:\\"));
    assert!(is_absolute("\\\\?\\C:\\drivers\\WinRing0x64.sys"));
    assert!(is_absolute("\\\\server\\share\\WinRing0x64.sys"));
}

#[test]
fn relative_paths_are_not_absolute() {
    assert!(!is_absolute(""));
    assert!(!is_absolute(".\\WinRing0x64.sys"));
    assert!(!is_absolute("WinRing0x64.sys"));
    assert!(!is_absolute("C:WinRing0x64.sys"));
    assert!(!is_absolute("C:"));
    assert!(!is_absolute("\\drivers\\WinRing0x64.sys"));
    assert!(!is_absolute("1:\\WinRing0x64.sys"));
    assert!(!is_absolute("\\\\"));
}

#[test]
fn access_rights_are_those_of_the_service_manager() {
    assert_eq!(MANAGER_ACCESS, 0x0002);
    assert_eq!(SERVICE_ACCESS, 0x0001_0030);
    assert_eq!(KERNEL_DRIVER, 1);
    assert_eq!(DEMAND_START, 3);
    assert_eq!(ERROR_IGNORE, 0);
    assert_eq!(CONTROL_STOP, 1);
    assert_eq!(ENDPOINT_ACCESS, 0xC000_0000);
}

#[test]
fn service_is_acquired_by_registering() {
    let mut service = DriverService::new("svc", ".\\drv.sys");
    assert_eq!(service.name(), "svc");
    assert_eq!(service.driver_path(), ".\\drv.sys");
    assert_eq!(service.stage(), Stage::Resolve);
    assert_eq!(service.step(), ServiceStep::ResolveBinary);

    service.advance(Outcome::Path(DRIVER.to_string()));
    assert_eq!(service.driver_path(), DRIVER);
    assert_eq!(service.step(), ServiceStep::OpenManager { access: 0x0002 });

    service.advance(Outcome::Handle(0x10));
    assert_eq!(service.manager(), Some(0x10));
    assert_eq!(
        service.step(),
        ServiceStep::CreateService {
            manager: 0x10,
            access: 0x0001_0030,
            service_type: 1,
            start_type: 3,
            error_control: 0,
        }
    );

    service.advance(Outcome::Handle(0x20));
    assert_eq!(service.service(), Some(0x20));
    assert_eq!(service.step(), ServiceStep::StartService { service: 0x20 });

    service.advance(Outcome::Done);
    assert!(service.is_running());
    assert_eq!(service.stage(), Stage::Running);
    assert_eq!(service.step(), ServiceStep::Idle);
    assert_eq!(service.error(), None);
}

#[test]
fn service_falls_back_to_the_existing_registration() {
    let mut service = DriverService::new("svc", "drv.sys");
    service.advance(Outcome::Path(DRIVER.to_string()));
    service.advance(Outcome::Handle(0x10));
    service.advance(Outcome::Failed);
    assert_eq!(service.step(), ServiceStep::OpenService { manager: 0x10, access: 0x0001_0030 });
    service.advance(Outcome::Handle(0x21));
    assert_eq!(service.service(), Some(0x21));
    assert_eq!(service.step(), ServiceStep::StartService { service: 0x21 });
    service.advance(Outcome::Failed);
    assert!(service.is_running());
}

#[test]
fn service_falls_back_when_registering_is_denied() {
    let mut service = DriverService::new("svc", "drv.sys");
    service.advance(Outcome::Path(DRIVER.to_string()));
    service.advance(Outcome::Handle(0x10));
    service.advance(Outcome::Denied);
    assert_eq!(service.stage(), Stage::Lookup);
    service.advance(Outcome::Handle(0x21));
    service.advance(Outcome::Done);
    assert!(service.is_running());
}

#[test]
fn missing_binary_is_binary_not_found() {
    let mut service = DriverService::new("svc", "drv.sys");
    service.advance(Outcome::Failed);
    assert_eq!(service.error(), Some(Error::BinaryNotFound));
    assert_eq!(service.stage(), Stage::Failed(Error::BinaryNotFound));
    assert_eq!(service.step(), ServiceStep::Idle);
    assert_eq!(service.manager(), None);
    assert_eq!(service.service(), None);
}

#[test]
fn unresolved_binary_is_binary_not_found() {
    let mut service = DriverService::new("svc", "drv.sys");
    service.advance(Outcome::Path(".\\drv.sys".to_string()));
    assert_eq!(service.error(), Some(Error::BinaryNotFound));
    assert_eq!(service.driver_path(), "drv.sys");

    let mut other = DriverService::new("svc", "drv.sys");
    other.advance(Outcome::Handle(1));
    assert_eq!(other.error(), Some(Error::BinaryNotFound));
}

#[test]
fn refused_manager_is_permission_denied() {
    let mut service = DriverService::new("svc", "drv.sys");
    service.advance(Outcome::Path(DRIVER.to_string()));
    service.advance(Outcome::Denied);
    assert_eq!(service.error(), Some(Error::PermissionDenied));
    assert_eq!(service.step(), ServiceStep::Idle);
    assert_eq!(service.manager(), None);
}

#[test]
fn unreachable_manager_is_service_unavailable() {
    let mut service = DriverService::new("svc", "drv.sys");
    service.advance(Outcome::Path(DRIVER.to_string()));
    service.advance(Outcome::Failed);
    assert_eq!(service.error(), Some(Error::ServiceUnavailable));
    assert_eq!(service.step(), ServiceStep::Idle);
}

#[test]
fn unknown_service_is_service_unavailable_and_closes_the_manager() {
    let mut service = DriverService::new("svc", "drv.sys");
    service.advance(Outcome::Path(DRIVER.to_string()));
    service.advance(Outcome::Handle(0x10));
    service.advance(Outcome::Failed);
    service.advance(Outcome::Failed);
    assert_eq!(service.error(), Some(Error::ServiceUnavailable));
    assert_eq!(service.step(), ServiceStep::CloseManager { manager: 0x10 });
    assert_eq!(service.manager(), Some(0x10));
    service.advance(Outcome::Done);
    assert_eq!(service.stage(), Stage::Failed(Error::ServiceUnavailable));
    assert_eq!(service.step(), ServiceStep::Idle);
    assert_eq!(service.manager(), None);
    assert!(service.warnings().is_empty());
}

#[test]
fn denied_lookup_is_permission_denied() {
    let mut service = DriverService::new("svc", "drv.sys");
    service.advance(Outcome::Path(DRIVER.to_string()));
    service.advance(Outcome::Handle(0x10));
    service.advance(Outcome::Denied);
    service.advance(Outcome::Denied);
    assert_eq!(service.stage(), Stage::Abandon(Error::PermissionDenied));
    service.advance(Outcome::Failed);
    assert_eq!(service.stage(), Stage::Failed(Error::PermissionDenied));
    assert_eq!(service.warnings(), &vec![TeardownWarning::CloseManagerFailed]);
}

#[test]
fn outcome_of_the_wrong_shape_counts_as_a_failure() {
    let mut service = DriverService::new("svc", "drv.sys");
    service.advance(Outcome::Path(DRIVER.to_string()));
    service.advance(Outcome::Done);
    assert_eq!(service.error(), Some(Error::ServiceUnavailable));

    let mut other = DriverService::new("svc", "drv.sys");
    other.advance(Outcome::Path(DRIVER.to_string()));
    other.advance(Outcome::Handle(0x10));
    other.advance(Outcome::Path(DRIVER.to_string()));
    assert_eq!(other.stage(), Stage::Lookup);
    other.advance(Outcome::Done);
    assert_eq!(other.stage(), Stage::Abandon(Error::ServiceUnavailable));
}

#[test]
fn handle_of_zero_is_no_handle() {
    assert_eq!(Outcome::Handle(0).handle(), None);
    assert_eq!(Outcome::Handle(1).handle(), Some(1));
    assert_eq!(Outcome::Done.handle(), None);
    assert_eq!(Outcome::Denied.handle(), None);
    assert_eq!(Outcome::Failed.handle(), None);
    assert_eq!(Outcome::Path(DRIVER.to_string()).handle(), None);

    let mut service = DriverService::new("svc", "drv.sys");
    service.advance(Outcome::Path(DRIVER.to_string()));
    service.advance(Outcome::Handle(0));
    assert_eq!(service.error(), Some(Error::ServiceUnavailable));
    assert_eq!(service.manager(), None);

    let mut other = DriverService::new("svc", "drv.sys");
    other.advance(Outcome::Path(DRIVER.to_string()));
    other.advance(Outcome::Handle(0x10));
    other.advance(Outcome::Handle(0));
    assert_eq!(other.stage(), Stage::Lookup);
    other.advance(Outcome::Handle(0));
    assert_eq!(other.stage(), Stage::Abandon(Error::ServiceUnavailable));

    let mut channel = ControlChannel::new("\\\\.\\dev");
    channel.open();
    channel.advance(&Outcome::Handle(0));
    assert_eq!(channel.state(), ChannelState::Opening { failed: 1 });
}

#[test]
fn release_stops_deletes_and_closes_in_order() {
    let mut service = running_service();
    service.release();
    assert_eq!(service.step(), ServiceStep::StopService { service: 0x20, control: 1 });
    service.advance(Outcome::Done);
    assert_eq!(service.step(), ServiceStep::DeleteService { service: 0x20 });
    service.advance(Outcome::Done);
    assert_eq!(service.step(), ServiceStep::CloseService { service: 0x20 });
    service.advance(Outcome::Done);
    assert_eq!(service.service(), None);
    assert_eq!(service.step(), ServiceStep::CloseManager { manager: 0x10 });
    service.advance(Outcome::Done);
    assert_eq!(service.manager(), None);
    assert_eq!(service.stage(), Stage::Released);
    assert_eq!(service.step(), ServiceStep::Idle);
    assert!(service.warnings().is_empty());
    assert_eq!(service.error(), None);
}

#[test]
fn failed_teardown_steps_are_recorded_and_do_not_stop_the_teardown() {
    let mut service = running_service();
    service.release();
    service.advance(Outcome::Failed);
    service.advance(Outcome::Denied);
    service.advance(Outcome::Failed);
    service.advance(Outcome::Failed);
    assert_eq!(service.stage(), Stage::Released);
    assert_eq!(service.manager(), None);
    assert_eq!(service.service(), None);
    assert_eq!(service.error(), None);
    assert_eq!(
        service.warnings(),
        &vec![
            TeardownWarning::StopFailed,
            TeardownWarning::DeleteFailed,
            TeardownWarning::CloseServiceFailed,
            TeardownWarning::CloseManagerFailed,
        ]
    );
}

#[test]
fn already_stopped_service_is_released_with_one_warning() {
    let mut service = running_service();
    service.release();
    service.advance(Outcome::Failed);
    service.advance(Outcome::Done);
    service.advance(Outcome::Done);
    service.advance(Outcome::Done);
    assert_eq!(service.stage(), Stage::Released);
    assert_eq!(service.warnings(), &vec![TeardownWarning::StopFailed]);
}

#[test]
fn second_release_changes_nothing() {
    let mut service = running_service();
    service.release();
    service.advance(Outcome::Done);
    service.advance(Outcome::Failed);
    service.advance(Outcome::Done);
    service.advance(Outcome::Done);
    assert_eq!(service.stage(), Stage::Released);
    service.release();
    assert_eq!(service.stage(), Stage::Released);
    assert_eq!(service.step(), ServiceStep::Idle);
    assert_eq!(service.error(), None);
    assert_eq!(service.warnings(), &vec![TeardownWarning::DeleteFailed]);
    service.advance(Outcome::Failed);
    assert_eq!(service.stage(), Stage::Released);
    assert_eq!(service.warnings(), &vec![TeardownWarning::DeleteFailed]);
}

#[test]
fn release_during_teardown_does_not_start_over() {
    let mut service = running_service();
    service.release();
    service.advance(Outcome::Done);
    service.release();
    assert_eq!(service.step(), ServiceStep::DeleteService { service: 0x20 });
}

#[test]
fn release_before_anything_is_held_needs_no_step() {
    let mut service = DriverService::new("svc", "drv.sys");
    service.release();
    assert_eq!(service.stage(), Stage::Released);
    assert_eq!(service.step(), ServiceStep::Idle);
}

#[test]
fn release_with_only_the_manager_closes_it() {
    let mut service = DriverService::new("svc", "drv.sys");
    service.advance(Outcome::Path(DRIVER.to_string()));
    service.advance(Outcome::Handle(0x10));
    service.release();
    assert_eq!(service.step(), ServiceStep::CloseManager { manager: 0x10 });
    service.advance(Outcome::Done);
    assert_eq!(service.stage(), Stage::Released);
}

#[test]
fn release_keeps_a_failure() {
    let mut service = DriverService::new("svc", "drv.sys");
    service.advance(Outcome::Failed);
    service.release();
    assert_eq!(service.error(), Some(Error::BinaryNotFound));
}

#[test]
fn backoff_doubles_up_to_its_limit() {
    assert_eq!(FIRST_BACKOFF_MS, 10);
    assert_eq!(MAX_BACKOFF_MS, 1000);
    let expected: [u32; 11] = [0, 10, 20, 40, 80, 160, 320, 640, 1000, 1000, 1000];
    for (failed, delay) in expected.iter().enumerate() {
        assert_eq!(backoff_ms(failed as u32), *delay);
    }
    assert_eq!(backoff_ms(u32::MAX), 1000);
}

#[test]
fn channel_opens_on_the_first_attempt() {
    let mut channel = ControlChannel::new("\\\\.\\dev");
    assert_eq!(channel.device_path(), "\\\\.\\dev");
    assert_eq!(channel.state(), ChannelState::Closed);
    assert_eq!(channel.step(), ChannelStep::Idle);
    channel.open();
    assert_eq!(channel.step(), ChannelStep::Open { delay_ms: 0, access: 0xC000_0000 });
    channel.advance(&Outcome::Handle(0x30));
    assert!(channel.is_open());
    assert_eq!(channel.handle(), Some(0x30));
    assert_eq!(channel.step(), ChannelStep::Idle);
    assert_eq!(channel.error(), None);
}

#[test]
fn channel_opens_on_any_attempt_within_the_bound() {
    assert_eq!(MAX_OPEN_ATTEMPTS, 10);
    for attempt in 1..=MAX_OPEN_ATTEMPTS {
        let mut channel = ControlChannel::new("\\\\.\\dev");
        channel.open();
        for failed in 1..attempt {
            channel.advance(&Outcome::Failed);
            assert_eq!(channel.state(), ChannelState::Opening { failed });
            assert_eq!(
                channel.step(),
                ChannelStep::Open { delay_ms: backoff_ms(failed), access: 0xC000_0000 }
            );
        }
        channel.advance(&Outcome::Handle(0x30 + attempt as u64));
        assert_eq!(channel.state(), ChannelState::Open { handle: 0x30 + attempt as u64 });
    }
}

#[test]
fn channel_gives_up_beyond_the_bound() {
    let mut channel = ControlChannel::new("\\\\.\\dev");
    channel.open();
    for _ in 0..MAX_OPEN_ATTEMPTS {
        assert!(matches!(channel.step(), ChannelStep::Open { .. }));
        channel.advance(&Outcome::Failed);
    }
    assert_eq!(channel.state(), ChannelState::Unavailable);
    assert_eq!(channel.error(), Some(Error::EndpointUnavailable));
    assert_eq!(channel.step(), ChannelStep::Idle);
    assert_eq!(channel.handle(), None);
    channel.advance(&Outcome::Handle(0x30));
    assert_eq!(channel.state(), ChannelState::Unavailable);
}

#[test]
fn channel_can_be_opened_again_after_giving_up() {
    let mut channel = ControlChannel::new("\\\\.\\dev");
    channel.open();
    for _ in 0..MAX_OPEN_ATTEMPTS {
        channel.advance(&Outcome::Denied);
    }
    channel.open();
    assert_eq!(channel.state(), ChannelState::Opening { failed: 0 });
    channel.advance(&Outcome::Handle(1));
    assert!(channel.is_open());
}

#[test]
fn channel_close_is_safe_to_repeat() {
    let mut channel = ControlChannel::new("\\\\.\\dev");
    channel.close();
    assert_eq!(channel.state(), ChannelState::Closed);
    channel.open();
    channel.advance(&Outcome::Handle(0x30));
    channel.open();
    assert_eq!(channel.state(), ChannelState::Open { handle: 0x30 });
    channel.close();
    assert_eq!(channel.step(), ChannelStep::Close { handle: 0x30 });
    assert!(!channel.is_open());
    assert_eq!(channel.handle(), None);
    channel.close();
    assert_eq!(channel.step(), ChannelStep::Close { handle: 0x30 });
    channel.advance(&Outcome::Failed);
    assert_eq!(channel.state(), ChannelState::Closed);
    channel.close();
    assert_eq!(channel.state(), ChannelState::Closed);
    assert_eq!(channel.step(), ChannelStep::Idle);
}

#[test]
fn closing_gives_up_an_attempt_to_open() {
    let mut channel = ControlChannel::new("\\\\.\\dev");
    channel.open();
    channel.advance(&Outcome::Failed);
    channel.close();
    assert_eq!(channel.state(), ChannelState::Closed);
}

#[test]
fn issue_binds_the_exchange_to_the_handle() {
    let mut channel = ControlChannel::new("\\\\.\\dev");
    channel.open();
    channel.advance(&Outcome::Handle(0x77));
    let exchange = channel.issue(Opcode::ReadMsr, vec![1, 2, 3], 8);
    assert_eq!(exchange.handle, 0x77);
    assert_eq!(exchange.opcode, Opcode::ReadMsr);
    assert_eq!(exchange.request, vec![1, 2, 3]);
    assert_eq!(exchange.capacity, 8);
}

#[test]
fn complete_returns_what_was_transferred() {
    let completion = Completion { succeeded: true, buffer: vec![1, 2, 3, 4], transferred: 3 };
    assert_eq!(ControlChannel::complete(4, &completion), Ok((vec![1, 2, 3], 3)));
    assert_eq!(ControlChannel::complete(3, &completion), Ok((vec![1, 2, 3], 3)));
}

#[test]
fn complete_tells_an_empty_answer_from_a_failure() {
    let empty = Completion { succeeded: true, buffer: vec![0; 8], transferred: 0 };
    assert_eq!(ControlChannel::complete(8, &empty), Ok((vec![], 0)));
    let failed = Completion { succeeded: false, buffer: vec![0; 8], transferred: 0 };
    assert_eq!(ControlChannel::complete(8, &failed), Err(Error::ChannelError));
    let failed_with_data = Completion { succeeded: false, buffer: vec![1; 8], transferred: 8 };
    assert_eq!(ControlChannel::complete(8, &failed_with_data), Err(Error::ChannelError));
}

#[test]
fn complete_rejects_an_unsound_report() {
    let beyond_capacity = Completion { succeeded: true, buffer: vec![0; 8], transferred: 5 };
    assert_eq!(ControlChannel::complete(4, &beyond_capacity), Err(Error::ChannelError));
    let beyond_buffer = Completion { succeeded: true, buffer: vec![0; 2], transferred: 3 };
    assert_eq!(ControlChannel::complete(4, &beyond_buffer), Err(Error::ChannelError));
}

#[test]
fn session_names_the_driver() {
    assert_eq!(SERVICE_NAME, "WinRing0_1_2_0");
    assert_eq!(DRIVER_FILE, ".\\WinRing0x64.sys");
    assert_eq!(DEVICE_PATH, "\\\\.\\WinRing0_1_2_0");
    let session = WinRing0::new();
    assert_eq!(session.service().name(), "WinRing0_1_2_0");
    assert_eq!(session.service().driver_path(), ".\\WinRing0x64.sys");
    assert_eq!(session.channel().device_path(), "\\\\.\\WinRing0_1_2_0");
    assert!(!session.is_ready());
    assert_eq!(session.error(), None);
}

#[test]
fn session_brings_the_service_up_before_the_channel() {
    let mut session = WinRing0::new();
    assert_eq!(session.step(), Step::Service(ServiceStep::ResolveBinary));
    session.advance(Outcome::Path(DRIVER.to_string()));
    assert_eq!(session.step(), Step::Service(ServiceStep::OpenManager { access: 0x0002 }));
    session.advance(Outcome::Handle(0x10));
    assert!(matches!(session.step(), Step::Service(ServiceStep::CreateService { .. })));
    session.advance(Outcome::Handle(0x20));
    assert_eq!(session.step(), Step::Service(ServiceStep::StartService { service: 0x20 }));
    assert_eq!(session.channel().state(), ChannelState::Closed);
    session.advance(Outcome::Done);
    assert_eq!(
        session.step(),
        Step::Channel(ChannelStep::Open { delay_ms: 0, access: 0xC000_0000 })
    );
    session.advance(Outcome::Failed);
    assert_eq!(
        session.step(),
        Step::Channel(ChannelStep::Open { delay_ms: 10, access: 0xC000_0000 })
    );
    session.advance(Outcome::Handle(0x30));
    assert_eq!(session.step(), Step::Ready);
    assert!(session.is_ready());
    assert_eq!(session.channel().handle(), Some(0x30));
    session.advance(Outcome::Failed);
    assert_eq!(session.step(), Step::Ready);
}

#[test]
fn session_takes_the_channel_down_before_the_service() {
    let mut session = ready_session();
    session.shut_down();
    assert!(!session.is_ready());
    assert_eq!(session.step(), Step::Channel(ChannelStep::Close { handle: 0x30 }));
    session.shut_down();
    assert_eq!(session.step(), Step::Channel(ChannelStep::Close { handle: 0x30 }));
    session.advance(Outcome::Done);
    assert_eq!(
        session.step(),
        Step::Service(ServiceStep::StopService { service: 0x20, control: 1 })
    );
    session.advance(Outcome::Done);
    assert_eq!(session.step(), Step::Service(ServiceStep::DeleteService { service: 0x20 }));
    session.advance(Outcome::Done);
    assert_eq!(session.step(), Step::Service(ServiceStep::CloseService { service: 0x20 }));
    session.advance(Outcome::Done);
    assert_eq!(session.step(), Step::Service(ServiceStep::CloseManager { manager: 0x10 }));
    session.advance(Outcome::Done);
    assert_eq!(session.step(), Step::Stopped);
    assert_eq!(session.error(), None);
    assert_eq!(session.service().stage(), Stage::Released);
    session.shut_down();
    assert_eq!(session.step(), Step::Stopped);
}

#[test]
fn session_releases_the_service_when_the_endpoint_stays_away() {
    let mut session = WinRing0::new();
    session.advance(Outcome::Path(DRIVER.to_string()));
    session.advance(Outcome::Handle(0x10));
    session.advance(Outcome::Handle(0x20));
    session.advance(Outcome::Done);
    for _ in 0..MAX_OPEN_ATTEMPTS {
        assert!(matches!(session.step(), Step::Channel(ChannelStep::Open { .. })));
        session.advance(Outcome::Failed);
    }
    assert_eq!(session.error(), Some(Error::EndpointUnavailable));
    assert_eq!(
        session.step(),
        Step::Service(ServiceStep::StopService { service: 0x20, control: 1 })
    );
    for _ in 0..4 {
        session.advance(Outcome::Done);
    }
    assert_eq!(session.step(), Step::Stopped);
    assert_eq!(session.error(), Some(Error::EndpointUnavailable));
    assert_eq!(session.service().manager(), None);
    assert_eq!(session.service().service(), None);
}

#[test]
fn session_comes_up_through_the_existing_registration() {
    let mut session = WinRing0::new();
    session.advance(Outcome::Path(DRIVER.to_string()));
    session.advance(Outcome::Handle(0x10));
    session.advance(Outcome::Failed);
    session.advance(Outcome::Handle(0x21));
    session.advance(Outcome::Failed);
    for _ in 1..MAX_OPEN_ATTEMPTS {
        session.advance(Outcome::Failed);
    }
    session.advance(Outcome::Handle(0x31));
    assert_eq!(session.step(), Step::Ready);
    assert_eq!(session.service().service(), Some(0x21));
    assert_eq!(session.channel().handle(), Some(0x31));
    assert_eq!(session.error(), None);
}

#[test]
fn shut_down_while_acquiring_closes_what_is_held() {
    let mut session = WinRing0::new();
    session.advance(Outcome::Path(DRIVER.to_string()));
    session.advance(Outcome::Handle(0x10));
    session.shut_down();
    assert_eq!(session.step(), Step::Service(ServiceStep::CloseManager { manager: 0x10 }));
    session.advance(Outcome::Done);
    assert_eq!(session.step(), Step::Stopped);
    assert_eq!(session.service().manager(), None);
}

#[test]
fn shut_down_while_opening_releases_the_service() {
    let mut session = WinRing0::new();
    session.advance(Outcome::Path(DRIVER.to_string()));
    session.advance(Outcome::Handle(0x10));
    session.advance(Outcome::Handle(0x20));
    session.advance(Outcome::Done);
    session.advance(Outcome::Failed);
    session.shut_down();
    assert_eq!(session.channel().state(), ChannelState::Closed);
    assert_eq!(
        session.step(),
        Step::Service(ServiceStep::StopService { service: 0x20, control: 1 })
    );
    for _ in 0..4 {
        session.advance(Outcome::Failed);
    }
    assert_eq!(session.step(), Step::Stopped);
    assert_eq!(session.service().stage(), Stage::Released);
    assert_eq!(session.service().warnings().len(), 4);
}

#[test]
fn shut_down_before_anything_is_done_stops_at_once() {
    let mut session = WinRing0::new();
    session.shut_down();
    assert_eq!(session.step(), Step::Stopped);
    assert_eq!(session.error(), None);
}

#[test]
fn session_stops_when_the_service_cannot_be_acquired() {
    let mut session = WinRing0::new();
    session.advance(Outcome::Path(DRIVER.to_string()));
    session.advance(Outcome::Denied);
    assert_eq!(session.step(), Step::Stopped);
    assert_eq!(session.error(), Some(Error::PermissionDenied));
    assert!(!session.is_ready());
}

#[test]
fn session_reaches_an_end_whatever_is_reported() {
    let mut session = WinRing0::new();
    let mut steps: u32 = 0;
    loop {
        match session.step() {
            Step::Ready | Step::Stopped => {
                break;
            }
            _ => {
                session.advance(Outcome::Failed);
                steps += 1;
            }
        }
    }
    assert_eq!(steps, 1);
    assert_eq!(session.error(), Some(Error::BinaryNotFound));
}

#[test]
fn errors_describe_themselves() {
    assert_eq!(
        Error::PermissionDenied.describe(),
        "administrative rights are required to manage the driver service"
    );
    assert_eq!(Error::BinaryNotFound.describe(), "the driver binary was not found");
    assert_eq!(
        Error::ServiceUnavailable.describe(),
        "the driver service could be neither registered nor opened"
    );
    assert_eq!(
        Error::EndpointUnavailable.describe(),
        "the driver's endpoint did not become available"
    );
    assert_eq!(Error::ChannelError.describe(), "a control exchange with the driver failed");
}

use socks_redirect::client::{ClientError, Config, FirewallError};
use socks_redirect::command::{Command, CommandError, CommandFailure, Commands};
use socks_redirect::coordinator::{Action, Coordinator, Event};
use socks_redirect::firewall::FirewallType;
use socks_redirect::network::{IpAddress, SocketAddress, Subnets};

fn config(remote: Option<&str>) -> Config {
    Config {
        includes: Subnets::new(vec![]),
        excludes: Subnets::new(vec![]),
        remote: remote.map(String::from),
        listen: vec![],
        socks_addr: SocketAddress::new(IpAddress::v4(127, 0, 0, 1), 1080),
        firewall: FirewallType::Nat,
    }
}

fn commands(names: &[&str]) -> Commands {
    Commands {
        list: names
            .iter()
            .map(|n| Command { program: String::from(*n), args: vec![String::from("-w")] })
            .collect(),
    }
}

fn setup() -> Commands {
    commands(&["new-chain", "jump", "redirect"])
}

fn restore() -> Commands {
    commands(&["unjump", "flush", "delete-chain"])
}

fn failed(index: usize, status: i32) -> CommandError {
    CommandError { index, failure: CommandFailure::Status(status) }
}

fn tunnel_failed() -> ClientError {
    ClientError::from(std::io::Error::other("ssh failed"))
}

fn kill_failed() -> ClientError {
    ClientError::from(std::io::Error::new(std::io::ErrorKind::PermissionDenied, "kill failed"))
}

fn plan_failed(reason: &str) -> FirewallError {
    FirewallError { reason: String::from(reason) }
}

/// Drives a run up to the wait, and checks each request on the way.
fn running(remote: Option<&str>) -> Coordinator {
    let (c, action) = Coordinator::start(&config(remote));
    assert!(matches!(action, Action::InstallHandler));
    let (c, action) = c.step(Event::HandlerInstalled(Ok(())));
    assert!(matches!(action, Action::Plan));
    let (c, action) = c.step(Event::Planned { setup: Ok(setup()), restore: Ok(restore()) });
    assert!(matches!(action, Action::RunSetup(ref s) if *s == setup()));
    let (c, action) = c.step(Event::SetupFinished(Ok(())));
    let c = if remote.is_some() {
        assert!(matches!(action, Action::StartTunnel));
        let (c, action) = c.step(Event::TunnelStarted);
        assert!(matches!(action, Action::StartListeners));
        c
    } else {
        assert!(matches!(action, Action::StartListeners));
        c
    };
    let (c, action) = c.step(Event::ListenersStarted);
    assert!(matches!(action, Action::Wait));
    assert!(matches!(c, Coordinator::Running { .. }));
    c
}

#[test]
fn run_starts_with_the_interrupt_handler() {
    let (c, action) = Coordinator::start(&config(None));
    assert!(matches!(c, Coordinator::Installing { tunnel: false }));
    assert!(matches!(action, Action::InstallHandler));
    let (c, _) = Coordinator::start(&config(Some("host")));
    assert!(matches!(c, Coordinator::Installing { tunnel: true }));
}

#[test]
fn failed_handler_ends_the_run_before_anything_is_installed() {
    let (c, _) = Coordinator::start(&config(None));
    let (c, action) = c.step(Event::HandlerInstalled(Err(ctrlc::Error::MultipleHandlers)));
    assert!(matches!(c, Coordinator::Finished));
    assert!(matches!(
        action,
        Action::Exit {
            result: Err(ClientError::CtrlC(ctrlc::Error::MultipleHandlers)),
            later: None,
            last: None
        }
    ));
}

#[test]
fn restore_is_kept_before_setup_runs() {
    let (c, _) = Coordinator::start(&config(None));
    let (c, _) = c.step(Event::HandlerInstalled(Ok(())));
    let (c, action) = c.step(Event::Planned { setup: Ok(setup()), restore: Ok(restore()) });
    assert!(matches!(action, Action::RunSetup(ref s) if *s == setup()));
    assert!(matches!(c, Coordinator::SettingUp { tunnel: false, ref restore } if *restore == self::restore()));
}

#[test]
fn failed_setup_plan_skips_setup_and_still_restores() {
    let (c, _) = Coordinator::start(&config(None));
    let (c, _) = c.step(Event::HandlerInstalled(Ok(())));
    let (c, action) =
        c.step(Event::Planned { setup: Err(plan_failed("no rules")), restore: Ok(restore()) });
    assert!(matches!(action, Action::RunRestore(ref r) if *r == restore()));
    let (c, action) = c.step(Event::RestoreFinished(Ok(())));
    assert!(matches!(c, Coordinator::Finished));
    assert!(matches!(
        action,
        Action::Exit { result: Err(ClientError::Firewall(ref e)), later: None, last: None } if e.reason == "no rules"
    ));
}

#[test]
fn failed_restore_plan_ends_the_run_without_setup() {
    let (c, _) = Coordinator::start(&config(None));
    let (c, _) = c.step(Event::HandlerInstalled(Ok(())));
    let (c, action) =
        c.step(Event::Planned { setup: Ok(setup()), restore: Err(plan_failed("no undo")) });
    assert!(matches!(c, Coordinator::Finished));
    assert!(matches!(
        action,
        Action::Exit { result: Err(ClientError::Firewall(ref e)), later: None, last: None } if e.reason == "no undo"
    ));
}

#[test]
fn two_failed_plans_report_the_first() {
    let (c, _) = Coordinator::start(&config(None));
    let (c, _) = c.step(Event::HandlerInstalled(Ok(())));
    let (c, action) = c.step(Event::Planned {
        setup: Err(plan_failed("first")),
        restore: Err(plan_failed("second")),
    });
    assert!(matches!(c, Coordinator::Finished));
    match action {
        Action::Exit {
            result: Err(ClientError::Firewall(a)),
            later: Some(ClientError::Firewall(b)),
            last: None,
        } => {
            assert_eq!(a.reason, "first");
            assert_eq!(b.reason, "second");
        }
        other => panic!("unexpected action {:?}", other),
    }
}

#[test]
fn failed_setup_goes_straight_to_restore() {
    let (c, _) = Coordinator::start(&config(Some("host")));
    let (c, _) = c.step(Event::HandlerInstalled(Ok(())));
    let (c, _) = c.step(Event::Planned { setup: Ok(setup()), restore: Ok(restore()) });
    let (c, action) = c.step(Event::SetupFinished(Err(failed(1, 2))));
    assert!(matches!(action, Action::RunRestore(ref r) if *r == restore()));
    let (c, action) = c.step(Event::RestoreFinished(Ok(())));
    assert!(matches!(c, Coordinator::Finished));
    assert!(matches!(
        action,
        Action::Exit {
            result: Err(ClientError::Command(CommandError {
                index: 1,
                failure: CommandFailure::Status(2)
            })),
            later: None,
            last: None
        }
    ));
}

#[test]
fn tunnel_is_started_only_with_a_remote() {
    running(Some("host"));
    running(None);
    let (c, _) = Coordinator::start(&config(None));
    let (c, _) = c.step(Event::HandlerInstalled(Ok(())));
    let (c, _) = c.step(Event::Planned { setup: Ok(setup()), restore: Ok(restore()) });
    let (c, action) = c.step(Event::SetupFinished(Ok(())));
    assert!(matches!(action, Action::StartListeners));
    let (_, action) = c.step(Event::TunnelStarted);
    assert!(matches!(action, Action::Rejected));
}

#[test]
fn shutdown_collapses_restores_and_exits_clean() {
    let (c, action) = running(Some("host")).step(Event::ShutdownRequested);
    assert!(matches!(action, Action::Collapse { signal_tunnel: true }));
    let (c, action) = c.step(Event::Collapsed { tunnel: None });
    assert!(matches!(action, Action::RunRestore(ref r) if *r == restore()));
    let (c, action) = c.step(Event::RestoreFinished(Ok(())));
    assert!(matches!(c, Coordinator::Finished));
    match action {
        Action::Exit { result, later: None, last: None } => {
            assert!(result.is_ok());
            assert_eq!(Coordinator::exit_code(&result), 0);
        }
        other => panic!("unexpected action {:?}", other),
    }
}

#[test]
fn shutdown_without_tunnel_signals_nobody() {
    let (_, action) = running(None).step(Event::ShutdownRequested);
    assert!(matches!(action, Action::Collapse { signal_tunnel: false }));
    let (_, action) = running(None).step(Event::PoolFinished(Ok(())));
    assert!(matches!(action, Action::Collapse { signal_tunnel: false }));
}

#[test]
fn second_shutdown_is_rejected() {
    let (c, _) = running(None).step(Event::ShutdownRequested);
    let (c, action) = c.step(Event::ShutdownRequested);
    assert!(matches!(action, Action::Rejected));
    assert!(matches!(c, Coordinator::Collapsing { failure: None, .. }));
}

#[test]
fn tunnel_report_without_tunnel_is_rejected() {
    let (c, action) = running(None).step(Event::TunnelFinished(Ok(())));
    assert!(matches!(action, Action::Rejected));
    assert!(matches!(c, Coordinator::Running { tunnel: false, .. }));
}

#[test]
fn normal_end_of_the_tunnel_is_a_clean_shutdown() {
    let (c, action) = running(Some("host")).step(Event::TunnelFinished(Ok(())));
    assert!(matches!(action, Action::Collapse { signal_tunnel: true }));
    let (c, _) = c.step(Event::Collapsed { tunnel: None });
    let (_, action) = c.step(Event::RestoreFinished(Ok(())));
    assert!(matches!(action, Action::Exit { result: Ok(()), later: None, last: None }));
}

#[test]
fn pool_failure_is_fatal_and_restores() {
    let cause = ClientError::from(std::io::Error::new(std::io::ErrorKind::AddrInUse, "taken"));
    let (c, action) = running(Some("host")).step(Event::PoolFinished(Err(cause)));
    assert!(matches!(action, Action::Collapse { signal_tunnel: true }));
    let (c, action) = c.step(Event::Collapsed { tunnel: None });
    assert!(matches!(action, Action::RunRestore(ref r) if *r == restore()));
    let (_, action) = c.step(Event::RestoreFinished(Ok(())));
    match action {
        Action::Exit { result, later: None, last: None } => {
            assert!(matches!(result, Err(ClientError::Io(ref e)) if e.kind() == std::io::ErrorKind::AddrInUse));
            assert_eq!(Coordinator::exit_code(&result), 1);
        }
        other => panic!("unexpected action {:?}", other),
    }
}

#[test]
fn failed_restore_alone_is_the_result() {
    let (c, _) = running(None).step(Event::ShutdownRequested);
    let (c, _) = c.step(Event::Collapsed { tunnel: None });
    let (_, action) = c.step(Event::RestoreFinished(Err(failed(0, 1))));
    assert!(matches!(
        action,
        Action::Exit {
            result: Err(ClientError::Command(CommandError {
                index: 0,
                failure: CommandFailure::Status(1)
            })),
            later: None,
            last: None
        }
    ));
}

#[test]
fn failed_restore_after_an_error_is_kept_beside_it() {
    let (c, _) = running(Some("host")).step(Event::TunnelFinished(Err(tunnel_failed())));
    let (c, _) = c.step(Event::Collapsed { tunnel: None });
    let (_, action) = c.step(Event::RestoreFinished(Err(failed(2, 4))));
    assert!(matches!(
        action,
        Action::Exit {
            result: Err(ClientError::Io(_)),
            later: Some(ClientError::Command(CommandError {
                index: 2,
                failure: CommandFailure::Status(4)
            })),
            last: None
        }
    ));
}

#[test]
fn events_out_of_turn_change_nothing() {
    let (c, _) = Coordinator::start(&config(None));
    let (c, action) = c.step(Event::SetupFinished(Ok(())));
    assert!(matches!(action, Action::Rejected));
    assert!(matches!(c, Coordinator::Installing { tunnel: false }));
    let (c, action) = c.step(Event::ShutdownRequested);
    assert!(matches!(action, Action::Rejected));
    let (c, _) = c.step(Event::HandlerInstalled(Ok(())));
    let (c, action) = c.step(Event::RestoreFinished(Ok(())));
    assert!(matches!(action, Action::Rejected));
    assert!(matches!(c, Coordinator::Planning { tunnel: false }));
}

#[test]
fn nothing_follows_the_exit() {
    let (c, _) = running(None).step(Event::ShutdownRequested);
    let (c, _) = c.step(Event::Collapsed { tunnel: None });
    let (c, _) = c.step(Event::RestoreFinished(Ok(())));
    let (c, action) = c.step(Event::HandlerInstalled(Ok(())));
    assert!(matches!(action, Action::Rejected));
    let (c, action) = c.step(Event::RestoreFinished(Ok(())));
    assert!(matches!(action, Action::Rejected));
    assert!(matches!(c, Coordinator::Finished));
}

#[test]
fn exit_code_is_zero_only_for_ok() {
    assert_eq!(Coordinator::exit_code(&Ok(())), 0);
    assert_eq!(Coordinator::exit_code(&Err(tunnel_failed())), 1);
    assert_eq!(Coordinator::exit_code(&Err(ClientError::Command(failed(0, 1)))), 1);
}

#[test]
fn clean_end_of_the_tunnel_during_the_collapse_is_no_error() {
    let (c, _) = running(Some("host")).step(Event::ShutdownRequested);
    let (c, action) = c.step(Event::Collapsed { tunnel: Some(Ok(())) });
    assert!(matches!(action, Action::RunRestore(ref r) if *r == restore()));
    assert!(matches!(c, Coordinator::Restoring { failure: None, later: None }));
    let (_, action) = c.step(Event::RestoreFinished(Ok(())));
    assert!(matches!(action, Action::Exit { result: Ok(()), later: None, last: None }));
}

#[test]
fn failed_kill_after_a_shutdown_request_is_the_error_of_the_run() {
    let (c, _) = running(Some("host")).step(Event::ShutdownRequested);
    let (c, action) = c.step(Event::Collapsed { tunnel: Some(Err(kill_failed())) });
    assert!(matches!(action, Action::RunRestore(ref r) if *r == restore()));
    let (_, action) = c.step(Event::RestoreFinished(Ok(())));
    match action {
        Action::Exit { result, later: None, last: None } => {
            assert!(matches!(
                result,
                Err(ClientError::Io(ref e)) if e.kind() == std::io::ErrorKind::PermissionDenied
            ));
            assert_eq!(Coordinator::exit_code(&result), 1);
        }
        other => panic!("unexpected action {:?}", other),
    }
}

#[test]
fn three_errors_are_all_kept_in_their_order() {
    let pool = ClientError::from(std::io::Error::new(std::io::ErrorKind::AddrInUse, "taken"));
    let (c, action) = running(Some("host")).step(Event::PoolFinished(Err(pool)));
    assert!(matches!(action, Action::Collapse { signal_tunnel: true }));
    let (c, _) = c.step(Event::Collapsed { tunnel: Some(Err(kill_failed())) });
    assert!(matches!(c, Coordinator::Restoring { failure: Some(_), later: Some(_) }));
    let (_, action) = c.step(Event::RestoreFinished(Err(failed(1, 9))));
    match action {
        Action::Exit {
            result: Err(ClientError::Io(first)),
            later: Some(ClientError::Io(second)),
            last: Some(ClientError::Command(third)),
        } => {
            assert_eq!(first.kind(), std::io::ErrorKind::AddrInUse);
            assert_eq!(second.kind(), std::io::ErrorKind::PermissionDenied);
            assert!(matches!(third, CommandError { index: 1, failure: CommandFailure::Status(9) }));
        }
        other => panic!("unexpected action {:?}", other),
    }
}

#[test]
fn failed_kill_and_failed_restore_are_kept_in_their_order() {
    let (c, _) = running(Some("host")).step(Event::ShutdownRequested);
    let (c, _) = c.step(Event::Collapsed { tunnel: Some(Err(kill_failed())) });
    let (_, action) = c.step(Event::RestoreFinished(Err(failed(0, 2))));
    assert!(matches!(
        action,
        Action::Exit {
            result: Err(ClientError::Io(_)),
            later: Some(ClientError::Command(CommandError {
                index: 0,
                failure: CommandFailure::Status(2)
            })),
            last: None
        }
    ));
}

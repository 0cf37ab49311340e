use sync_image::client::ClientActionState;
use sync_image::interaction::{InteractionRequest, PasswordRequest};
use sync_image::runtime::{RuntimeError, RuntimeManager, RuntimeStatus};

#[test]
fn starts_once_and_stops_once() {
    let mut manager: RuntimeManager<u32> = RuntimeManager::new();
    assert_eq!(manager.status(), RuntimeStatus::Stopped);

    let started = manager.start(|| Ok::<_, String>(ClientActionState::Ready(7u32)));
    assert!(matches!(started, Ok(ClientActionState::Ready(RuntimeStatus::Running))));
    assert_eq!(manager.status(), RuntimeStatus::Running);

    let mut called = false;
    let again = manager.start(|| {
        called = true;
        Ok::<_, String>(ClientActionState::Ready(8u32))
    });
    assert!(matches!(again, Err(RuntimeError::AlreadyRunning)));
    assert!(!called);
    assert_eq!(again.unwrap_err().refusal_message().as_deref(), Some("runtime is already running"));

    let mut seen = None;
    let stopped = manager.stop(|rt| {
        seen = Some(rt);
        Ok::<(), String>(())
    });
    assert!(matches!(stopped, Ok(RuntimeStatus::Stopped)));
    assert_eq!(seen, Some(7));
    assert_eq!(manager.status(), RuntimeStatus::Stopped);

    let not_running = manager.stop(|_| Ok::<(), String>(()));
    assert_eq!(not_running.unwrap_err().refusal_message().as_deref(), Some("runtime is not running"));
}

#[test]
fn questions_and_failures_leave_it_stopped() {
    let mut manager: RuntimeManager<u32> = RuntimeManager::new();
    let q = InteractionRequest::Password(PasswordRequest {
        host: "h".to_string(),
        port: 22,
        user: "u".to_string(),
    });
    let asked = manager.start(|| Ok::<_, String>(ClientActionState::NeedsInteraction(q.clone())));
    assert!(matches!(asked, Ok(ClientActionState::NeedsInteraction(_))));
    assert_eq!(manager.status(), RuntimeStatus::Stopped);
    let failed = manager.start(|| Err::<ClientActionState<u32>, _>("boom".to_string()));
    assert!(matches!(failed, Err(RuntimeError::Failed(ref m)) if m == "boom"));
    assert_eq!(manager.status(), RuntimeStatus::Stopped);

    manager.start(|| Ok::<_, String>(ClientActionState::Ready(1u32))).unwrap();
    let halt_failed = manager.stop(|_| Err::<(), String>("stuck".to_string()));
    assert!(matches!(halt_failed, Err(RuntimeError::Failed(_))));
    assert_eq!(manager.status(), RuntimeStatus::Stopped);
}

#[test]
fn default_manager_is_stopped() {
    let manager: RuntimeManager<u32> = RuntimeManager::default();
    assert_eq!(manager.status(), RuntimeStatus::Stopped);
}

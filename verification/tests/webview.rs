use mofa_studio::ipc::IpcMessage;
use mofa_studio::webview::config::{WebViewBounds, WebViewConfig, WebViewError};
use mofa_studio::webview::platform_handle::{choose_window, PlatformHandleError};
use mofa_studio::webview::surface::{
    ipc_actions, ActivationStep, FrameStep, SurfaceLifecycle, WebViewAction, WebViewContainer,
    INITIAL_DELAY, MAX_INIT_ATTEMPTS, RETRY_INTERVAL,
};
use mofa_studio::webview::view::{ManagedWebView, ViewCommand, BRIDGE_SCRIPT};

fn failure() -> Result<(), WebViewError> {
    Err(WebViewError::PlatformHandle(PlatformHandleError::NoWindow))
}

fn ready_surface() -> WebViewContainer {
    let mut surface = WebViewContainer::new("http://localhost:5173".to_string(), true, false);
    surface.set_active(true);
    loop {
        if let FrameStep::Attempt(_) = surface.next_frame() {
            surface.initialize_webview(Ok(()));
            return surface;
        }
    }
}

#[test]
fn bounds_are_built_from_their_parts() {
    let b = WebViewBounds::new(1, -2, 3, 4);
    assert_eq!((b.x, b.y, b.width, b.height), (1, -2, 3, 4));
    assert_eq!(WebViewBounds::default(), WebViewBounds::new(0, 0, 0, 0));
    assert_eq!(WebViewBounds::for_rect(5, 6, 0, 0), WebViewBounds::new(5, 6, 1, 1));
    assert_eq!(WebViewBounds::for_rect(5, 6, 7, 8), WebViewBounds::new(5, 6, 7, 8));
}

#[test]
fn default_config_is_a_blank_page() {
    let config = WebViewConfig::default();
    assert_eq!(config.url, "about:blank");
    assert_eq!(config.bounds, WebViewBounds::default());
    assert!(!config.devtools);
    assert!(!config.transparent);
    assert!(config.user_agent.is_none());
    let copy = config.clone();
    assert_eq!(copy.url, "about:blank");
}

#[test]
fn errors_describe_themselves() {
    assert_eq!(PlatformHandleError::NoWindow.to_string(), "No window available");
    assert_eq!(PlatformHandleError::NotOnMainThread.to_string(), "Must be called from main thread");
    assert_eq!(PlatformHandleError::UnsupportedPlatform.to_string(), "Unsupported platform");
    assert_eq!(WebViewError::NotInitialized.to_string(), "WebView not initialized");
    assert_eq!(WebViewError::AlreadyInitialized.to_string(), "WebView already initialized");
    assert_eq!(WebViewError::WryError("boom".to_string()).to_string(), "Wry error: boom");
    assert_eq!(
        WebViewError::from(PlatformHandleError::NoWindow).to_string(),
        "Platform handle error: No window available"
    );
}

#[test]
fn the_focused_window_is_chosen_first() {
    assert_eq!(choose_window(true, Some(1), Some(2), Some(3)), Ok(1));
    assert_eq!(choose_window(true, None, Some(2), Some(3)), Ok(2));
    assert_eq!(choose_window(true, None, None, Some(3)), Ok(3));
    assert_eq!(choose_window::<u8>(true, None, None, None), Err(PlatformHandleError::NoWindow));
    assert_eq!(
        choose_window(false, Some(1), Some(2), Some(3)),
        Err(PlatformHandleError::NotOnMainThread)
    );
}

#[test]
fn a_view_refuses_commands_until_it_is_initialized() {
    let mut view = ManagedWebView::new(WebViewConfig::default());
    assert!(!view.is_initialized());
    assert!(view.is_visible());
    assert!(matches!(view.load_url("http://a"), Err(WebViewError::NotInitialized)));
    assert!(matches!(view.eval("1"), Err(WebViewError::NotInitialized)));
    assert!(matches!(view.send_to_js("c", "1"), Err(WebViewError::NotInitialized)));
    assert!(matches!(view.inject_ipc_bridge(), Err(WebViewError::NotInitialized)));
    assert!(matches!(
        view.set_bounds(WebViewBounds::new(1, 2, 3, 4)),
        Err(WebViewError::NotInitialized)
    ));
    assert_eq!(view.bounds(), WebViewBounds::default());
    assert!(view.set_visible(false).is_none());
    assert!(view.is_visible());
    assert!(view.teardown().is_none());
}

#[test]
fn a_view_is_initialized_once() {
    let mut view = ManagedWebView::new(WebViewConfig::default());
    assert_eq!(view.build_config().unwrap().url, "about:blank");
    assert!(matches!(view.initialize(failure()), Err(WebViewError::PlatformHandle(_))));
    assert!(!view.is_initialized());
    assert!(view.initialize(Ok(())).is_ok());
    assert!(view.is_initialized());
    assert!(matches!(view.initialize(Ok(())), Err(WebViewError::AlreadyInitialized)));
    assert!(matches!(view.build_config(), Err(WebViewError::AlreadyInitialized)));
    assert!(view.is_initialized());
}

#[test]
fn a_platform_failure_is_handed_back() {
    let mut view = ManagedWebView::new(WebViewConfig::default());
    match view.initialize(Err(WebViewError::WryError("no webkit".to_string()))) {
        Err(WebViewError::WryError(text)) => assert_eq!(text, "no webkit"),
        other => panic!("unexpected {:?}", other),
    }
    assert!(!view.is_initialized());
    let mut surface = WebViewContainer::new(String::new(), true, false);
    surface.set_active(true);
    let mut told = Vec::new();
    for _ in 0..1000 {
        if let FrameStep::Attempt(_) = surface.next_frame() {
            let outcome =
                surface.initialize_webview(Err(WebViewError::WryError("no webkit".to_string())));
            if let WebViewAction::InitFailed(reason) = outcome.action {
                told.push(reason);
            }
        }
    }
    assert_eq!(told, vec!["Wry error: no webkit".to_string()]);
}

#[test]
fn an_initialized_view_hands_back_commands() {
    let mut view = ManagedWebView::new(WebViewConfig::default());
    view.initialize(Ok(())).unwrap();
    assert!(matches!(view.load_url("http://a"), Ok(ViewCommand::LoadUrl(u)) if u == "http://a"));
    assert!(matches!(view.eval("1+1"), Ok(ViewCommand::Eval(js)) if js == "1+1"));
    assert!(matches!(view.go_back(), Ok(ViewCommand::Eval(js)) if js == "history.back()"));
    assert!(matches!(view.go_forward(), Ok(ViewCommand::Eval(js)) if js == "history.forward()"));
    assert!(matches!(view.reload(), Ok(ViewCommand::Eval(js)) if js == "location.reload()"));
    let bounds = WebViewBounds::new(1, 2, 3, 4);
    assert!(matches!(view.set_bounds(bounds), Ok(ViewCommand::SetBounds(b)) if b == bounds));
    assert_eq!(view.bounds(), bounds);
    assert!(matches!(view.set_visible(false), Some(ViewCommand::SetVisible(false))));
    assert!(!view.is_visible());
    assert!(matches!(view.inject_ipc_bridge(), Ok(ViewCommand::Eval(js)) if js == BRIDGE_SCRIPT));
    assert!(matches!(view.teardown(), Some(ViewCommand::Destroy)));
    assert!(!view.is_initialized());
}

#[test]
fn messages_to_hosted_content_are_wrapped_in_a_script() {
    let mut view = ManagedWebView::new(WebViewConfig::default());
    view.initialize(Ok(())).unwrap();
    let expected = format!(
        r#"
            if (window.__mofa_ipc && window.__mofa_ipc.receive) {{
                window.__mofa_ipc.receive("{}", {});
            }}
            "#,
        "status", "{\"ok\":true}"
    );
    match view.send_to_js("status", "{\"ok\":true}") {
        Ok(ViewCommand::Eval(js)) => assert_eq!(js, expected),
        other => panic!("unexpected {:?}", other),
    }
}

#[test]
fn the_bridge_script_sets_up_send_and_on() {
    assert!(BRIDGE_SCRIPT.contains("window.__mofa_ipc = {"));
    assert!(BRIDGE_SCRIPT.contains("send: function(channel, data)"));
    assert!(BRIDGE_SCRIPT.contains("on: function(channel, callback)"));
    assert!(BRIDGE_SCRIPT.contains("receive: function(channel, data)"));
    assert!(BRIDGE_SCRIPT.contains("window.ipc.postMessage(JSON.stringify({"));
}

#[test]
fn an_inactive_surface_only_counts_frames() {
    let mut surface = WebViewContainer::new(String::new(), true, false);
    assert_eq!(surface.state(), SurfaceLifecycle::Inactive);
    assert!(!surface.is_active());
    assert!(!surface.wants_frame());
    for _ in 0..100 {
        assert!(matches!(surface.next_frame(), FrameStep::Idle));
    }
    assert_eq!(surface.state(), SurfaceLifecycle::Inactive);
    assert!(!surface.is_initialized());
}

#[test]
fn the_first_attempt_waits_for_the_initial_delay() {
    let mut surface = WebViewContainer::new(String::new(), true, false);
    assert_eq!(surface.set_active(true), ActivationStep::RequestFrame);
    assert_eq!(surface.set_active(true), ActivationStep::Idle);
    assert_eq!(surface.state(), SurfaceLifecycle::PendingInitialAttempt);
    assert!(surface.wants_frame());
    for _ in 1..INITIAL_DELAY {
        assert!(matches!(surface.next_frame(), FrameStep::Idle));
    }
    match surface.next_frame() {
        FrameStep::Attempt(config) => {
            assert_eq!(config.url, "about:blank");
            assert_eq!(config.bounds, WebViewBounds::new(0, 0, 800, 600));
            assert!(config.devtools);
            assert!(!config.transparent);
            assert!(config.user_agent.is_none());
        }
        other => panic!("unexpected {:?}", other),
    }
    assert_eq!(surface.state(), SurfaceLifecycle::Retrying);
}

#[test]
fn an_attempt_is_built_with_the_url_and_the_cached_bounds() {
    let mut surface = WebViewContainer::new("http://localhost:5173".to_string(), false, true);
    surface.set_active(true);
    assert!(surface.sync_bounds(WebViewBounds::new(10, 20, 300, 400)).is_none());
    loop {
        if let FrameStep::Attempt(config) = surface.next_frame() {
            assert_eq!(config.url, "http://localhost:5173");
            assert_eq!(config.bounds, WebViewBounds::new(10, 20, 300, 400));
            assert!(!config.devtools);
            assert!(config.transparent);
            break;
        }
    }
}

#[test]
fn success_initializes_and_later_frames_show_the_view() {
    let mut surface = ready_surface();
    assert!(surface.is_initialized());
    assert_eq!(surface.state(), SurfaceLifecycle::Initialized);
    assert!(!surface.wants_frame());
    for _ in 0..50 {
        assert!(matches!(surface.next_frame(), FrameStep::Show));
    }
}

#[test]
fn the_outcome_of_a_success_asks_for_the_bridge() {
    let mut surface = WebViewContainer::new(String::new(), true, false);
    surface.set_active(true);
    loop {
        if let FrameStep::Attempt(_) = surface.next_frame() {
            break;
        }
    }
    let outcome = surface.initialize_webview(Ok(()));
    assert!(matches!(outcome.action, WebViewAction::Initialized));
    assert!(outcome.inject_bridge);
    assert!(!outcome.hide);
    assert!(matches!(surface.inject_ipc_bridge(), Ok(ViewCommand::Eval(js)) if js == BRIDGE_SCRIPT));
    let stray = surface.initialize_webview(Ok(()));
    assert!(matches!(stray.action, WebViewAction::Nothing));
    assert!(!stray.inject_bridge);
}

#[test]
fn a_view_built_for_a_surface_that_went_inactive_is_hidden() {
    let mut surface = WebViewContainer::new(String::new(), true, false);
    surface.set_active(true);
    loop {
        if let FrameStep::Attempt(_) = surface.next_frame() {
            break;
        }
    }
    assert_eq!(surface.set_active(false), ActivationStep::Idle);
    let outcome = surface.initialize_webview(Ok(()));
    assert!(matches!(outcome.action, WebViewAction::Initialized));
    assert!(outcome.hide);
    assert!(surface.is_initialized());
}

#[test]
fn failures_are_retried_after_the_interval_and_told_once_at_the_end() {
    let mut surface = WebViewContainer::new(String::new(), true, false);
    surface.set_active(true);
    let mut frame: u64 = 0;
    let mut attempts_at: Vec<u64> = Vec::new();
    let mut told: Vec<String> = Vec::new();
    for _ in 0..2000 {
        frame += 1;
        if let FrameStep::Attempt(_) = surface.next_frame() {
            attempts_at.push(frame);
            match surface.initialize_webview(failure()).action {
                WebViewAction::InitFailed(reason) => told.push(reason),
                WebViewAction::Nothing => {}
                other => panic!("unexpected {:?}", other),
            }
        }
    }
    assert_eq!(attempts_at.len(), MAX_INIT_ATTEMPTS as usize);
    assert_eq!(attempts_at[0], INITIAL_DELAY);
    for pair in attempts_at.windows(2) {
        assert_eq!(pair[1] - pair[0], RETRY_INTERVAL);
    }
    assert_eq!(told, vec!["Platform handle error: No window available".to_string()]);
    assert_eq!(surface.state(), SurfaceLifecycle::Exhausted);
    assert!(!surface.wants_frame());
    assert!(!surface.is_initialized());
}

#[test]
fn exhaustion_survives_going_inactive_and_active_again() {
    let mut surface = WebViewContainer::new(String::new(), true, false);
    surface.set_active(true);
    let mut attempts = 0;
    for _ in 0..1000 {
        if let FrameStep::Attempt(_) = surface.next_frame() {
            attempts += 1;
            surface.initialize_webview(failure());
        }
    }
    assert_eq!(attempts, MAX_INIT_ATTEMPTS);
    assert_eq!(surface.state(), SurfaceLifecycle::Exhausted);
    assert_eq!(surface.set_active(false), ActivationStep::Idle);
    assert_eq!(surface.state(), SurfaceLifecycle::Exhausted);
    assert_eq!(surface.set_active(true), ActivationStep::RequestFrame);
    assert_eq!(surface.state(), SurfaceLifecycle::Exhausted);
    for _ in 0..1000 {
        assert!(matches!(surface.next_frame(), FrameStep::Idle));
    }
}

#[test]
fn attempts_made_are_kept_while_inactive() {
    let mut surface = WebViewContainer::new(String::new(), true, false);
    surface.set_active(true);
    let mut attempts = 0;
    while attempts < 3 {
        if let FrameStep::Attempt(_) = surface.next_frame() {
            attempts += 1;
            surface.initialize_webview(failure());
        }
    }
    surface.set_active(false);
    for _ in 0..500 {
        assert!(matches!(surface.next_frame(), FrameStep::Idle));
    }
    surface.set_active(true);
    for _ in 0..1000 {
        if let FrameStep::Attempt(_) = surface.next_frame() {
            attempts += 1;
            surface.initialize_webview(failure());
        }
    }
    assert_eq!(attempts, MAX_INIT_ATTEMPTS);
}

#[test]
fn going_inactive_hides_the_view() {
    let mut surface = ready_surface();
    assert_eq!(surface.set_active(false), ActivationStep::Hide);
    assert_eq!(surface.state(), SurfaceLifecycle::Inactive);
    assert!(matches!(surface.next_frame(), FrameStep::Idle));
    assert_eq!(surface.set_active(true), ActivationStep::RequestFrame);
    assert!(matches!(surface.next_frame(), FrameStep::Show));
}

#[test]
fn bounds_are_forwarded_only_when_they_change_on_an_active_view() {
    let mut surface = ready_surface();
    let a = WebViewBounds::new(0, 0, 100, 100);
    let b = WebViewBounds::new(0, 0, 200, 100);
    assert!(matches!(surface.sync_bounds(a), Some(ViewCommand::SetBounds(x)) if x == a));
    assert!(surface.sync_bounds(a).is_none());
    assert!(surface.sync_bounds(a).is_none());
    assert!(matches!(surface.sync_bounds(b), Some(ViewCommand::SetBounds(x)) if x == b));
    surface.set_active(false);
    assert!(surface.sync_bounds(a).is_none());
    surface.set_active(true);
    assert!(surface.sync_bounds(a).is_none());
    assert!(matches!(surface.sync_bounds(b), Some(ViewCommand::SetBounds(x)) if x == b));
}

#[test]
fn bounds_are_not_forwarded_without_a_view() {
    let mut surface = WebViewContainer::new(String::new(), true, false);
    surface.set_active(true);
    assert!(surface.sync_bounds(WebViewBounds::new(0, 0, 1, 1)).is_none());
    assert!(surface.sync_bounds(WebViewBounds::new(0, 0, 2, 2)).is_none());
}

#[test]
fn a_surface_without_view_refuses_commands() {
    let mut surface = WebViewContainer::new(String::new(), true, false);
    assert!(matches!(surface.load_url("http://a"), Err(WebViewError::NotInitialized)));
    assert!(matches!(surface.eval("1"), Err(WebViewError::NotInitialized)));
    assert!(matches!(surface.send_to_js("c", "1"), Err(WebViewError::NotInitialized)));
    assert!(matches!(surface.set_visible(true), Err(WebViewError::NotInitialized)));
    assert!(matches!(surface.inject_ipc_bridge(), Err(WebViewError::NotInitialized)));
    assert!(surface.teardown().is_none());
}

#[test]
fn a_surface_with_view_forwards_commands() {
    let mut surface = ready_surface();
    assert!(matches!(surface.eval("1"), Ok(ViewCommand::Eval(js)) if js == "1"));
    assert!(matches!(surface.send_to_js("c", "1"), Ok(ViewCommand::Eval(_))));
    assert!(matches!(surface.set_visible(false), Ok(ViewCommand::SetVisible(false))));
    match surface.load_url("http://127.0.0.1:8080") {
        Ok((ViewCommand::LoadUrl(url), WebViewAction::UrlChanged(told))) => {
            assert_eq!(url, "http://127.0.0.1:8080");
            assert_eq!(told, "http://127.0.0.1:8080");
        }
        other => panic!("unexpected {:?}", other),
    }
    assert!(matches!(surface.teardown(), Some(ViewCommand::Destroy)));
    assert!(!surface.is_initialized());
}

#[test]
fn polled_messages_become_notifications() {
    let actions = ipc_actions(vec![
        IpcMessage { channel: "a".to_string(), data: "1".to_string() },
        IpcMessage { channel: "b".to_string(), data: "2".to_string() },
    ]);
    assert_eq!(actions.len(), 2);
    assert!(matches!(&actions[0], WebViewAction::IpcMessage { channel, data } if channel == "a" && data == "1"));
    assert!(matches!(&actions[1], WebViewAction::IpcMessage { channel, data } if channel == "b" && data == "2"));
}

use mofa_studio::plugins::loader::{
    first_existing, get_python_cmd, LoadedPlugin, PluginError, PluginLoader, ScanEntry,
    StartStep,
};
use mofa_studio::plugins::manifest::{ManifestError, PluginManifest, PluginType};
use mofa_studio::webview::surface::{FrameStep, WebViewAction, WebViewContainer};
use mofa_studio::webview::view::ViewCommand;

fn manifest(id: &str) -> PluginManifest {
    PluginManifest::from_json(&format!(
        r#"{{"id":"{}","name":"Name of {}","version":"1.0.0"}}"#,
        id, id
    ))
    .unwrap()
}

fn file(dir: &str, content: &str) -> ScanEntry {
    ScanEntry { path: dir.to_string(), is_dir: true, manifest: Some(Ok(content.to_string())) }
}

#[test]
fn test_parse_manifest() {
    let json = r#"{
            "id": "test-plugin",
            "name": "Test Plugin",
            "version": "1.0.0",
            "description": "A test plugin",
            "author": "Test Author",
            "type": "webview",
            "python_entry": "python/app.py"
        }"#;

    let manifest: PluginManifest = PluginManifest::from_json(json).unwrap();
    assert_eq!(manifest.id, "test-plugin");
    assert_eq!(manifest.kind, PluginType::WebView);
}

#[test]
fn manifest_defaults() {
    let m = manifest("demo");
    assert_eq!(m.name, "Name of demo");
    assert_eq!(m.version, "1.0.0");
    assert_eq!(m.description, "");
    assert_eq!(m.author, "");
    assert_eq!(m.kind, PluginType::WebView);
    assert!(m.icon.is_none());
    assert!(m.python_entry.is_none());
    assert!(m.static_dir.is_none());
    assert!(m.show_in_sidebar);
    assert!(m.min_version.is_none());
    assert!(m.homepage.is_none());
    assert!(m.repository.is_none());
    assert_eq!(m.get_python_entry(), "python/app.py");
    assert_eq!(m.get_static_dir(), "static");
    assert_eq!(PluginType::default(), PluginType::WebView);
}

#[test]
fn manifest_fields_are_read() {
    let m = PluginManifest::from_json(
        r#"{"id":"a","name":"b","version":"c","description":"d","author":"e","type":"native",
            "icon":"i.png","python_entry":"run.py","static_dir":"www","show_in_sidebar":false,
            "min_version":"0.2","homepage":"h","repository":null,"unknown":[1,2]}"#,
    )
    .unwrap();
    assert_eq!(m.description, "d");
    assert_eq!(m.author, "e");
    assert_eq!(m.kind, PluginType::Native);
    assert_eq!(m.icon.as_deref(), Some("i.png"));
    assert_eq!(m.get_python_entry(), "run.py");
    assert_eq!(m.get_static_dir(), "www");
    assert!(!m.show_in_sidebar);
    assert_eq!(m.min_version.as_deref(), Some("0.2"));
    assert_eq!(m.homepage.as_deref(), Some("h"));
    assert!(m.repository.is_none());
}

#[test]
fn manifest_faults() {
    assert!(matches!(PluginManifest::from_json("{"), Err(ManifestError::Syntax(_))));
    assert!(matches!(PluginManifest::from_json("[1]"), Err(ManifestError::NotAnObject)));
    match PluginManifest::from_json(r#"{"name":"b","version":"c"}"#) {
        Err(ManifestError::MissingField(f)) => assert_eq!(f, "id"),
        other => panic!("unexpected {:?}", other),
    }
    match PluginManifest::from_json(r#"{"id":"a","name":7,"version":"c"}"#) {
        Err(ManifestError::InvalidField(f)) => assert_eq!(f, "name"),
        other => panic!("unexpected {:?}", other),
    }
    match PluginManifest::from_json(r#"{"id":"a","name":"b","version":"c","type":"applet"}"#) {
        Err(ManifestError::InvalidField(f)) => assert_eq!(f, "type"),
        other => panic!("unexpected {:?}", other),
    }
    match PluginManifest::from_json(r#"{"id":"a","name":"b","version":"c","show_in_sidebar":null}"#) {
        Err(ManifestError::InvalidField(f)) => assert_eq!(f, "show_in_sidebar"),
        other => panic!("unexpected {:?}", other),
    }
    match PluginManifest::from_json(r#"{"id":"a","name":"b","version":"c","description":null}"#) {
        Err(ManifestError::InvalidField(f)) => assert_eq!(f, "description"),
        other => panic!("unexpected {:?}", other),
    }
    let e = PluginManifest::from_json(r#"{"name":"b","version":"c"}"#).unwrap_err();
    assert_eq!(e.to_string(), "Failed to parse manifest: missing field `id`");
    let syntax = PluginManifest::from_json("{").unwrap_err().to_string();
    assert!(syntax.starts_with("Failed to parse manifest: "));
    assert!(syntax.len() > "Failed to parse manifest: ".len());
}

#[test]
fn manifest_from_value_reads_a_tree() {
    let tree: serde_json::Value =
        serde_json::from_str(r#"{"id":"a","name":"b","version":"c"}"#).unwrap();
    let m = PluginManifest::from_value(&tree).unwrap();
    assert_eq!(m.id, "a");
    let other: serde_json::Value = serde_json::from_str("3").unwrap();
    assert!(matches!(PluginManifest::from_value(&other), Err(ManifestError::NotAnObject)));
}

#[test]
fn scan_registers_valid_manifests_and_skips_the_rest() {
    let mut loader = PluginLoader::new("/plugins".to_string(), "python3".to_string());
    let report = loader.scan_plugins(vec![
        file("/plugins/a", r#"{"id":"a","name":"A","version":"1"}"#),
        file("/plugins/broken", "not a manifest"),
        file("/plugins/b", r#"{"id":"b","name":"B","version":"1"}"#),
        file("/plugins/a2", r#"{"id":"a","name":"A again","version":"2"}"#),
    ]);
    assert_eq!(report.loaded, vec!["a".to_string(), "b".to_string(), "a".to_string()]);
    assert_eq!(report.skipped.len(), 1);
    assert_eq!(report.skipped[0].0, "/plugins/broken");
    assert!(report.stop.is_empty());
    assert_eq!(loader.plugin_count(), 2);
    assert_eq!(loader.get_plugin("a").unwrap().dir, "/plugins/a2");
    assert_eq!(loader.get_plugin("a").unwrap().manifest.name, "A again");
    assert_eq!(loader.plugins()[0].manifest.id, "a");
    assert_eq!(loader.plugins()[1].manifest.id, "b");
    assert!(loader.get_plugin("c").is_none());
    assert_eq!(loader.plugins_dir(), "/plugins");
    assert_eq!(loader.python_cmd(), "python3");
}

#[test]
fn scan_takes_directories_with_a_manifest_only() {
    let mut loader = PluginLoader::new("/plugins".to_string(), "python3".to_string());
    let good = r#"{"id":"a","name":"A","version":"1"}"#;
    let report = loader.scan_plugins(vec![
        ScanEntry { path: "/plugins/file".to_string(), is_dir: false, manifest: Some(Ok(good.to_string())) },
        ScanEntry { path: "/plugins/empty".to_string(), is_dir: true, manifest: None },
        ScanEntry {
            path: "/plugins/locked".to_string(),
            is_dir: true,
            manifest: Some(Err("permission denied".to_string())),
        },
        ScanEntry { path: "/plugins/a".to_string(), is_dir: true, manifest: Some(Ok(good.to_string())) },
    ]);
    assert_eq!(report.loaded, vec!["a".to_string()]);
    assert_eq!(report.skipped.len(), 1);
    assert_eq!(report.skipped[0].0, "/plugins/locked");
    assert_eq!(report.skipped[0].1.to_string(), "Failed to read manifest: permission denied");
    assert_eq!(loader.plugin_count(), 1);
    assert_eq!(loader.get_plugin("a").unwrap().dir, "/plugins/a");
}

#[test]
fn manifest_of_a_file_that_could_not_be_read() {
    match PluginManifest::from_file(&Err("gone".to_string())) {
        Err(ManifestError::Unreadable(reason)) => assert_eq!(reason, "gone"),
        other => panic!("unexpected {:?}", other),
    }
    let read = Ok(r#"{"id":"a","name":"A","version":"1"}"#.to_string());
    assert_eq!(PluginManifest::from_file(&read).unwrap().id, "a");
}

#[test]
fn rescan_hands_back_the_process_of_a_displaced_plugin() {
    let mut loader = PluginLoader::new("/plugins".to_string(), "python3".to_string());
    loader.scan_plugins(vec![file("/plugins/a", r#"{"id":"a","name":"A","version":"1"}"#)]);
    let outcome = loader.plugin_started("a", 4000, Ok(77));
    assert_eq!(outcome.result.unwrap(), 4000);
    let report =
        loader.scan_plugins(vec![file("/plugins/a", r#"{"id":"a","name":"A","version":"1"}"#)]);
    assert_eq!(report.stop, vec![77]);
    assert!(!loader.get_plugin("a").unwrap().is_server_running());
    assert!(loader.url_for("a").is_none());
}

#[test]
fn start_of_an_unknown_plugin_is_not_found() {
    let loader = PluginLoader::new("/plugins".to_string(), "python3".to_string());
    match loader.start_plugin("ghost") {
        StartStep::Done(Err(PluginError::NotFound(id))) => assert_eq!(id, "ghost"),
        other => panic!("unexpected {:?}", other),
    }
    assert_eq!(
        PluginError::NotFound("ghost".to_string()).to_string(),
        "Plugin not found: ghost"
    );
    match loader.launch_plugin("ghost", Some(1), "x", true) {
        Err(PluginError::NotFound(id)) => assert_eq!(id, "ghost"),
        other => panic!("unexpected {:?}", other),
    }
}

#[test]
fn start_probes_then_launches_then_records() {
    let mut loader = PluginLoader::new("/plugins".to_string(), "/usr/bin/python3".to_string());
    assert!(loader.register(manifest("demo"), "/plugins/demo".to_string()).is_none());
    match loader.start_plugin("demo") {
        StartStep::Probe { dir, entry } => {
            assert_eq!(dir, "/plugins/demo");
            assert_eq!(entry, "python/app.py");
        }
        other => panic!("unexpected {:?}", other),
    }
    let command =
        loader.launch_plugin("demo", Some(54321), "/plugins/demo/python/app.py", true).unwrap();
    assert_eq!(command.program, "/usr/bin/python3");
    assert_eq!(command.working_dir, "/plugins/demo");
    assert_eq!(
        command.args,
        vec!["/plugins/demo/python/app.py".to_string(), "54321".to_string()]
    );
    let outcome = loader.plugin_started("demo", 54321, Ok(9));
    assert_eq!(outcome.result.unwrap(), 54321);
    assert!(outcome.stop.is_none());
    assert!(loader.get_plugin("demo").unwrap().is_server_running());
    assert_eq!(loader.url_for("demo").as_deref(), Some("http://127.0.0.1:54321"));
}

#[test]
fn start_twice_gives_the_same_port_and_asks_for_one_process() {
    let mut loader = PluginLoader::new("/plugins".to_string(), "python3".to_string());
    loader.register(manifest("demo"), "/plugins/demo".to_string());
    assert!(matches!(loader.start_plugin("demo"), StartStep::Probe { .. }));
    assert_eq!(loader.plugin_started("demo", 8123, Ok(1)).result.unwrap(), 8123);
    match loader.start_plugin("demo") {
        StartStep::Done(Ok(port)) => assert_eq!(port, 8123),
        other => panic!("unexpected {:?}", other),
    }
    let again = loader.plugin_started("demo", 9000, Ok(2));
    assert_eq!(again.result.unwrap(), 8123);
    assert_eq!(again.stop, Some(2));
    assert_eq!(loader.get_plugin("demo").unwrap().server_process, Some(1));
}

#[test]
fn launch_failures_leave_the_plugin_stopped() {
    let mut loader = PluginLoader::new("/plugins".to_string(), "python3".to_string());
    loader.register(manifest("demo"), "/plugins/demo".to_string());
    assert!(matches!(
        loader.launch_plugin("demo", None, "/plugins/demo/python/app.py", true),
        Err(PluginError::NoPort)
    ));
    match loader.launch_plugin("demo", Some(1), "/plugins/demo/python/app.py", false) {
        Err(PluginError::EntryNotFound(path)) => assert_eq!(path, "/plugins/demo/python/app.py"),
        other => panic!("unexpected {:?}", other),
    }
    let outcome = loader.plugin_started("demo", 1, Err("no such file".to_string()));
    match outcome.result {
        Err(e) => assert_eq!(e.to_string(), "Failed to start plugin server: no such file"),
        Ok(_) => panic!("spawn failure was lost"),
    }
    assert!(outcome.stop.is_none());
    assert!(!loader.get_plugin("demo").unwrap().is_server_running());
    assert!(loader.url_for("demo").is_none());
    assert_eq!(PluginError::NoPort.to_string(), "No available port");
    assert_eq!(
        PluginError::EntryNotFound("p".to_string()).to_string(),
        "Python entry not found: \"p\""
    );
    assert_eq!(PluginError::PortMissing.to_string(), "Server running but no port");
    assert_eq!(PluginError::NotWebView.to_string(), "Not a WebView plugin");
}

#[test]
fn native_plugins_take_no_process() {
    let m = PluginManifest::from_json(r#"{"id":"n","name":"N","version":"1","type":"native"}"#)
        .unwrap();
    let mut plugin = LoadedPlugin::new(m, "/plugins/n".to_string());
    assert!(matches!(plugin.start_server(), StartStep::Done(Err(PluginError::NotWebView))));
    let outcome = plugin.server_started(1, Ok(5));
    assert!(matches!(outcome.result, Err(PluginError::NotWebView)));
    assert_eq!(outcome.stop, Some(5));
    assert!(!plugin.is_server_running());
}

#[test]
fn a_running_plugin_without_port_reports_it() {
    let mut plugin = LoadedPlugin::new(manifest("x"), "/plugins/x".to_string());
    plugin.server_process = Some(3);
    assert!(matches!(plugin.start_server(), StartStep::Done(Err(PluginError::PortMissing))));
}

#[test]
fn stop_of_a_plugin_that_does_not_run_changes_nothing() {
    let mut loader = PluginLoader::new("/plugins".to_string(), "python3".to_string());
    loader.register(manifest("demo"), "/plugins/demo".to_string());
    assert!(loader.stop_plugin("demo").is_none());
    assert!(loader.stop_plugin("ghost").is_none());
    assert_eq!(loader.plugin_count(), 1);
    assert!(!loader.get_plugin("demo").unwrap().is_server_running());
    assert!(matches!(loader.start_plugin("demo"), StartStep::Probe { .. }));
}

#[test]
fn stop_hands_back_the_process_and_clears_the_port() {
    let mut loader = PluginLoader::new("/plugins".to_string(), "python3".to_string());
    loader.register(manifest("demo"), "/plugins/demo".to_string());
    loader.plugin_started("demo", 8123, Ok(11));
    assert_eq!(loader.stop_plugin("demo"), Some(11));
    assert!(loader.url_for("demo").is_none());
    assert!(loader.stop_plugin("demo").is_none());
}

#[test]
fn stop_all_hands_back_every_running_process() {
    let mut loader = PluginLoader::new("/plugins".to_string(), "python3".to_string());
    for id in ["a", "b", "c", "d"] {
        loader.register(manifest(id), format!("/plugins/{}", id));
    }
    loader.plugin_started("a", 1001, Ok(21));
    loader.plugin_started("c", 1003, Ok(23));
    loader.plugin_started("d", 1004, Ok(24));
    assert_eq!(loader.stop_all(), vec![21, 23, 24]);
    for id in ["a", "b", "c", "d"] {
        assert!(!loader.get_plugin(id).unwrap().is_server_running());
        assert!(loader.url_for(id).is_none());
    }
    assert!(loader.stop_all().is_empty());
}

#[test]
fn sidebar_shows_enabled_plugins_that_ask_for_it() {
    let mut loader = PluginLoader::new("/plugins".to_string(), "python3".to_string());
    loader.register(manifest("a"), "/a".to_string());
    loader.register(
        PluginManifest::from_json(
            r#"{"id":"hidden","name":"H","version":"1","show_in_sidebar":false}"#,
        )
        .unwrap(),
        "/h".to_string(),
    );
    loader.register(manifest("b"), "/b".to_string());
    loader.register(manifest("c"), "/c".to_string());
    assert!(loader.set_enabled("b", false));
    assert!(!loader.set_enabled("ghost", false));
    let shown: Vec<String> =
        loader.sidebar_plugins().iter().map(|p| p.manifest.id.clone()).collect();
    assert_eq!(shown, vec!["a".to_string(), "c".to_string()]);
}

#[test]
fn urls_are_written_in_decimal() {
    let mut plugin = LoadedPlugin::new(manifest("x"), "/x".to_string());
    assert!(plugin.get_url().is_none());
    for port in [0u16, 7, 80, 8080, 65535] {
        plugin.server_port = Some(port);
        assert_eq!(plugin.get_url().unwrap(), format!("http://127.0.0.1:{}", port));
    }
}

#[test]
fn interpreter_is_the_first_that_exists() {
    let paths = vec!["one".to_string(), "two".to_string(), "three".to_string()];
    assert_eq!(first_existing(&paths, &vec![false, true, true]).as_deref(), Some("two"));
    assert_eq!(first_existing(&paths, &vec![false, false, false]), None);
    assert_eq!(first_existing(&paths, &vec![]), None);
    assert_eq!(first_existing(&paths, &vec![false, false]), None);
    assert_eq!(first_existing(&paths, &vec![true]).as_deref(), Some("one"));
    assert_eq!(get_python_cmd(Some("/app/python3".to_string()), &vec![true, true, true]), "/app/python3");
    assert_eq!(get_python_cmd(None, &vec![false, false, false]), "python3");
    assert_eq!(get_python_cmd(None, &vec![false, true, true]), "/opt/homebrew/bin/python3");
    assert_eq!(get_python_cmd(None, &vec![true, true, true]), "/opt/homebrew/bin/python3.11");
    assert_eq!(get_python_cmd(None, &vec![false, false, true]), "/usr/local/bin/python3");
    assert_eq!(get_python_cmd(None, &vec![]), "python3");
}

#[test]
fn discovered_plugin_is_started_and_loaded_into_a_surface() {
    let mut loader = PluginLoader::new("/plugins".to_string(), "python3".to_string());
    let report = loader
        .scan_plugins(vec![file("/plugins/demo", r#"{"id":"demo","name":"Demo","version":"1"}"#)]);
    assert_eq!(report.loaded, vec!["demo".to_string()]);
    assert!(matches!(loader.start_plugin("demo"), StartStep::Probe { .. }));
    let command = loader.launch_plugin("demo", Some(40123), "/plugins/demo/python/app.py", true);
    assert!(command.is_ok());
    let port = loader.plugin_started("demo", 40123, Ok(1)).result.unwrap();
    let url = loader.url_for("demo").unwrap();
    assert_eq!(url, format!("http://127.0.0.1:{}", port));

    let mut surface = WebViewContainer::new(String::new(), true, false);
    surface.set_active(true);
    let mut attempted = false;
    for _ in 0..10 {
        if let FrameStep::Attempt(_) = surface.next_frame() {
            attempted = true;
            let outcome = surface.initialize_webview(Ok(()));
            assert!(matches!(outcome.action, WebViewAction::Initialized));
        }
    }
    assert!(attempted);
    match surface.load_url(&url) {
        Ok((ViewCommand::LoadUrl(sent), WebViewAction::UrlChanged(told))) => {
            assert_eq!(sent, url);
            assert_eq!(told, url);
        }
        other => panic!("unexpected {:?}", other),
    }
}

use closer::{
    Action, CompositorUnavailable, Engine, EngineMessage, LayerConfig, LayerInfo, Snapshot,
};

fn config(pairs: &[(&str, &str)]) -> LayerConfig {
    let mut c = LayerConfig::new();
    for (ns, cmd) in pairs {
        c.insert(ns.to_string(), cmd.to_string());
    }
    c
}

fn names(list: &[&str]) -> Snapshot {
    Snapshot::from_namespaces(list.iter().map(|s| s.to_string()).collect())
}

fn open(ns: &str) -> EngineMessage {
    EngineMessage::OpenLayer(ns.to_string())
}

fn close(ns: &str) -> EngineMessage {
    EngineMessage::CloseLayer(ns.to_string())
}

fn layer(ns: &str) -> LayerInfo {
    LayerInfo::new(ns.to_string())
}

#[test]
fn empty_config_never_shows() {
    let mut engine = Engine::new(LayerConfig::new());
    assert_eq!(engine.handle(&open("x")), Action::Done);
    assert!(!engine.is_visible());
    let cmds = engine.update(&open("x"), &names(&["x"]));
    assert!(cmds.is_empty());
    assert!(!engine.is_visible());
}

#[test]
fn single_panel_open_then_dismiss() {
    let mut engine = Engine::new(config(&[("audio", "echo a")]));
    assert_eq!(engine.handle(&open("audio")), Action::Done);
    assert!(engine.is_visible());
    assert_eq!(engine.handle(&EngineMessage::Hide), Action::QuerySnapshot);
    assert!(engine.is_visible());
    let cmds = engine
        .reconcile(&EngineMessage::Hide, Ok(names(&["audio"])))
        .unwrap();
    assert_eq!(cmds, vec!["echo a".to_string()]);
    assert!(!engine.is_visible());
}

#[test]
fn two_panels_close_in_turn() {
    let mut engine = Engine::new(config(&[("audio", "echo a"), ("sidebar", "echo s")]));
    engine.handle(&open("audio"));
    engine.handle(&open("sidebar"));
    assert!(engine.is_visible());
    assert_eq!(engine.handle(&close("audio")), Action::QuerySnapshot);
    let cmds = engine
        .reconcile(&close("audio"), Ok(names(&["bar", "sidebar"])))
        .unwrap();
    assert!(cmds.is_empty());
    assert!(engine.is_visible());
    let cmds = engine
        .reconcile(&close("sidebar"), Ok(names(&["bar", "wallpaper"])))
        .unwrap();
    assert!(cmds.is_empty());
    assert!(!engine.is_visible());
}

#[test]
fn query_failure_during_dismiss_is_fatal() {
    let mut engine = Engine::new(config(&[("audio", "echo a")]));
    engine.handle(&open("audio"));
    let r = engine.reconcile(&EngineMessage::Hide, Err(CompositorUnavailable));
    assert_eq!(r, Err(CompositorUnavailable));
    assert!(engine.is_visible());
}

#[test]
fn query_failure_during_close_is_fatal() {
    let mut engine = Engine::new(config(&[("audio", "echo a")]));
    engine.handle(&open("audio"));
    let r = engine.reconcile(&close("audio"), Err(CompositorUnavailable));
    assert_eq!(r, Err(CompositorUnavailable));
    assert!(engine.is_visible());
}

#[test]
fn repeated_open_stays_visible() {
    let mut engine = Engine::new(config(&[("audio", "echo a")]));
    for _ in 0..3 {
        let cmds = engine.update(&open("audio"), &names(&["audio"]));
        assert!(cmds.is_empty());
        assert!(engine.is_visible());
    }
}

#[test]
fn untracked_messages_are_inert() {
    let mut engine = Engine::new(config(&[("audio", "echo a")]));
    assert!(engine.update(&open("launcher"), &Snapshot::new()).is_empty());
    assert!(!engine.is_visible());
    engine.open_layer(&"audio".to_string());
    assert!(engine.is_visible());
    let cmds = engine.update(&close("launcher"), &names(&["launcher", "audio"]));
    assert!(cmds.is_empty());
    assert!(engine.is_visible());
    let cmds = engine.update(&EngineMessage::Hide, &names(&["launcher", "bar"]));
    assert!(cmds.is_empty());
    assert!(!engine.is_visible());
}

#[test]
fn close_untracked_with_no_tracked_layer_stays_visible() {
    let mut engine = Engine::new(config(&[("audio", "echo a")]));
    engine.open_layer(&"audio".to_string());
    engine.close_layer(&"launcher".to_string(), &names(&["launcher"]));
    assert!(engine.is_visible());
    let cmds = engine
        .reconcile(&close("launcher"), Ok(Snapshot::new()))
        .unwrap();
    assert!(cmds.is_empty());
    assert!(engine.is_visible());
}

#[test]
fn closing_while_hidden_stays_hidden() {
    let mut engine = Engine::new(config(&[("audio", "echo a"), ("sidebar", "echo s")]));
    engine.close_layer(&"audio".to_string(), &names(&["sidebar"]));
    assert!(!engine.is_visible());
}

#[test]
fn dismiss_fans_out_in_traversal_order() {
    let mut engine = Engine::new(config(&[("a", "cmdA"), ("b", "cmdB")]));
    engine.open_layer(&"b".to_string());
    let snapshot = Snapshot {
        outputs: vec![
            vec![vec![layer("bar")], vec![layer("b"), layer("wallpaper")]],
            vec![vec![], vec![layer("notifications"), layer("a")]],
        ],
    };
    let cmds = engine.dismiss(&snapshot);
    assert_eq!(cmds, vec!["cmdB".to_string(), "cmdA".to_string()]);
    assert!(!engine.is_visible());
}

#[test]
fn dismiss_runs_once_per_open_layer() {
    let mut engine = Engine::new(config(&[("a", "cmdA")]));
    let snapshot = Snapshot {
        outputs: vec![vec![vec![layer("a")]], vec![vec![layer("a")]]],
    };
    let cmds = engine.dismiss(&snapshot);
    assert_eq!(cmds, vec!["cmdA".to_string(), "cmdA".to_string()]);
}

#[test]
fn dismiss_with_nothing_open_only_hides() {
    let mut engine = Engine::new(config(&[("a", "cmdA")]));
    engine.open_layer(&"a".to_string());
    assert!(engine.dismiss(&Snapshot::new()).is_empty());
    assert!(!engine.is_visible());
}

#[test]
fn snapshot_namespaces_follow_traversal_order() {
    let snapshot = Snapshot {
        outputs: vec![
            vec![vec![layer("x"), layer("y")], vec![]],
            vec![],
            vec![vec![layer("z")]],
        ],
    };
    assert_eq!(
        snapshot.namespaces(),
        vec!["x".to_string(), "y".to_string(), "z".to_string()]
    );
    assert!(Snapshot::new().namespaces().is_empty());
    assert_eq!(names(&["p", "q"]).namespaces(), vec!["p".to_string(), "q".to_string()]);
}

#[test]
fn config_insert_replaces_command() {
    let mut c = config(&[("audio", "echo a")]);
    assert!(!c.is_empty());
    assert_eq!(c.len(), 1);
    c.insert("audio".to_string(), "echo b".to_string());
    c.insert("sidebar".to_string(), "echo s".to_string());
    assert_eq!(c.len(), 2);
    assert_eq!(c.get(&"audio".to_string()), Some("echo b".to_string()));
    assert_eq!(c.get(&"sidebar".to_string()), Some("echo s".to_string()));
    assert_eq!(c.get(&"bar".to_string()), None);
    assert!(c.contains_key(&"sidebar".to_string()));
    assert!(!c.contains_key(&"side".to_string()));
    assert!(LayerConfig::new().is_empty());
}

#[test]
fn dismiss_command_lookup() {
    let engine = Engine::new(config(&[("audio", "echo a")]));
    assert_eq!(
        engine.dismiss_command(&"audio".to_string()),
        Some("echo a".to_string())
    );
    assert_eq!(engine.dismiss_command(&"bar".to_string()), None);
    assert!(engine.is_tracked(&"audio".to_string()));
    assert!(!engine.is_tracked(&"bar".to_string()));
}

#[test]
fn message_needs_snapshot() {
    assert!(EngineMessage::Hide.needs_snapshot());
    assert!(close("a").needs_snapshot());
    assert!(!open("a").needs_snapshot());
}

#[test]
fn reconcile_open_ignores_snapshot() {
    let mut engine = Engine::new(config(&[("a", "cmdA")]));
    let cmds = engine.reconcile(&open("a"), Ok(Snapshot::new())).unwrap();
    assert!(cmds.is_empty());
    assert!(engine.is_visible());
}

#[test]
fn untracked_layers_do_not_change_dismiss() {
    let mut with_untracked = Engine::new(config(&[("audio", "echo a")]));
    let mut without = Engine::new(config(&[("audio", "echo a")]));
    with_untracked.open_layer(&"audio".to_string());
    without.open_layer(&"audio".to_string());
    let a = with_untracked.dismiss(&names(&["launcher", "audio", "launcher"]));
    let b = without.dismiss(&names(&["audio"]));
    assert_eq!(a, b);
    assert_eq!(a, vec!["echo a".to_string()]);
    assert_eq!(with_untracked.is_visible(), without.is_visible());
}

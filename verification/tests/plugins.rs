use gane::plugins::hooks::{HookHandler, HookManager, HookPriority};
use gane::plugins::registry::{PluginInfo, PluginRegistry, PluginStatus};

fn handler(id: &str, plugin: &str, priority: HookPriority, enabled: bool) -> HookHandler {
    HookHandler { id: id.to_string(), plugin_id: plugin.to_string(), priority, enabled }
}

#[test]
fn test_define_hook() {
    let mut mgr = HookManager::new();
    mgr.define_hook("pre_route", "Before routing").unwrap();
    assert_eq!(mgr.hook_count(), 1);
    assert_eq!(mgr.hook_names(), vec!["pre_route"]);
}

#[test]
fn test_define_duplicate_hook() {
    let mut mgr = HookManager::new();
    mgr.define_hook("h1", "d1").unwrap();
    let err = mgr.define_hook("h1", "d2").unwrap_err();
    assert!(err.contains("already defined"));
}

#[test]
fn test_register_handler() {
    let mut mgr = HookManager::new();
    mgr.define_hook("h1", "desc").unwrap();
    mgr.register_handler("h1", handler("handler1", "p1", HookPriority::Normal, true)).unwrap();
    assert_eq!(mgr.handler_count("h1"), 1);
}

#[test]
fn test_duplicate_handler_rejected() {
    let mut mgr = HookManager::new();
    mgr.define_hook("h1", "desc").unwrap();
    let h = handler("handler1", "p1", HookPriority::Normal, true);
    mgr.register_handler("h1", h.clone()).unwrap();
    let err = mgr.register_handler("h1", h).unwrap_err();
    assert!(err.contains("already registered"));
}

#[test]
fn test_handler_on_undefined_hook() {
    let mut mgr = HookManager::new();
    let err = mgr.register_handler("missing", handler("h", "p", HookPriority::Normal, true)).unwrap_err();
    assert!(err.contains("not defined"));
}

#[test]
fn test_invoke_orders_by_priority() {
    let mut mgr = HookManager::new();
    mgr.define_hook("h1", "desc").unwrap();
    mgr.register_handler("h1", handler("low", "p1", HookPriority::Low, true)).unwrap();
    mgr.register_handler("h1", handler("high", "p2", HookPriority::Highest, true)).unwrap();
    let handlers = mgr.invoke("h1").unwrap();
    assert_eq!(handlers[0].id, "high");
    assert_eq!(handlers[1].id, "low");
    assert_eq!(mgr.invocation_count("h1"), 1);
}

#[test]
fn test_invoke_skips_disabled() {
    let mut mgr = HookManager::new();
    mgr.define_hook("h1", "desc").unwrap();
    mgr.register_handler("h1", handler("enabled", "p1", HookPriority::Normal, true)).unwrap();
    mgr.register_handler("h1", handler("disabled", "p2", HookPriority::Normal, false)).unwrap();
    let handlers = mgr.invoke("h1").unwrap();
    assert_eq!(handlers.len(), 1);
    assert_eq!(handlers[0].id, "enabled");
}

#[test]
fn test_unregister_handler() {
    let mut mgr = HookManager::new();
    mgr.define_hook("h1", "desc").unwrap();
    mgr.register_handler("h1", handler("h", "p", HookPriority::Normal, true)).unwrap();
    mgr.unregister_handler("h1", "h").unwrap();
    assert_eq!(mgr.handler_count("h1"), 0);
}

#[test]
fn test_unregister_plugin() {
    let mut mgr = HookManager::new();
    mgr.define_hook("h1", "desc").unwrap();
    mgr.define_hook("h2", "desc2").unwrap();
    mgr.register_handler("h1", handler("a", "p1", HookPriority::Normal, true)).unwrap();
    mgr.register_handler("h2", handler("b", "p1", HookPriority::Normal, true)).unwrap();
    mgr.register_handler("h1", handler("c", "p2", HookPriority::Normal, true)).unwrap();
    mgr.unregister_plugin("p1");
    assert_eq!(mgr.handler_count("h1"), 1);
    assert_eq!(mgr.handler_count("h2"), 0);
}

#[test]
fn test_remove_hook() {
    let mut mgr = HookManager::new();
    mgr.define_hook("h1", "desc").unwrap();
    mgr.remove_hook("h1").unwrap();
    assert_eq!(mgr.hook_count(), 0);
    let err = mgr.remove_hook("h1").unwrap_err();
    assert!(err.contains("not defined"));
}

#[test]
fn hook_errors_and_stable_order() {
    let mut mgr = HookManager::default();
    assert_eq!(mgr.define_hook("b", "x"), Ok(()));
    mgr.define_hook("a", "y").unwrap();
    assert_eq!(mgr.hook_names(), vec!["a", "b"]);
    assert_eq!(mgr.invoke("zz").unwrap_err(), "Hook 'zz' not defined");
    mgr.register_handler("a", handler("n1", "p", HookPriority::Normal, true)).unwrap();
    mgr.register_handler("a", handler("n2", "p", HookPriority::Normal, true)).unwrap();
    mgr.register_handler("a", handler("h", "p", HookPriority::High, true)).unwrap();
    let ids: Vec<String> = mgr.invoke("a").unwrap().iter().map(|h| h.id.clone()).collect();
    assert_eq!(ids, vec!["h", "n1", "n2"]);
    assert_eq!(
        mgr.unregister_handler("a", "nope").unwrap_err(),
        "Handler 'nope' not found on hook 'a'"
    );
    assert_eq!(mgr.handler_count("missing"), 0);
    assert_eq!(mgr.invocation_count("missing"), 0);
}

fn make_plugin(id: &str, priority: u32) -> PluginInfo {
    PluginInfo {
        id: id.to_string(),
        name: format!("Plugin {id}"),
        version: "1.0.0".to_string(),
        author: "test".to_string(),
        description: "test plugin".to_string(),
        capabilities: vec!["routing".to_string()],
        status: PluginStatus::Registered,
        priority,
    }
}

#[test]
fn test_register_and_lookup() {
    let mut reg = PluginRegistry::new(10);
    reg.register(make_plugin("p1", 1)).unwrap();
    assert!(reg.contains("p1"));
    assert!(!reg.contains("p2"));
    assert_eq!(reg.count(), 1);
    let p = reg.get("p1").unwrap();
    assert_eq!(p.name, "Plugin p1");
}

#[test]
fn test_register_duplicate_rejected() {
    let mut reg = PluginRegistry::new(10);
    reg.register(make_plugin("p1", 1)).unwrap();
    let err = reg.register(make_plugin("p1", 2)).unwrap_err();
    assert!(err.contains("already registered"));
}

#[test]
fn test_registry_full() {
    let mut reg = PluginRegistry::new(2);
    reg.register(make_plugin("p1", 1)).unwrap();
    reg.register(make_plugin("p2", 2)).unwrap();
    let err = reg.register(make_plugin("p3", 3)).unwrap_err();
    assert!(err.contains("Registry full"));
    assert_eq!(reg.remaining_capacity(), 0);
}

#[test]
fn test_unregister() {
    let mut reg = PluginRegistry::new(10);
    reg.register(make_plugin("p1", 1)).unwrap();
    let info = reg.unregister("p1").unwrap();
    assert_eq!(info.id, "p1");
    assert!(!reg.contains("p1"));
    assert_eq!(reg.count(), 0);
}

#[test]
fn test_unregister_not_found() {
    let mut reg = PluginRegistry::new(10);
    let err = reg.unregister("missing").unwrap_err();
    assert!(err.contains("not found"));
}

#[test]
fn test_set_status() {
    let mut reg = PluginRegistry::new(10);
    reg.register(make_plugin("p1", 1)).unwrap();
    reg.set_status("p1", PluginStatus::Active).unwrap();
    assert_eq!(reg.get("p1").unwrap().status, PluginStatus::Active);
}

#[test]
fn test_by_status() {
    let mut reg = PluginRegistry::new(10);
    reg.register(make_plugin("p1", 1)).unwrap();
    reg.register(make_plugin("p2", 2)).unwrap();
    reg.set_status("p1", PluginStatus::Active).unwrap();
    assert_eq!(reg.by_status(PluginStatus::Active).len(), 1);
    assert_eq!(reg.by_status(PluginStatus::Registered).len(), 1);
}

#[test]
fn test_active_by_priority() {
    let mut reg = PluginRegistry::new(10);
    reg.register(make_plugin("p1", 1)).unwrap();
    reg.register(make_plugin("p2", 5)).unwrap();
    reg.register(make_plugin("p3", 3)).unwrap();
    reg.set_status("p1", PluginStatus::Active).unwrap();
    reg.set_status("p2", PluginStatus::Active).unwrap();
    reg.set_status("p3", PluginStatus::Active).unwrap();
    let active = reg.active_by_priority();
    assert_eq!(active[0].id, "p2");
    assert_eq!(active[1].id, "p3");
    assert_eq!(active[2].id, "p1");
}

#[test]
fn test_with_capability() {
    let mut reg = PluginRegistry::new(10);
    let mut p1 = make_plugin("p1", 1);
    p1.capabilities = vec!["routing".to_string(), "display".to_string()];
    let mut p2 = make_plugin("p2", 2);
    p2.capabilities = vec!["telemetry".to_string()];
    reg.register(p1).unwrap();
    reg.register(p2).unwrap();
    assert_eq!(reg.with_capability("routing").len(), 1);
    assert_eq!(reg.with_capability("display").len(), 1);
    assert_eq!(reg.with_capability("telemetry").len(), 1);
    assert_eq!(reg.with_capability("unknown").len(), 0);
}

#[test]
fn test_load_order() {
    let mut reg = PluginRegistry::new(10);
    reg.register(make_plugin("b", 1)).unwrap();
    reg.register(make_plugin("a", 2)).unwrap();
    let order = reg.load_order();
    assert_eq!(order, &["b", "a"]);
}

#[test]
fn test_plugin_ids_sorted() {
    let mut reg = PluginRegistry::new(10);
    reg.register(make_plugin("c", 1)).unwrap();
    reg.register(make_plugin("a", 2)).unwrap();
    reg.register(make_plugin("b", 3)).unwrap();
    assert_eq!(reg.plugin_ids(), vec!["a", "b", "c"]);
}

#[test]
fn registry_messages_and_get_mut() {
    let mut reg = PluginRegistry::default();
    assert_eq!(reg.remaining_capacity(), 100);
    let mut small = PluginRegistry::new(0);
    assert_eq!(small.register(make_plugin("x", 1)).unwrap_err(), "Registry full: max 0 plugins");
    reg.register(make_plugin("p", 1)).unwrap();
    reg.get_mut("p").unwrap().priority = 9;
    assert_eq!(reg.get("p").unwrap().priority, 9);
    assert!(reg.get_mut("q").is_none());
    assert_eq!(reg.set_status("q", PluginStatus::Failed).unwrap_err(), "Plugin 'q' not found");
}

#[test]
fn active_by_priority_skips_inactive_and_keeps_ties_in_registration_order() {
    let mut reg = PluginRegistry::new(10);
    reg.register(make_plugin("a", 2)).unwrap();
    reg.register(make_plugin("b", 7)).unwrap();
    reg.register(make_plugin("c", 2)).unwrap();
    reg.register(make_plugin("d", 9)).unwrap();
    reg.set_status("a", PluginStatus::Active).unwrap();
    reg.set_status("b", PluginStatus::Active).unwrap();
    reg.set_status("c", PluginStatus::Active).unwrap();
    let active = reg.active_by_priority();
    let ids: Vec<&str> = active.iter().map(|p| p.id.as_str()).collect();
    assert_eq!(ids, vec!["b", "a", "c"]);
}

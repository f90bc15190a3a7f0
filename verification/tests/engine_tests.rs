use nova::engine::{
    build_config, classify_fault, fuel_budget, lifecycle_step, memory_ceiling_bytes,
    parse_map_dir, InstanceOutcome, LifecycleEvent, LifecycleState, RunFault,
};
use nova::runtimes::{NodeJSRuntime, PythonRuntime, ResourceLimits, StaticServer};
use nova::scheduler::Scheduler;
use nova::switch::VirtualSwitch;

#[test]
fn lifecycle_follows_the_state_machine() {
    let s = LifecycleState::Created;
    let s = lifecycle_step(s, LifecycleEvent::Register).unwrap();
    assert_eq!(s, LifecycleState::Registered);
    let s = lifecycle_step(s, LifecycleEvent::Start).unwrap();
    assert_eq!(s, LifecycleState::Running);
    assert_eq!(lifecycle_step(s, LifecycleEvent::Trap), Some(LifecycleState::Trapped));
    assert_eq!(lifecycle_step(s, LifecycleEvent::Complete), Some(LifecycleState::Completed));
    // terminal states admit nothing further
    assert_eq!(lifecycle_step(LifecycleState::Completed, LifecycleEvent::Start), None);
    assert_eq!(lifecycle_step(LifecycleState::Trapped, LifecycleEvent::Register), None);
    // registration happens exactly once, before running
    assert_eq!(lifecycle_step(LifecycleState::Registered, LifecycleEvent::Register), None);
}

#[test]
fn fuel_exhaustion_is_a_distinct_trap() {
    let out = classify_fault(RunFault::FuelExhausted);
    assert_eq!(out, InstanceOutcome::Trapped(RunFault::FuelExhausted));
    assert_ne!(out, InstanceOutcome::Completed);
    assert_ne!(out, classify_fault(RunFault::MemoryCeilingExceeded));
    assert_eq!(
        classify_fault(RunFault::InstantiationFault),
        InstanceOutcome::InstantiationFailed
    );
}

#[test]
fn fuel_defaults_to_unlimited() {
    assert_eq!(fuel_budget(Some(1000)), 1000);
    assert_eq!(fuel_budget(None), u64::MAX);
}

#[test]
fn memory_ceiling_in_bytes() {
    assert_eq!(memory_ceiling_bytes(1), Some(1048576));
    assert_eq!(memory_ceiling_bytes(64), Some(67108864));
    assert_eq!(memory_ceiling_bytes(u64::MAX / 1048576 + 1), None);
}

#[test]
fn map_dir_needs_exactly_two_parts() {
    let m = parse_map_dir("/host/data:/data").unwrap();
    assert_eq!(m.host_path, "/host/data");
    assert_eq!(m.guest_path, "/data");
    assert!(parse_map_dir("nodcolon").is_none());
    assert!(parse_map_dir("a:b:c").is_none());
    let m = parse_map_dir("a:").unwrap();
    assert_eq!(m.host_path, "a");
    assert_eq!(m.guest_path, "");
}

#[test]
fn build_config_collects_the_budget() {
    let c = build_config("mod.wasm", 3, Some(500), Some(2), Some("/h:/g")).unwrap();
    assert_eq!(c.module_file, "mod.wasm");
    assert_eq!(c.identity, 3);
    assert_eq!(c.fuel, Some(500));
    assert_eq!(c.memory_ceiling, Some(2097152));
    let m = c.mount.unwrap();
    assert_eq!(m.host_path, "/h");
    assert_eq!(m.guest_path, "/g");

    // a malformed mapping is non-fatal: the instance runs without a mount
    let c = build_config("mod.wasm", 0, None, None, Some("bad")).unwrap();
    assert!(c.mount.is_none());
    assert!(c.fuel.is_none());
    assert!(c.memory_ceiling.is_none());

    assert!(build_config("m", 0, None, Some(u64::MAX), None).is_err());
}

#[test]
fn replica_identities_are_dense() {
    let plan = Scheduler::replica_plan("mod.wasm", 5, Some(9), None, None);
    assert_eq!(plan.len(), 5);
    for (i, c) in plan.iter().enumerate() {
        assert_eq!(c.identity, i as u32);
        assert_eq!(c.module_file, "mod.wasm");
        assert_eq!(c.fuel, Some(9));
        assert!(c.memory_ceiling.is_none());
        assert!(c.mount.is_none());
    }
    // registering the group registers each identity exactly once
    let mut sw = VirtualSwitch::new();
    Scheduler::register_replicas(&mut sw, 5);
    for i in 0..5u32 {
        // a fresh, empty mailbox answers Empty, not Closed
        match sw.recv(i) {
            nova::switch::RecvOutcome::Empty => {}
            _ => panic!("identity {} must be registered with an empty inbox", i),
        }
    }
    match sw.recv(5) {
        nova::switch::RecvOutcome::Closed => {}
        _ => panic!("identity 5 must not be registered"),
    }
}

#[test]
fn runtime_limit_templates() {
    let l = ResourceLimits::default();
    assert!(l.memory_mb.is_none());
    assert!(l.cpu_percent.is_none());
    assert!(l.fuel.is_none());

    let node = NodeJSRuntime::new();
    assert!(node.limits.fuel.is_none());
    let node = NodeJSRuntime::with_limits(ResourceLimits {
        memory_mb: Some(64),
        cpu_percent: None,
        fuel: Some(100),
    });
    assert_eq!(node.limits.memory_mb, Some(64));
    assert_eq!(node.limits.fuel, Some(100));

    let py = PythonRuntime::new();
    assert!(py.limits.memory_mb.is_none());
    let py = PythonRuntime::with_limits(ResourceLimits {
        memory_mb: Some(8),
        cpu_percent: Some(50),
        fuel: None,
    });
    assert_eq!(py.limits.cpu_percent, Some(50));

    let server = StaticServer::new(8080);
    assert_eq!(server.port, 8080);
}

#[test]
fn node_manifest_decisions() {
    let manifest = r#"{"dependencies":{"express":"4"},"scripts":{"start":"node server.js"}}"#;
    assert_eq!(NodeJSRuntime::detect_framework(manifest), Some("Express".to_string()));
    assert_eq!(NodeJSRuntime::get_start_script(manifest), Some("node server.js".to_string()));

    let manifest = r#"{"dependencies":{"vue":"3"},"scripts":{"dev":"vite","start":"vite preview"}}"#;
    assert_eq!(NodeJSRuntime::detect_framework(manifest), Some("Vue.js".to_string()));
    assert_eq!(NodeJSRuntime::get_start_script(manifest), Some("vite".to_string()));

    assert_eq!(NodeJSRuntime::detect_framework("{}"), None);
    assert_eq!(NodeJSRuntime::get_start_script("broken {"), None);
}

#[test]
fn python_project_checks() {
    assert!(PythonRuntime::is_django_project(&vec![
        "manage.py".to_string(),
        "app".to_string()
    ]));
    assert!(!PythonRuntime::is_django_project(&vec!["app.py".to_string()]));
    assert!(PythonRuntime::is_flask_project("from flask import Flask\napp = Flask(__name__)"));
    assert!(PythonRuntime::is_flask_project("import flask"));
    assert!(!PythonRuntime::is_flask_project("import os"));
}

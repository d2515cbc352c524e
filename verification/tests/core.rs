use rotiv::analysis::{
    check_model_file, check_module_dir, check_route_file, count_severity, find_line, manifest_state, planned_fixes,
    run_diagnostics, DiagnosticSeverity, ManifestState, ModuleDir, ProjectFiles, SourceFile,
};
use rotiv::cli::naming::snake_to_pascal;
use rotiv::compiler::{build_args, finish_build, resolve_build_script, BuildScriptOutput, CompileOptions, CompilerError};
use rotiv::error::RotivError;
use rotiv::locate::ScriptSearch;
use rotiv::models::discover_models as discover_model_entries;
use rotiv::modules::{resolve_capabilities, sort_manifests, ModuleManifest, ModuleTier};
use rotiv::orm::{
    auto_migrate, discover_models, finish_migration, migrate_args, resolve_migrate_script, AutoMigrateStep,
    MigrateScriptOutput, MigrationOptions, MigrationResult, OrmError,
};
use rotiv::proxy::{interpret_reply, invoke_url};
use rotiv::router::registry::RouteRegistry;
use rotiv::router::discovery::RouteFile;
use rotiv::server::{dispatch, listen_addr, port_candidates, search_params_of, Dispatch, DevServer, DevServerConfig};
use rotiv::watcher::{debounced_event, is_route_file, polled_event, ChangeKind, FileWatcher, RouteEvent, WatchEvent};
use rotiv::worker::{health_url, ready_step, resolve_tsx_loader, resolve_worker_path, timeout_error, ReadyStep};

#[test]
fn rotiv_error_creates_correctly() {
    let err = RotivError::new("E001", "Something went wrong");
    assert_eq!(err.code, "E001");
    assert_eq!(err.message, "Something went wrong");
    assert!(err.suggestion.is_none());
}

#[test]
fn rotiv_error_with_suggestion() {
    let err = RotivError::new("E002", "Directory not found")
        .with_suggestion("Run `rotiv new <name>` to create a project");
    assert!(err.suggestion.is_some());
}

#[test]
fn rotiv_error_builders_and_display() {
    let err = RotivError::new("E003", "bad").with_file("app/routes/x.tsx", Some(4)).with_expected("a", "b");
    assert_eq!(err.file.as_deref(), Some("app/routes/x.tsx"));
    assert_eq!(err.line, Some(4));
    assert_eq!(err.expected.as_deref(), Some("a"));
    assert_eq!(err.got.as_deref(), Some("b"));
    assert_eq!(err.display(), "E003: bad");
}

#[test]
fn find_line_finds_needle() {
    let content = "line one\nline two\ndefineRoute(\nline four";
    assert_eq!(find_line(content, "defineRoute("), Some(3));
}

#[test]
fn find_line_missing() {
    let content = "nothing here";
    assert_eq!(find_line(content, "defineRoute("), None);
}

#[test]
fn route_without_define_route_gets_v001_fix() {
    let ds = check_route_file("app\\routes\\about.tsx", "  const x = 1;\n");
    assert_eq!(ds.len(), 1);
    assert_eq!(ds[0].code, "V001");
    assert_eq!(ds[0].file, "app/routes/about.tsx");
    assert_eq!(ds[0].severity, DiagnosticSeverity::Error);
    assert_eq!(ds[0].auto_fix.as_deref(), Some("export default defineRoute({\nconst x = 1;}\n)"));
}

#[test]
fn raw_object_export_is_v005() {
    let ds = check_route_file("app/routes/a.tsx", "// top\nexport default {\n  component: 1\n}");
    assert_eq!(ds.len(), 1);
    assert_eq!(ds[0].code, "V005");
    assert_eq!(ds[0].line, Some(2));
}

#[test]
fn missing_component_is_v002_warning() {
    let ds = check_route_file("app/routes/a.tsx", "export default defineRoute({\n  path: \"/a\"\n})");
    assert_eq!(ds.len(), 1);
    assert_eq!(ds[0].code, "V002");
    assert_eq!(ds[0].severity, DiagnosticSeverity::Warning);
    assert_eq!(ds[0].line, Some(1));
}

#[test]
fn ctx_db_without_model_import_is_v006() {
    let content = "export default defineRoute({\n  // ctx.db in a comment\n  loader(ctx) { return ctx.db.all(); },\n  component() {}\n})";
    let ds = check_route_file("app/routes/a.tsx", content);
    assert_eq!(ds.len(), 1);
    assert_eq!(ds[0].code, "V006");
    assert_eq!(ds[0].line, Some(2));
    let with_import = format!("import {{ users }} from \"../models/user.js\";\n{}", content);
    assert!(check_route_file("app/routes/a.tsx", &with_import).is_empty());
}

#[test]
fn bracket_path_is_v007_per_line() {
    let content = "export default defineRoute({\n  path: \"/users/[id]\",\n  component() {}\n})";
    let ds = check_route_file("app/routes/users/[id].tsx", content);
    assert_eq!(ds.len(), 1);
    assert_eq!(ds[0].code, "V007");
    assert_eq!(ds[0].line, Some(2));
    assert!(check_route_file("app/routes/users/id.tsx", content).is_empty());
}

#[test]
fn model_checks_v003_v004() {
    let ds = check_model_file("app/models/user.ts", "export const x = 1;");
    assert_eq!(ds.len(), 2);
    assert_eq!(ds[0].code, "V003");
    assert_eq!(ds[1].code, "V004");
    assert!(check_model_file("app/models/user.ts", "sqliteTable(\"users\");\ndefineModel(\"User\", users)").is_empty());
}

#[test]
fn module_checks_v008_v009_v010() {
    let missing = ModuleDir { name: Some("auth".to_string()), manifest: ManifestState::Missing, has_entry: false };
    let ds = check_module_dir(&missing);
    assert_eq!(ds.len(), 1);
    assert_eq!(ds[0].code, "V008");
    assert_eq!(ds[0].file, "app/modules/auth/module.json");

    let invalid = ModuleDir { name: None, manifest: ManifestState::Invalid("EOF".to_string()), has_entry: false };
    let ds = check_module_dir(&invalid);
    assert_eq!(ds.len(), 1);
    assert_eq!(ds[0].message, "module.json in 'unknown' is not valid JSON: EOF");

    let partial = ModuleDir {
        name: Some("auth".to_string()),
        manifest: ManifestState::Parsed(Some(vec!["name".to_string(), "requires".to_string()])),
        has_entry: false,
    };
    let ds = check_module_dir(&partial);
    assert_eq!(ds.len(), 2);
    assert_eq!(ds[0].code, "V009");
    assert_eq!(ds[0].message, "module.json in 'auth' is missing required fields: version, provides");
    assert_eq!(ds[1].code, "V010");
    assert_eq!(ds[1].file, "app/modules/auth/index.ts");

    let unreadable = ModuleDir { name: Some("x".to_string()), manifest: ManifestState::Unreadable, has_entry: false };
    assert!(check_module_dir(&unreadable).is_empty());
}

#[test]
fn run_diagnostics_orders_and_counts() {
    let project = ProjectFiles {
        routes: vec![
            SourceFile { path: "app/routes/a.tsx".to_string(), content: "const a = 1;".to_string() },
            SourceFile { path: "app/routes/readme.md".to_string(), content: "x".to_string() },
        ],
        models: vec![SourceFile { path: "app/models/user.ts".to_string(), content: "defineModel(".to_string() }],
        modules: vec![],
    };
    let ds = run_diagnostics(&project).unwrap();
    let codes: Vec<&str> = ds.iter().map(|d| d.code.as_str()).collect();
    assert_eq!(codes, vec!["V001", "V003"]);
    assert_eq!(count_severity(&ds, DiagnosticSeverity::Error), 2);
    assert_eq!(count_severity(&ds, DiagnosticSeverity::Warning), 0);
    let fixes = planned_fixes(&ds);
    assert_eq!(fixes.len(), 1);
    assert_eq!(fixes[0].0, "app/routes/a.tsx");
}

fn make_manifest(name: &str, provides: &[&str], requires: &[&str]) -> ModuleManifest {
    ModuleManifest {
        name: name.to_string(),
        version: "0.1.0".to_string(),
        description: None,
        provides: provides.iter().map(|s| s.to_string()).collect(),
        requires: requires.iter().map(|s| s.to_string()).collect(),
        configures: Vec::new(),
        tier: ModuleTier::Slot,
        entry: None,
        test: None,
    }
}

#[test]
fn resolve_no_issues() {
    let modules = vec![make_manifest("sessions", &["sessions"], &[]), make_manifest("auth", &["auth"], &["sessions"])];
    let (conflicts, missing) = resolve_capabilities(&modules);
    assert!(conflicts.is_empty());
    assert!(missing.is_empty());
}

#[test]
fn resolve_conflict() {
    let modules = vec![make_manifest("auth-a", &["auth"], &[]), make_manifest("auth-b", &["auth"], &[])];
    let (conflicts, missing) = resolve_capabilities(&modules);
    assert_eq!(conflicts.len(), 1);
    assert_eq!(conflicts[0].capability, "auth");
    assert!(missing.is_empty());
}

#[test]
fn resolve_missing_requirement() {
    let modules = vec![make_manifest("auth", &["auth"], &["sessions"])];
    let (conflicts, missing) = resolve_capabilities(&modules);
    assert!(conflicts.is_empty());
    assert_eq!(missing.len(), 1);
    assert_eq!(missing[0].module, "auth");
    assert_eq!(missing[0].requires, "sessions");
}

#[test]
fn resolve_module_listing_capability_twice_is_no_conflict() {
    let modules = vec![make_manifest("x", &["auth", "auth"], &[])];
    let (conflicts, missing) = resolve_capabilities(&modules);
    assert!(conflicts.is_empty());
    assert!(missing.is_empty());
    let modules = vec![make_manifest("x", &["auth", "auth"], &[]), make_manifest("y", &["auth"], &[])];
    let (conflicts, _) = resolve_capabilities(&modules);
    assert_eq!(conflicts.len(), 1);
    assert_eq!(conflicts[0].provided_by, vec!["x", "y"]);
}

#[test]
fn resolve_reports_each_capability_once_with_all_providers() {
    let modules = vec![
        make_manifest("a", &["x", "y"], &["z"]),
        make_manifest("b", &["x"], &["y"]),
        make_manifest("c", &["x", "y"], &["w"]),
    ];
    let (conflicts, missing) = resolve_capabilities(&modules);
    assert_eq!(conflicts.len(), 2);
    assert_eq!(conflicts[0].capability, "x");
    assert_eq!(conflicts[0].provided_by, vec!["a", "b", "c"]);
    assert_eq!(conflicts[1].capability, "y");
    assert_eq!(conflicts[1].provided_by, vec!["a", "c"]);
    assert_eq!(missing.len(), 2);
    assert_eq!((missing[0].module.as_str(), missing[0].requires.as_str()), ("a", "z"));
    assert_eq!((missing[1].module.as_str(), missing[1].requires.as_str()), ("c", "w"));
}

#[test]
fn manifests_sort_by_name() {
    let sorted = sort_manifests(vec![make_manifest("sessions", &[], &[]), make_manifest("auth", &[], &[])]);
    assert_eq!(sorted[0].name, "auth");
    assert_eq!(sorted[1].name, "sessions");
    assert_eq!(ModuleTier::default(), ModuleTier::Slot);
}

#[test]
fn snake_to_pascal_single() {
    assert_eq!(snake_to_pascal("user"), "User");
}

#[test]
fn snake_to_pascal_multi() {
    assert_eq!(snake_to_pascal("user_profile"), "UserProfile");
}

#[test]
fn snake_to_pascal_already_pascal() {
    assert_eq!(snake_to_pascal("User"), "User");
}

#[test]
fn discover_models_missing_dir() {
    let result = discover_models(&Vec::new());
    assert!(result.is_empty());
}

#[test]
fn discover_models_names_and_sorts() {
    let files = vec![
        "/p/app/models/user_profile.ts".to_string(),
        "/p/app/models/notes.md".to_string(),
        "/p/app/models/account.ts".to_string(),
    ];
    let models = discover_model_entries(&files);
    assert_eq!(models.len(), 2);
    assert_eq!(models[0].name, "Account");
    assert_eq!(models[1].name, "UserProfile");
    assert_eq!(models[1].file, "/p/app/models/user_profile.ts");
    assert_eq!(discover_models(&files)[0].name, "Account");
}

#[test]
fn orm_error_variants() {
    let err = OrmError::NotImplemented("query builder".to_string());
    assert!(err.message().contains("Not implemented"));

    let err = OrmError::ScriptNotFound("no path".to_string());
    assert!(err.message().contains("Script not found"));

    let err = OrmError::MigrationFailed("syntax error".to_string());
    assert!(err.message().contains("Migration failed"));
}

#[test]
fn orm_error_messages() {
    assert_eq!(OrmError::PendingMigrations(3).message(), "3 pending migration(s) need to be applied");
    assert_eq!(OrmError::Io("denied".to_string()).message(), "I/O error: denied");
}

#[test]
fn migration_options_construction() {
    let opts = MigrationOptions {
        project_dir: "/tmp/project".to_string(),
        generate_only: false,
        check_only: true,
        json_output: false,
    };
    assert!(opts.check_only);
    assert!(!opts.generate_only);
}

#[test]
fn resolve_script_env_override_missing() {
    let search = ScriptSearch {
        env_override: Some(("/nonexistent/path/index.ts".to_string(), false)),
        candidates: vec![],
    };
    let result = resolve_migrate_script(&search);
    assert!(matches!(result, Err(OrmError::ScriptNotFound(_))));
}

#[test]
fn migrate_run_is_read_from_its_report() {
    let opts = MigrationOptions { project_dir: "/p".to_string(), generate_only: false, check_only: true, json_output: false };
    assert_eq!(migrate_args("s.ts", &opts), vec!["--import", "tsx", "s.ts", "--project", "/p", "--check"]);
    let report = MigrateScriptOutput {
        ok: true,
        migrations_applied: None,
        migration_files: None,
        warnings: Some(vec!["w".to_string()]),
        duration_ms: 5,
        pending: Some(2),
    };
    let res = finish_migration(true, String::new(), Ok(report), "", 9).unwrap();
    assert_eq!(res.migrations_applied, 2);
    assert_eq!(res.duration_ms, 9);
    assert_eq!(res.warnings, vec!["w"]);
    match finish_migration(true, String::new(), Err("expected value".to_string()), "oops", 1) {
        Err(OrmError::ParseFailed(s)) => assert_eq!(s, "expected value: oops"),
        _ => panic!("expected ParseFailed"),
    }
    assert!(matches!(finish_migration(false, "bad".to_string(), Err(String::new()), "", 0), Err(OrmError::MigrationFailed(_))));
}

#[test]
fn auto_migrate_applies_only_when_pending() {
    let none = MigrationResult { migrations_applied: 0, migration_files: vec![], warnings: vec![], duration_ms: 1 };
    assert!(matches!(auto_migrate(none), AutoMigrateStep::UpToDate(_)));
    let some = MigrationResult { migrations_applied: 2, migration_files: vec![], warnings: vec![], duration_ms: 1 };
    assert!(matches!(auto_migrate(some), AutoMigrateStep::ApplyPending));
}

#[test]
fn compiler_error_stub() {
    let err = CompilerError::NotImplemented("tsx transform".to_string());
    assert!(err.message().contains("Not implemented"));
}

#[test]
fn compiler_error_spawn_failed() {
    let err = CompilerError::SpawnFailed("node not found".to_string());
    assert!(err.message().contains("spawn"));
}

#[test]
fn compiler_error_build_failed() {
    let err = CompilerError::BuildFailed("syntax error in index.tsx".to_string());
    assert!(err.message().contains("Build failed"));
}

#[test]
fn compile_options_construction() {
    let opts = CompileOptions {
        project_dir: "/tmp/my-project".to_string(),
        out_dir: "/tmp/my-project/dist".to_string(),
        minify: false,
        source_maps: true,
    };
    assert!(!opts.minify);
    assert!(opts.source_maps);
}

#[test]
fn build_run_is_read_from_its_report() {
    let opts = CompileOptions { project_dir: "/p".to_string(), out_dir: "/p/dist".to_string(), minify: true, source_maps: false };
    assert_eq!(build_args("b.ts", &opts), vec!["--import", "tsx", "b.ts", "--project", "/p", "--out", "/p/dist", "--minify"]);
    let report = BuildScriptOutput { files: vec!["dist/a.js".to_string()], warnings: vec![], duration_ms: 40 };
    let res = finish_build(true, String::new(), Ok(report), "", 12).unwrap();
    assert_eq!(res.files_written, vec!["dist/a.js"]);
    assert_eq!(res.duration_ms, 40);
    let search = ScriptSearch { env_override: None, candidates: vec![("a".to_string(), false), ("b".to_string(), true)] };
    assert_eq!(resolve_build_script(&search).unwrap(), "b");
    let none = ScriptSearch { env_override: None, candidates: vec![] };
    match resolve_build_script(&none) {
        Err(e) => assert_eq!(
            e.message(),
            "Build script not found. Set ROTIV_BUILD_SCRIPT_PATH or run from the monorepo: Set ROTIV_BUILD_SCRIPT_PATH or run from the Rotiv monorepo"
        ),
        Ok(_) => panic!("expected an error"),
    }
}

#[test]
fn resolve_worker_path_with_env_var() {
    let search = ScriptSearch { env_override: Some(("/nonexistent/index.ts".to_string(), false)), candidates: vec![] };
    let result = resolve_worker_path(&search);
    assert!(result.is_err());
    let err = result.unwrap_err();
    assert_eq!(err.code, "E_WORKER_NOT_FOUND");
}

#[test]
fn resolve_worker_path_uses_embedded_when_provided() {
    let p = "/tmp/embedded/index.ts".to_string();
    let search = ScriptSearch { env_override: None, candidates: vec![(p.clone(), true), ("/dev/index.ts".to_string(), true)] };
    let result = resolve_worker_path(&search);
    assert!(result.is_ok());
    assert_eq!(result.unwrap(), p);
}

#[test]
fn worker_helpers() {
    assert_eq!(health_url(3001), "http://127.0.0.1:3001/_rotiv/health");
    assert_eq!(invoke_url(3001), "http://127.0.0.1:3001/_rotiv/invoke");
    assert_eq!(resolve_tsx_loader(&vec![("x".to_string(), false)]), "tsx");
    assert_eq!(timeout_error(15).message, "route worker did not become ready within 15s");
    assert_eq!(ready_step(true, true), ReadyStep::TimedOut);
    assert_eq!(ready_step(false, true), ReadyStep::Ready);
    assert_eq!(ready_step(false, false), ReadyStep::Retry);
}

#[test]
fn is_route_file_filters_correctly() {
    assert!(is_route_file("app/routes/index.tsx"));
    assert!(is_route_file("app/routes/api/users.ts"));
    assert!(!is_route_file("app/routes/style.css"));
    assert!(!is_route_file(".rotiv/spec.json"));
    assert!(!is_route_file("app/.rotiv/context.md"));
}

#[test]
fn watch_events_are_classified() {
    assert!(matches!(polled_event(ChangeKind::Create, "a/b.tsx".to_string()), Some(WatchEvent::Created(_))));
    assert!(matches!(polled_event(ChangeKind::Remove, "a/b.ts".to_string()), Some(WatchEvent::Deleted(_))));
    assert!(polled_event(ChangeKind::Other, "a/b.css".to_string()).is_none());
    assert!(matches!(debounced_event("a/b.tsx".to_string(), false), Some(WatchEvent::Deleted(_))));
    assert!(matches!(debounced_event("a/b.tsx".to_string(), true), Some(WatchEvent::Changed(_))));
}

#[test]
fn file_watcher_passes_route_events_on() {
    let (tx, rx) = std::sync::mpsc::channel::<RouteEvent>();
    let watcher = FileWatcher::from_receiver(rx);
    assert!(watcher.try_recv().is_none());
    assert!(RouteEvent::polled(ChangeKind::Other, "a/style.css".to_string()).is_none());
    assert!(RouteEvent::debounced("a/.rotiv/x.ts".to_string(), true).is_none());
    tx.send(RouteEvent::polled(ChangeKind::Create, "a/b.tsx".to_string()).unwrap()).unwrap();
    tx.send(RouteEvent::debounced("a/c.ts".to_string(), false).unwrap()).unwrap();
    match watcher.try_recv() {
        Some(WatchEvent::Created(p)) => assert_eq!(p, "a/b.tsx"),
        other => panic!("unexpected {:?}", other),
    }
    match watcher.recv_timeout(std::time::Duration::from_millis(100)) {
        Some(WatchEvent::Deleted(p)) => assert_eq!(p, "a/c.ts"),
        other => panic!("unexpected {:?}", other),
    }
    drop(tx);
    assert!(watcher.recv_timeout(std::time::Duration::from_millis(10)).is_none());
}

#[test]
fn worker_replies_are_interpreted() {
    let ok = interpret_reply(201, vec![("x".to_string(), "1".to_string())], "body".to_string(), None).unwrap();
    assert_eq!(ok.status, 201);
    assert_eq!(ok.body, "body");
    let err = interpret_reply(500, vec![], "boom".to_string(), None).unwrap_err();
    assert_eq!(err.code, "E_ROUTE_ERROR");
    assert_eq!(err.message, "route worker returned 500: boom");
    let env = RotivError::new("E_LOADER", "failed");
    let err = interpret_reply(500, vec![], "{}".to_string(), Some(env)).unwrap_err();
    assert_eq!(err.code, "E_LOADER");
}

#[test]
fn server_dispatches_through_registry() {
    let mut reg = RouteRegistry::new("/p/app/routes");
    let files = vec![RouteFile {
        relative: "users/[id].tsx".to_string(),
        file_path: "/p/app/routes/users/[id].tsx".to_string(),
    }];
    reg.load(true, &files).unwrap();
    match dispatch(&reg, "/users/42", "GET".to_string(), Some("a=1"), vec![], None) {
        Dispatch::Invoke(req) => {
            assert_eq!(req.route_file, "/p/app/routes/users/[id].tsx");
            assert_eq!(req.params.get("id").map(|s| s.as_str()), Some("42"));
            assert_eq!(req.search_params, "?a=1");
        }
        Dispatch::NotFound(_) => panic!("expected a route"),
    }
    match dispatch(&reg, "/missing", "GET".to_string(), None, vec![], None) {
        Dispatch::NotFound(body) => assert_eq!(body, "No route for /missing"),
        Dispatch::Invoke(_) => panic!("expected no route"),
    }
}

#[test]
fn server_config_and_ports() {
    let server = DevServer::new(DevServerConfig {
        port: 3000,
        host: "127.0.0.1".to_string(),
        project_dir: "/p".to_string(),
        worker_port: 3001,
        json_output: false,
    });
    assert_eq!(server.config.worker_port, 3001);
    assert_eq!(listen_addr("127.0.0.1", 3000), "127.0.0.1:3000");
    assert_eq!(port_candidates(3001), (3001..3011).collect::<Vec<u16>>());
    assert_eq!(search_params_of(None), "");
}

#[test]
fn discover_models_empty_dir() {
    let result = discover_models(&vec!["/p/app/models/readme.md".to_string()]);
    assert!(result.is_empty());
}

#[test]
fn route_listing_lines() {
    let mut reg = RouteRegistry::new("/p/app/routes");
    let files = vec![RouteFile { relative: "api/ping.ts".to_string(), file_path: "/p/app/routes/api/ping.ts".to_string() }];
    reg.load(true, &files).unwrap();
    assert_eq!(rotiv::server::route_line(&reg.entries()[0]), "  API  /api/ping  →  app/routes/ping.ts");
}

#[test]
fn worker_runs_in_project_or_package_dir() {
    assert_eq!(rotiv::worker::worker_package_dir("/p", true, Some("/w".to_string())), "/p");
    assert_eq!(rotiv::worker::worker_package_dir("/p", false, Some("/w".to_string())), "/w");
    assert_eq!(rotiv::worker::worker_package_dir("/p", false, None), "/p");
}

#[test]
fn not_a_project_error_has_code() {
    let e = rotiv::error::not_a_project_error();
    assert_eq!(e.code, "E_NOT_A_PROJECT");
    assert!(e.suggestion.is_some());
}

#[test]
fn worker_port_follows_server_port() {
    assert_eq!(rotiv::server::worker_port_for(3000), 3001);
}

#[test]
fn manifest_state_parses_module_json() {
    assert!(matches!(manifest_state(None), ManifestState::Missing));
    assert!(matches!(manifest_state(Some(None)), ManifestState::Unreadable));
    match manifest_state(Some(Some("{ not json"))) {
        ManifestState::Invalid(e) => assert!(!e.is_empty()),
        other => panic!("unexpected {:?}", other),
    }
    match manifest_state(Some(Some(r#"{"version":"1","name":"x"}"#))) {
        ManifestState::Parsed(Some(keys)) => assert_eq!(keys, vec!["name", "version"]),
        other => panic!("unexpected {:?}", other),
    }
    assert!(matches!(manifest_state(Some(Some("[1]"))), ManifestState::Parsed(None)));
    let dir = ModuleDir {
        name: Some("auth".to_string()),
        manifest: manifest_state(Some(Some(r#"{"name":"auth"}"#))),
        has_entry: true,
    };
    let ds = check_module_dir(&dir);
    assert!(ds.iter().any(|d| d.code == "V009" && d.message.contains("version")));
}

#[test]
fn find_project_root_fails_outside_project() {
    let dirs = vec![("/tmp".to_string(), false), ("/".to_string(), false)];
    let result = rotiv::project::find_project_root(&dirs);
    assert!(result.is_err());
    let err = result.unwrap_err();
    assert_eq!(err.code, "E_NOT_A_PROJECT");
}

#[test]
fn find_project_root_takes_nearest_project() {
    let dirs = vec![
        ("/p/app/routes".to_string(), false),
        ("/p/app".to_string(), false),
        ("/p".to_string(), true),
        ("/".to_string(), true),
    ];
    assert_eq!(rotiv::project::find_project_root(&dirs).unwrap(), "/p");
    assert!(rotiv::project::find_project_root(&Vec::new()).is_err());
}

use rotiv::calendar::{days_to_ymd, format_timestamp};
use rotiv::cli::args::{output_mode, OutputMode, VERSION};
use rotiv::cli::commands::add::{
    derive_route_paths, first_party_module, model_scaffold_names, module_import_hint, modules_update,
    render_route_template, route_file_to_path, validate_model_name, validate_module_name, FirstPartyModule,
    ModulesUpdate, manifest_version_of, spec_with_module,
};
use rotiv::cli::commands::deploy::{
    deploy_file_of, deploy_next, deploy_steps, load_config, stage_error, DeployAction, DeployFile, DeployStage,
};
use rotiv::cli::commands::diff_impact::{find_affected_routes, find_import_line, target_stem};
use rotiv::cli::commands::explain::{find_topic, parse_topic, topic_names, unknown_topic_error};
use rotiv::cli::commands::new::{current_timestamp, render_template, validate_project_name};
use rotiv::cli::commands::spec_sync::{
    choose_project_name, discover_spec_routes, file_to_route_path as sync_route_path, route_flags,
    spec_model_entry, sync_summary, RouteSource, project_name_of, spec_summary_of, synced_spec, SpecModel,
};
use rotiv::cli::error::CliError;
use rotiv::cli::naming::{to_snake, to_snake_plural};
use rotiv::error::RotivError;

#[test]
fn derive_simple_route() {
    let (route, file) = derive_route_paths("users");
    assert_eq!(route, "/users");
    assert_eq!(file, "users.tsx");
}

#[test]
fn derive_dynamic_route() {
    let (route, file) = derive_route_paths("users/[id]");
    assert_eq!(route, "/users/:id");
    assert_eq!(file, "users/[id].tsx");
}

#[test]
fn derive_index_route() {
    let (route, file) = derive_route_paths("index");
    assert_eq!(route, "/");
    assert_eq!(file, "index.tsx");
}

#[test]
fn to_snake_pascal() {
    assert_eq!(to_snake("UserProfile"), "user_profile");
    assert_eq!(to_snake("Post"), "post");
    assert_eq!(to_snake("User"), "user");
}

#[test]
fn to_snake_plural_simple() {
    assert_eq!(to_snake_plural("Post"), "posts");
    assert_eq!(to_snake_plural("User"), "users");
    assert_eq!(to_snake_plural("UserProfile"), "user_profiles");
}

#[test]
fn derive_route_keeps_existing_extension_and_trims_slashes() {
    let (route, file) = derive_route_paths("/blog/[slug].tsx");
    assert_eq!(route, "/blog/:slug");
    assert_eq!(file, "blog/[slug].tsx");
    let (route, file) = derive_route_paths("users/index");
    assert_eq!(route, "/users");
    assert_eq!(file, "users/index.tsx");
}

#[test]
fn plural_of_sibilant_endings() {
    assert_eq!(to_snake_plural("Box"), "boxes");
    assert_eq!(to_snake_plural("Status"), "statuses");
    assert_eq!(to_snake_plural("Quiz"), "quizes");
}

#[test]
fn route_file_to_path_drops_index_segments() {
    assert_eq!(route_file_to_path("/p/app/routes/users/[id].tsx", "/p/app/routes"), "/users/:id");
    assert_eq!(route_file_to_path("/p/app/routes/index.tsx", "/p/app/routes"), "/");
    assert_eq!(route_file_to_path("/p/app/routes/blog/index.tsx", "/p/app/routes"), "/blog");
}

#[test]
fn model_name_validation() {
    assert!(validate_model_name("UserProfile").is_ok());
    let err = validate_model_name("user_profile").unwrap_err();
    assert_eq!(err.code, "E011");
    assert_eq!(err.corrected_code.as_deref(), Some("UserProfile"));
    assert_eq!(err.suggestion.as_deref(), Some("Did you mean 'UserProfile'?"));
    assert_eq!(err.got.as_deref(), Some("user_profile"));
    assert!(validate_model_name("").is_err());
}

#[test]
fn module_name_validation() {
    assert!(validate_module_name("file-uploads").is_ok());
    let err = validate_module_name("MyModule").unwrap_err();
    assert_eq!(err.code, "E012");
    assert_eq!(err.corrected_code.as_deref(), Some("my-module"));
    assert!(validate_module_name("").is_err());
}

#[test]
fn first_party_modules_are_recognised() {
    assert_eq!(first_party_module("auth"), Some(FirstPartyModule::Auth));
    assert_eq!(first_party_module("file-uploads"), Some(FirstPartyModule::FileUploads));
    assert_eq!(first_party_module("billing"), None);
}

#[test]
fn route_template_is_filled() {
    let out = render_route_template("path {{route_path}} at {{route_file_path}}", "/users/:id", "users/[id]");
    assert_eq!(out, "path /users/:id at users/[id]");
}

#[test]
fn model_scaffold_names_for_pascal_case() {
    let (table, file) = model_scaffold_names("UserProfile");
    assert_eq!(table, "user_profiles");
    assert_eq!(file, "user_profile.ts");
}

#[test]
fn module_hint_uses_camel_case() {
    assert_eq!(
        module_import_hint("file-uploads"),
        "import { fileUploadsMiddleware } from \"../modules/file-uploads/index.js\";"
    );
}

#[test]
fn spec_modules_update_avoids_duplicates() {
    let names = Some(vec![Some("auth".to_string()), None]);
    assert_eq!(modules_update(&names, "auth"), ModulesUpdate::Unchanged);
    assert_eq!(modules_update(&names, "sessions"), ModulesUpdate::Append);
    assert_eq!(modules_update(&None, "auth"), ModulesUpdate::Replace);
}

#[test]
fn timestamp_format() {
    let ts = current_timestamp();
    assert!(ts.contains('T'));
    assert!(ts.ends_with('Z'));
    assert_eq!(ts.len(), 20);
}

#[test]
fn days_to_ymd_epoch() {
    let (y, m, d) = days_to_ymd(0);
    assert_eq!((y, m, d), (1970, 1, 1));
}

#[test]
fn write_template_substitutes_placeholders() {
    let result = render_template("{{project_name}} created at {{created_at}}", "my-app", "2025-01-01T00:00:00Z");
    assert_eq!(result, "my-app created at 2025-01-01T00:00:00Z");
}

#[test]
fn days_to_ymd_known_dates() {
    assert_eq!(days_to_ymd(59), (1970, 3, 1));
    assert_eq!(days_to_ymd(10957), (2000, 1, 1));
    assert_eq!(days_to_ymd(11016), (2000, 2, 29));
    assert_eq!(days_to_ymd(11017), (2000, 3, 1));
    assert_eq!(days_to_ymd(19723), (2024, 1, 1));
    assert_eq!(days_to_ymd(20088), (2024, 12, 31));
    assert_eq!(days_to_ymd(47541), (2100, 3, 1));
}

#[test]
fn timestamp_of_known_instants() {
    assert_eq!(format_timestamp(0), "1970-01-01T00:00:00Z");
    assert_eq!(format_timestamp(951782400 + 3661), "2000-02-29T01:01:01Z");
    assert_eq!(format_timestamp(1735689599), "2024-12-31T23:59:59Z");
}

#[test]
fn project_name_validation() {
    assert!(validate_project_name("my-app_2").is_ok());
    let err = validate_project_name("my app").unwrap_err();
    assert_eq!(err.code, "E002");
    assert_eq!(
        err.message,
        "invalid project name 'my app': only alphanumeric characters, hyphens, and underscores are allowed"
    );
    assert_eq!(err.expected.as_deref(), Some("alphanumeric, hyphens, underscores"));
}

#[test]
fn all_topics_load() {
    let names = topic_names();
    assert_eq!(names.len(), 9);
    for name in names {
        assert!(!name.is_empty());
    }
}

#[test]
fn parse_produces_explanation() {
    let content = "# Routes\n\n## Explanation\n\nRoutes live in app/routes.\n\n## Code Example\n\n```tsx\nexport default defineRoute({});\n```\n\n## Related\n\n- loader, action\n- models\n";
    let parsed = parse_topic("routes", content);
    assert!(!parsed.explanation.is_empty());
    assert_eq!(parsed.explanation, "Routes live in app/routes.");
    assert_eq!(parsed.code_example, "export default defineRoute({});");
    assert_eq!(parsed.related, vec!["loader", "action", "models"]);
}

#[test]
fn topic_lookup_is_fuzzy() {
    assert_eq!(find_topic("routes"), Some(0));
    assert_eq!(find_topic("MIGRATE"), Some(6));
    assert_eq!(find_topic("mod"), Some(1));
    assert_eq!(find_topic("ware"), Some(4));
    assert_eq!(find_topic("deploy"), None);
}

#[test]
fn unknown_topic_lists_topics() {
    let err = unknown_topic_error("deploy");
    assert_eq!(err.code, "E020");
    assert_eq!(
        err.message,
        "unknown topic 'deploy'. Available topics: routes, models, loader, action, middleware, signals, migrate, context, modules"
    );
    assert_eq!(err.suggestion.as_deref(), Some("Try: rotiv explain routes"));
}

#[test]
fn version_is_semver() {
    let parts: Vec<&str> = VERSION.split('.').collect();
    assert_eq!(parts.len(), 3, "version should be semver: {}", VERSION);
}

#[test]
fn json_flag_selects_output_mode() {
    assert_eq!(output_mode(true), OutputMode::Json);
    assert_eq!(output_mode(false), OutputMode::Human);
}

#[test]
fn load_config_from_flags() {
    let config = load_config(None, Some("1.2.3.4"), Some("admin"), Some("/opt/app"), Some("myapp"));
    assert!(config.is_ok());
    let cfg = config.unwrap();
    assert_eq!(cfg.host, "1.2.3.4");
    assert_eq!(cfg.user, "admin");
    assert_eq!(cfg.remote_path, "/opt/app");
    assert_eq!(cfg.service_name, "myapp");
}

#[test]
fn load_config_from_file() {
    let file = deploy_file_of(r#"{"host":"5.5.5.5","user":"deploy","remote_path":"/srv/app","service_name":"svc"}"#)
        .unwrap();
    let config = load_config(Some(file), None, None, None, None).unwrap();
    assert_eq!(config.host, "5.5.5.5");
    assert_eq!(config.service_name, "svc");
}

#[test]
fn load_config_missing_host_errors() {
    let result = load_config(None, None, None, Some("/opt/app"), None);
    assert!(result.is_err());
    match result {
        Err(CliError::Rotiv(e)) => assert_eq!(e.code, "E023"),
        _ => panic!("expected E023"),
    }
}

#[test]
fn load_config_defaults_and_missing_path() {
    let cfg = load_config(None, Some("h"), None, Some("/p"), None).unwrap();
    assert_eq!(cfg.user, "root");
    assert_eq!(cfg.service_name, "");
    match load_config(None, Some("h"), None, None, None) {
        Err(CliError::Rotiv(e)) => assert_eq!(e.code, "E024"),
        _ => panic!("expected E024"),
    }
}

#[test]
fn deploy_plan_lists_commands() {
    let cfg = load_config(None, Some("1.2.3.4"), Some("admin"), Some("/opt/app"), Some("myapp")).unwrap();
    let steps = deploy_steps(&cfg, true);
    assert_eq!(steps.len(), 3);
    assert!(steps[0].skipped);
    assert_eq!(steps[1].command, "scp dist/server admin@1.2.3.4:/opt/app/server");
    assert_eq!(
        steps[2].command,
        "ssh admin@1.2.3.4 \"cd /opt/app && chmod +x server && ./server migrate 2>/dev/null; sudo systemctl restart myapp\""
    );
    assert_eq!(stage_error(DeployStage::Upload, Some(false)).unwrap().code, "E021");
    assert!(stage_error(DeployStage::Build, None).is_none());
}

#[test]
fn cli_error_converts_to_structured_error() {
    let e = CliError::Io("disk full".to_string()).to_rotiv_error();
    assert_eq!(e.code, "E_IO");
    assert_eq!(e.message, "disk full");
    let e = CliError::Other("boom".to_string()).to_rotiv_error();
    assert_eq!(e.code, "E_UNKNOWN");
    let inner = RotivError::new("E001", "x");
    let e = CliError::Rotiv(inner).to_rotiv_error();
    assert_eq!(e.code, "E001");
    assert_eq!(CliError::Io("disk full".to_string()).message(), "I/O error: disk full");
}

fn source(rel: &str, content: &str) -> RouteSource {
    RouteSource {
        rel_to_routes: rel.to_string(),
        rel_to_project: format!("app/routes/{}", rel),
        content: content.to_string(),
    }
}

#[test]
fn spec_sync_route_paths_drop_layout_and_index() {
    assert_eq!(sync_route_path("users/[id].tsx"), "/users/:id");
    assert_eq!(sync_route_path("index.tsx"), "/");
    assert_eq!(sync_route_path("admin/layout.tsx"), "/admin");
}

#[test]
fn spec_sync_flags_ignore_comments() {
    let flags = route_flags("// loader: not real\nexport default defineRoute({\n  component() {}\n})");
    assert!(!flags.has_loader);
    assert!(!flags.has_action);
    assert!(flags.has_component);
}

#[test]
fn spec_sync_routes_are_sorted() {
    let files = vec![
        source("users/[id].tsx", "loader()"),
        source("about.tsx", "action:"),
        source("style.css", ""),
    ];
    let routes = discover_spec_routes(&files);
    assert_eq!(routes.len(), 2);
    assert_eq!(routes[0].path, "/about");
    assert!(routes[0].flags.has_action);
    assert_eq!(routes[1].path, "/users/:id");
    assert_eq!(routes[1].file, "app/routes/users/[id].tsx");
}

#[test]
fn spec_sync_model_and_name() {
    let m = spec_model_entry("UserProfile", "app\\models\\user_profile.ts");
    assert_eq!(m.table, "user_profiles");
    assert_eq!(m.file, "app/models/user_profile.ts");
    assert_eq!(choose_project_name(None, Some("flat".to_string()), Some("dir".to_string())), "flat");
    assert_eq!(choose_project_name(None, None, None), "project");
    assert_eq!(sync_summary(3, 1), "synced 3 route(s), 1 model(s) → .rotiv/spec.json");
}

#[test]
fn diff_impact_finds_importing_routes() {
    assert_eq!(target_stem("app/models/user.ts"), "user");
    let files = vec![
        source("users/[id].tsx", "import { users } from \"../../models/user.js\";\nexport default 1;"),
        source("about.tsx", "// import user\nconst x = 1;"),
        source("index.tsx", "  import { user } from \"../models/user\";  "),
    ];
    let affected = find_affected_routes(&files, "user");
    assert_eq!(affected.len(), 2);
    assert_eq!(affected[0].path, "/");
    assert_eq!(affected[0].import_line, "import { user } from \"../models/user\";");
    assert_eq!(affected[1].path, "/users/:id");
    assert_eq!(find_import_line("const a = 1;", "user"), None);
}

#[test]
fn derived_paths_are_rooted_tsx_files() {
    for slug in ["a//b/", "/index", "[x]/index/", "docs/v1.2", "users/[id].tsx"] {
        let (route, file) = derive_route_paths(slug);
        assert!(route.starts_with('/'));
        assert!(route == "/" || !route.ends_with('/'));
        assert!(file.ends_with(".tsx"));
    }
    assert_eq!(derive_route_paths("a//b/").0, "/a/b");
}

#[test]
fn deploy_file_reads_string_fields() {
    let f = deploy_file_of(r#"{"host":"h","user":7,"remote_path":"/p"}"#).unwrap();
    assert_eq!(f.host.as_deref(), Some("h"));
    assert_eq!(f.user, None);
    assert_eq!(f.remote_path.as_deref(), Some("/p"));
    assert_eq!(f.service_name, None);
    assert!(deploy_file_of("not json").is_none());
    let g = deploy_file_of("[1,2]").unwrap();
    assert!(g.host.is_none() && g.user.is_none());
}

#[test]
fn deploy_runs_stages_in_order_and_stops_at_failure() {
    assert!(matches!(deploy_next(true, false, None), DeployAction::Finish));
    assert!(matches!(deploy_next(false, false, None), DeployAction::Run(DeployStage::Build)));
    assert!(matches!(deploy_next(false, true, None), DeployAction::Run(DeployStage::Upload)));
    assert!(matches!(deploy_next(false, false, Some((DeployStage::Build, Some(true)))), DeployAction::Run(DeployStage::Upload)));
    assert!(matches!(deploy_next(false, false, Some((DeployStage::Upload, None))), DeployAction::Run(DeployStage::Remote)));
    assert!(matches!(deploy_next(false, false, Some((DeployStage::Remote, Some(true)))), DeployAction::Finish));
    match deploy_next(false, false, Some((DeployStage::Upload, Some(false)))) {
        DeployAction::Fail(e) => assert_eq!(e.code, "E021"),
        other => panic!("unexpected {:?}", other),
    }
}

#[test]
fn project_name_prefers_spec_fields() {
    let dir = Some("mydir".to_string());
    assert_eq!(project_name_of(Some(r#"{"project":{"name":"nested"},"project_name":"flat"}"#), dir.clone()), "nested");
    assert_eq!(project_name_of(Some(r#"{"project_name":"flat"}"#), dir.clone()), "flat");
    assert_eq!(project_name_of(Some("{oops"), dir.clone()), "mydir");
    assert_eq!(project_name_of(None, dir), "mydir");
    assert_eq!(project_name_of(None, None), "project");
}

#[test]
fn module_version_comes_from_manifest() {
    assert_eq!(manifest_version_of(r#"{"name":"x","version":"2.1.0"}"#), "2.1.0");
    assert_eq!(manifest_version_of(r#"{"name":"x","version":3}"#), "0.1.0");
    assert_eq!(manifest_version_of("nope"), "0.1.0");
}

#[test]
fn adding_a_module_updates_spec_modules() {
    let v: serde_json::Value = serde_json::from_str(&spec_with_module(r#"{"version":"1"}"#, "auth", "0.2.0").unwrap()).unwrap();
    assert_eq!(v["modules"], serde_json::from_str::<serde_json::Value>(r#"[{"name":"auth","version":"0.2.0"}]"#).unwrap());
    let v: serde_json::Value =
        serde_json::from_str(&spec_with_module(r#"{"modules":[{"name":"sessions","version":"1"}]}"#, "auth", "0.2.0").unwrap())
            .unwrap();
    assert_eq!(v["modules"].as_array().unwrap().len(), 2);
    assert_eq!(v["modules"][1]["name"], "auth");
    let text = spec_with_module(r#"{"modules":[{"name":"auth","version":"1"}]}"#, "auth", "0.2.0").unwrap();
    let v: serde_json::Value = serde_json::from_str(&text).unwrap();
    assert_eq!(v["modules"].as_array().unwrap().len(), 1);
    assert_eq!(v["modules"][0]["version"], "1");
    let v: serde_json::Value = serde_json::from_str(&spec_with_module("garbage", "auth", "0.2.0").unwrap()).unwrap();
    assert_eq!(v["version"], "1");
    assert_eq!(v["modules"][0]["name"], "auth");
}

#[test]
fn sync_writes_routes_and_models_into_spec() {
    let sources = vec![RouteSource {
        rel_to_routes: "users/[id].tsx".to_string(),
        rel_to_project: "app/routes/users/[id].tsx".to_string(),
        content: "export default defineRoute({ loader() {} })".to_string(),
    }];
    let outcome = rotiv::cli::commands::spec_sync::run(&sources, &vec![("Post".to_string(), "app/models/post.ts".to_string())]);
    let text = synced_spec(Some(r#"{"version":"1","project":{"name":"demo"}}"#), &outcome.routes, &outcome.models).unwrap();
    let v: serde_json::Value = serde_json::from_str(&text).unwrap();
    assert_eq!(v["project"]["name"], "demo");
    assert_eq!(v["routes"][0]["path"], "/users/:id");
    assert_eq!(v["routes"][0]["file"], "app/routes/users/[id].tsx");
    assert_eq!(v["routes"][0]["has_loader"], true);
    assert_eq!(v["models"][0]["table"], "posts");
    let fresh = synced_spec(None, &Vec::new(), &vec![SpecModel { name: "A\"b".to_string(), file: "f".to_string(), table: "t".to_string() }]).unwrap();
    let v: serde_json::Value = serde_json::from_str(&fresh).unwrap();
    assert_eq!(v["version"], "1");
    assert_eq!(v["routes"], serde_json::Value::Array(Vec::new()));
    assert_eq!(v["models"][0]["name"], "A\"b");
    assert!(synced_spec(Some("[1]"), &Vec::new(), &Vec::new()).is_none());
}

#[test]
fn spec_summary_reads_project_fields() {
    let s = spec_summary_of(
        r#"{"version":"1","project":{"name":"demo","created_at":"2024-01-01T00:00:00Z"},"routes":[{},{}],"models":[]}"#,
    )
    .unwrap();
    assert_eq!(s.name.as_deref(), Some("demo"));
    assert_eq!(s.created_at.as_deref(), Some("2024-01-01T00:00:00Z"));
    assert_eq!(s.version.as_deref(), Some("1"));
    assert_eq!(s.routes, Some(2));
    assert_eq!(s.models, Some(0));
    assert!(spec_summary_of("{").is_none());
}

#[test]
fn leading_slash_is_ignored_when_deriving_routes() {
    assert_eq!(derive_route_paths("/users/[id]"), derive_route_paths("users/[id]"));
    assert_eq!(derive_route_paths("/"), ("/".to_string(), ".tsx".to_string()));
}

#[test]
fn added_route_path_agrees_with_spec_sync() {
    let added = route_file_to_path("/p/app/routes/users/[id].tsx", "/p/app/routes");
    assert_eq!(added, "/users/:id");
    assert_eq!(added, sync_route_path("users/[id].tsx"));
    assert_eq!(route_file_to_path("/p/app/routes/blog/index.tsx", "/p/app/routes"), sync_route_path("blog/index.tsx"));
}

#[test]
fn null_spec_becomes_an_object() {
    let v: serde_json::Value = serde_json::from_str(&spec_with_module("null", "auth", "0.2.0").unwrap()).unwrap();
    assert_eq!(v, serde_json::from_str::<serde_json::Value>(r#"{"modules":[{"name":"auth","version":"0.2.0"}]}"#).unwrap());
    let v: serde_json::Value = serde_json::from_str(&synced_spec(Some("null"), &Vec::new(), &Vec::new()).unwrap()).unwrap();
    assert_eq!(v, serde_json::from_str::<serde_json::Value>(r#"{"routes":[],"models":[]}"#).unwrap());
    assert!(spec_with_module("[1]", "auth", "0.2.0").is_none());
}

#[test]
fn json_strings_are_escaped_like_serde_json() {
    let name = "q\"b\\s\n\u{1}é";
    let text = synced_spec(None, &Vec::new(), &vec![SpecModel { name: name.to_string(), file: "f".to_string(), table: "t".to_string() }]).unwrap();
    let v: serde_json::Value = serde_json::from_str(&text).unwrap();
    assert_eq!(v["models"][0]["name"], name);
}

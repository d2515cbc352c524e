use rotiv::router::discovery::{discover_routes, file_to_route_path, sort_key, RouteFile};
use rotiv::router::matcher::route_to_axum_path;
use rotiv::router::registry::RouteRegistry;

const ROUTES_DIR: &str = "/tmp/project/app/routes";

fn listing(files: &[&str]) -> Vec<RouteFile> {
    files
        .iter()
        .map(|f| RouteFile {
            relative: f.to_string(),
            file_path: format!("{}/{}", ROUTES_DIR, f),
        })
        .collect()
}

fn setup_registry(files: &[&str]) -> RouteRegistry {
    let mut reg = RouteRegistry::new(ROUTES_DIR);
    reg.load(true, &listing(files)).unwrap();
    reg
}

#[test]
fn exact_match() {
    let params = rotiv::router::matcher::matches("/about", "/about").unwrap();
    assert!(params.is_empty());
}

#[test]
fn param_extraction() {
    let params = rotiv::router::matcher::matches("/users/:id", "/users/42").unwrap();
    assert_eq!(params.get("id").unwrap(), "42");
}

#[test]
fn root_matches_root() {
    let params = rotiv::router::matcher::matches("/", "/").unwrap();
    assert!(params.is_empty());
}

#[test]
fn no_match_different_segments() {
    assert!(rotiv::router::matcher::matches("/about", "/contact").is_none());
}

#[test]
fn no_match_different_depth() {
    assert!(rotiv::router::matcher::matches("/users/:id", "/users/42/posts").is_none());
}

#[test]
fn index_tsx_maps_to_root() {
    let routes = discover_routes(ROUTES_DIR, true, &listing(&["index.tsx"])).unwrap();
    assert_eq!(routes.len(), 1);
    assert_eq!(routes[0].route_path, "/");
    assert!(!routes[0].is_api_only);
}

#[test]
fn about_tsx_maps_to_about() {
    let routes = discover_routes(ROUTES_DIR, true, &listing(&["about.tsx"])).unwrap();
    assert_eq!(routes[0].route_path, "/about");
}

#[test]
fn dynamic_param_maps_to_colon_syntax() {
    let routes = discover_routes(ROUTES_DIR, true, &listing(&["users/[id].tsx"])).unwrap();
    assert_eq!(routes[0].route_path, "/users/:id");
}

#[test]
fn users_index_maps_to_users() {
    let routes = discover_routes(ROUTES_DIR, true, &listing(&["users/index.tsx"])).unwrap();
    assert_eq!(routes[0].route_path, "/users");
}

#[test]
fn empty_dir_returns_empty_vec() {
    let routes = discover_routes(ROUTES_DIR, true, &listing(&[])).unwrap();
    assert!(routes.is_empty());
}

#[test]
fn ts_extension_is_api_only() {
    let routes = discover_routes(ROUTES_DIR, true, &listing(&["api/users.ts"])).unwrap();
    assert!(routes[0].is_api_only);
}

#[test]
fn underscore_files_are_skipped() {
    let routes = discover_routes(ROUTES_DIR, true, &listing(&["_helpers.tsx", "index.tsx"])).unwrap();
    assert_eq!(routes.len(), 1);
    assert_eq!(routes[0].route_path, "/");
}

#[test]
fn exact_routes_sort_before_parameterized() {
    let routes =
        discover_routes(ROUTES_DIR, true, &listing(&["users/[id].tsx", "users/index.tsx"])).unwrap();
    assert_eq!(routes[0].route_path, "/users");
    assert_eq!(routes[1].route_path, "/users/:id");
}

#[test]
fn nonexistent_dir_returns_error() {
    let result = discover_routes("/nonexistent/routes", false, &listing(&[]));
    assert!(result.is_err());
    let err = result.unwrap_err();
    assert_eq!(err.code, "E_ROUTES_DIR_NOT_FOUND");
}

#[test]
fn find_exact_route() {
    let reg = setup_registry(&["index.tsx", "about.tsx"]);
    let entry = reg.find_by_path("/about").unwrap();
    assert_eq!(entry.route_path, "/about");
}

#[test]
fn find_root_route() {
    let reg = setup_registry(&["index.tsx"]);
    let entry = reg.find_by_path("/").unwrap();
    assert_eq!(entry.route_path, "/");
}

#[test]
fn find_parameterized_route() {
    let reg = setup_registry(&["users/[id].tsx"]);
    let entry = reg.find_by_path("/users/42").unwrap();
    assert_eq!(entry.route_path, "/users/:id");
}

#[test]
fn no_match_returns_none() {
    let reg = setup_registry(&["index.tsx"]);
    assert!(reg.find_by_path("/missing").is_none());
}

#[test]
fn exact_before_parameterized() {
    let reg = setup_registry(&["users/index.tsx", "users/[id].tsx"]);
    let entry = reg.find_by_path("/users").unwrap();
    assert_eq!(entry.route_path, "/users");
}

// Further cases.

#[test]
fn params_later_value_wins() {
    let params = rotiv::router::matcher::matches("/a/:x/:x", "/a/1/2").unwrap();
    assert_eq!(params.get("x").unwrap(), "2");
    assert!(params.get("y").is_none());
}

#[test]
fn slashes_are_trimmed_before_matching() {
    let params = rotiv::router::matcher::matches("/users/:id/", "users/7").unwrap();
    assert_eq!(params.get("id").unwrap(), "7");
}

#[test]
fn route_matches_itself_literally() {
    let params = rotiv::router::matcher::matches("/users/:id", "/users/:id").unwrap();
    assert_eq!(params.get("id").unwrap(), ":id");
}

#[test]
fn file_to_route_path_examples() {
    assert_eq!(file_to_route_path("routes", "routes/index.tsx"), "/");
    assert_eq!(file_to_route_path("routes", "routes/about.tsx"), "/about");
    assert_eq!(file_to_route_path("routes", "routes/users/index.tsx"), "/users");
    assert_eq!(file_to_route_path("routes", "routes/users/[id].tsx"), "/users/:id");
    assert_eq!(file_to_route_path("/base", "/base/a.b.tsx"), "/a.b");
}

#[test]
fn sort_key_replaces_colons() {
    assert_eq!(sort_key("/users/:id"), "/users/~id");
    assert!(sort_key("/users/new") < sort_key("/users/:id"));
}

#[test]
fn hidden_directories_are_skipped() {
    let routes = discover_routes(ROUTES_DIR, true, &listing(&[".cache/x.tsx", "_lib/y.tsx", "z.css", "ok.tsx"])).unwrap();
    assert_eq!(routes.len(), 1);
    assert_eq!(routes[0].route_path, "/ok");
}

#[test]
fn api_path_is_api_only() {
    let routes = discover_routes(ROUTES_DIR, true, &listing(&["api/items.tsx"])).unwrap();
    assert!(routes[0].is_api_only);
    assert_eq!(routes[0].file_path, format!("{}/api/items.tsx", ROUTES_DIR));
}

#[test]
fn extract_params_without_match_is_empty() {
    let reg = setup_registry(&["users/[id].tsx"]);
    let entry = reg.entries()[0].clone();
    assert_eq!(reg.extract_params(&entry, "/users/9").get("id").unwrap(), "9");
    assert!(reg.extract_params(&entry, "/other").is_empty());
}

#[test]
fn reload_keeps_entries_on_error() {
    let mut reg = setup_registry(&["index.tsx"]);
    assert!(reg.reload(false, &listing(&[])).is_err());
    assert_eq!(reg.entries().len(), 1);
}

#[test]
fn axum_path_is_unchanged() {
    assert_eq!(route_to_axum_path("/users/:id"), "/users/:id");
}

#[test]
fn reload_reproduces_routes() {
    let files = listing(&["users/[id].tsx", "about.tsx", "index.tsx", "users/index.tsx", "api/ping.ts"]);
    let mut reg = RouteRegistry::new(ROUTES_DIR);
    reg.load(true, &files).unwrap();
    let first: Vec<(String, String, bool)> =
        reg.entries().iter().map(|e| (e.file_path.clone(), e.route_path.clone(), e.is_api_only)).collect();
    reg.reload(true, &files).unwrap();
    let second: Vec<(String, String, bool)> =
        reg.entries().iter().map(|e| (e.file_path.clone(), e.route_path.clone(), e.is_api_only)).collect();
    assert_eq!(first, second);
    let paths: Vec<&str> = first.iter().map(|e| e.1.as_str()).collect();
    assert_eq!(paths, vec!["/", "/about", "/api/ping", "/users", "/users/:id"]);
}

#[test]
fn reload_of_missing_dir_keeps_routes() {
    let mut reg = setup_registry(&["about.tsx"]);
    let err = reg.reload(false, &Vec::new()).unwrap_err();
    assert_eq!(err.code, "E_ROUTES_DIR_NOT_FOUND");
    assert_eq!(reg.entries().len(), 1);
}

#[test]
fn each_request_resolves_to_one_route() {
    let reg = setup_registry(&["users/[id].tsx", "users/[name].tsx", "users/me.tsx"]);
    assert_eq!(reg.find_by_path("/users/me").unwrap().route_path, "/users/me");
    assert_eq!(reg.find_by_path("/users/7").unwrap().route_path, "/users/:id");
}

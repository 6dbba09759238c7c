use elmio_cli::asset_hasher::{
    filter_paths_by_ext, replace_checksum_in_content, AssetHasher, Config as HasherConfig, Error,
};
use elmio_cli::serve::{
    compare_path_paths, listen_port_from_str, match_route, parse_header_pairs, parse_routes,
    path_to_parts, split_sub, Config as ServeConfig, Route,
};
use elmio_cli::time::Posix;

fn hasher() -> AssetHasher {
    AssetHasher::new(HasherConfig {
        core_project_path_src: String::from("/proj/app_core/src"),
        web_project_path_src: String::from("/proj/app_web/src"),
        web_project_path_css: String::from("/proj/app_web/css"),
        dist_path: String::from("/proj/dist"),
    })
}

const EMPTY_SHA256: &str = "e3b0c44298fc1c149afbf4c8996fb92427ae41e4649b934ca495991b7852b855";

#[test]
fn dist_uris_are_relative_paths() {
    let hasher = hasher();
    let uri = hasher.get_dist_uri("/proj/dist", "/proj/dist/js/app.js").expect("inside dist");
    assert_eq!(uri, "/js/app.js");
    assert!(matches!(
        hasher.get_dist_uri("/proj/dist", "/elsewhere/app.js"),
        Err(Error::StripPathPrefix)
    ));
}

#[test]
fn dist_assets_collect() {
    let hasher = hasher();
    let files = vec![String::from("/proj/dist/app.css"), String::from("/proj/dist/js/app.js")];
    let assets = hasher.collect_dist_assets(&files).expect("all inside dist");
    assert_eq!(assets.len(), 2);
    assert_eq!(assets[0].uri(), "/app.css");
    assert_eq!(assets[0].path(), "/proj/dist/app.css");
    assert_eq!(assets[1].uri(), "/js/app.js");

    let stray = vec![String::from("/outside/app.css")];
    assert!(matches!(hasher.collect_dist_assets(&stray), Err(Error::StripPathPrefix)));
}

#[test]
fn hashing_empty_content() {
    let hasher = hasher();
    let files = vec![String::from("/proj/dist/app.css")];
    let assets = hasher.collect_dist_assets(&files).expect("inside dist");
    let hashed = hasher.hash_asset(assets[0].clone(), &Vec::new()).expect("pattern compiles");
    assert_eq!(hashed.hash(), EMPTY_SHA256);
    assert_eq!(hashed.short_hash(), "e3b0c44");
}

#[test]
fn references_extract_and_rewrite() {
    let hasher = hasher();
    let files = vec![String::from("/proj/dist/app.css")];
    let assets = hasher.collect_dist_assets(&files).expect("inside dist");
    let hashed = hasher.hash_asset(assets[0].clone(), &Vec::new()).expect("pattern compiles");

    assert_eq!(
        hashed.extract_hash("url(\"/app.css?hash=0ldh4sh\")"),
        Some(String::from("0ldh4sh"))
    );
    assert_eq!(hashed.extract_hash("no reference"), None);

    let content = "a {}\n/* /app.css?hash=0ldh4sh */\nb {}";
    let (rewritten, changed) = replace_checksum_in_content(content, &vec![hashed.clone()]);
    assert!(changed);
    assert_eq!(rewritten, "a {}\n/* /app.css?hash=e3b0c44 */\nb {}");

    let (same, changed) = replace_checksum_in_content("nothing", &vec![hashed.clone()]);
    assert!(!changed);
    assert_eq!(same, "nothing");

    // A reference already carrying the current hash is left alone.
    let current = "/app.css?hash=e3b0c44";
    let (kept, changed) = replace_checksum_in_content(current, &vec![hashed]);
    assert!(!changed);
    assert_eq!(kept, current);
}

#[test]
fn invalid_reference_pattern_is_rejected() {
    // A URI with an unbalanced group makes the reference pattern no valid
    // regular expression.
    let hasher = hasher();
    let files = vec![String::from("/proj/dist/odd(.css")];
    let assets = hasher.collect_dist_assets(&files).expect("inside dist");
    assert!(matches!(hasher.hash_asset(assets[0].clone(), &Vec::new()), Err(Error::Regex)));
}

#[test]
fn paths_filter_by_extension() {
    let paths = vec![
        String::from("/s/a.rs"),
        String::from("/s/b.ts"),
        String::from("/s/c.rs"),
        String::from("/s/noext"),
    ];
    assert_eq!(filter_paths_by_ext(&paths, "rs"), vec!["/s/a.rs", "/s/c.rs"]);
    assert_eq!(filter_paths_by_ext(&paths, "css"), Vec::<String>::new());
}

#[test]
fn routes_parse_per_line() {
    let routes = parse_routes("/api/* => handle.sh api\nmalformed line\n /ping => pong.sh \n");
    assert_eq!(routes.len(), 2);
    assert_eq!(routes[0].path, "/api/*");
    assert_eq!(routes[0].cmd, "handle.sh api");
    assert_eq!(routes[1].path, "/ping");
    assert_eq!(routes[1].cmd, "pong.sh");
}

#[test]
fn sub_splitting() {
    assert_eq!(split_sub("a => b", "=>"), vec!["a ", " b"]);
    assert_eq!(split_sub("a=>b=>c", "=>"), vec!["a", "b", "c"]);
    assert_eq!(split_sub("plain", "=>"), vec!["plain"]);
}

#[test]
fn path_pieces_and_wildcards() {
    assert_eq!(path_to_parts("/api/users/"), vec!["api", "users"]);
    assert_eq!(path_to_parts("api"), vec!["api"]);
    assert_eq!(path_to_parts(""), vec![""]);

    assert!(compare_path_paths(
        &vec![String::from("api"), String::from("users")],
        &vec![String::from("api"), String::from("*")],
    ));
    assert!(!compare_path_paths(
        &vec![String::from("api")],
        &vec![String::from("api"), String::from("*")],
    ));
    assert!(!compare_path_paths(&vec![String::from("api")], &vec![String::from("web")]));
}

#[test]
fn first_matching_route_wins() {
    let config = ServeConfig {
        static_base_path: String::from("/proj/dist"),
        routes: vec![
            Route { path: String::from("/api/*"), cmd: String::from("first.sh") },
            Route { path: String::from("/api/users"), cmd: String::from("second.sh") },
        ],
        response_headers: vec![],
    };
    let hit = match_route(&config, "/api/users").expect("a route matches");
    assert_eq!(hit.cmd, "first.sh");
    assert!(match_route(&config, "/other").is_none());
}

#[test]
fn header_lines_parse() {
    let pairs = parse_header_pairs(&vec![
        String::from("Cache-Control: no-store"),
        String::from("bad header"),
        String::from(" X-Env : dev "),
    ]);
    assert_eq!(pairs.len(), 2);
    assert_eq!(pairs[0], (String::from("Cache-Control"), String::from("no-store")));
    assert_eq!(pairs[1], (String::from("X-Env"), String::from("dev")));
}

#[test]
fn listen_port_is_stable_sum() {
    // d + i + s + t = 13 + 18 + 28 + 29 = 88 in base 36.
    assert_eq!(listen_port_from_str("dist"), 8088);
    assert_eq!(listen_port_from_str("/dist/"), 8088);
    assert_eq!(listen_port_from_str(""), 8000);
    let port = listen_port_from_str("/some/longer/path");
    assert!((8000..=8999).contains(&port));
}

#[test]
fn posix_round_trip() {
    let t = Posix::from_millis(1_500);
    assert_eq!(t.as_millis(), 1_500);
    assert_eq!(Posix::from_millis(0).as_millis(), 0);
    assert!(t == Posix::from_millis(1_500));
    assert!(t.as_system_time().is_some());
}

#[test]
fn posix_millis_since_saturates() {
    let earlier = Posix::from_millis(500);
    let later = Posix::from_millis(2_000);
    assert_eq!(later.millis_since(&earlier), 1_500);
    assert_eq!(earlier.millis_since(&later), 0);
    assert_eq!(earlier.millis_since(&earlier), 0);
}

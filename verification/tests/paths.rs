use conflic::baseline::filename_of;
use conflic::discover::{
    AdditionalFilePattern, FileDiscoverer, is_docker_compose_file, is_glob_pattern, is_tsconfig_file, normalize_path_for_match, path_matches_prefix,
    trim_relative_prefix,
};
use conflic::enrich::{cache_path_candidates, load_cache, resolve_cache_path, RegistryDb};
use conflic::impact::{render_impact_report, BlastRadius, ImpactReport, ImpactedFile};
use conflic::model::finding::parse_severity;
use conflic::model::Severity;

#[test]
fn file_names_of_paths() {
    assert_eq!(filename_of("src/app/.nvmrc"), ".nvmrc");
    assert_eq!(filename_of("dir/sub/"), "sub");
    assert_eq!(filename_of("a/.."), "a/..");
    assert_eq!(filename_of("/"), "/");
}

#[test]
fn discovery_path_helpers() {
    assert_eq!(normalize_path_for_match("a\\b\\c"), "a/b/c");
    assert_eq!(trim_relative_prefix("././src/.\\x"), "src/.\\x");
    assert_eq!(trim_relative_prefix(".\\.\\y"), "y");
    assert!(path_matches_prefix("src/app", "src"));
    assert!(path_matches_prefix("src", "src"));
    assert!(!path_matches_prefix("srcx/app", "src"));
    assert!(is_docker_compose_file("docker-compose.override.yaml"));
    assert!(!is_docker_compose_file("compose.yaml"));
    assert!(is_tsconfig_file("tsconfig.json"));
}

#[test]
fn severities_by_name() {
    assert_eq!(parse_severity(" Warning "), Severity::Warning);
    assert_eq!(parse_severity("INFO"), Severity::Info);
    assert_eq!(parse_severity("fatal"), Severity::Error);
}

#[test]
fn test_load_cache_missing_returns_default() {
    let db = load_cache(None);
    assert!(db.families.is_empty());
}

#[test]
fn cache_file_resolution() {
    let (local, home) = cache_path_candidates("/proj", Some("/home/u"));
    assert_eq!(local, "/proj/.conflic-registry-cache.json");
    assert_eq!(home.as_deref(), Some("/home/u/.conflic/registry-cache.json"));
    assert_eq!(resolve_cache_path("/proj", Some("/home/u"), false, true), "/home/u/.conflic/registry-cache.json");
    assert_eq!(resolve_cache_path("/proj", Some("/home/u"), true, true), "/proj/.conflic-registry-cache.json");
    assert_eq!(resolve_cache_path("/proj", None, false, true), "/proj/.conflic-registry-cache.json");
    let db = RegistryDb { families: vec![], updated_at: Some("now".into()) };
    assert_eq!(load_cache(Some(db)).updated_at.as_deref(), Some("now"));
}

#[test]
fn impact_report_text() {
    let report = ImpactReport {
        root_changes: vec![ImpactedFile {
            path: ".nvmrc".into(),
            concept_ids: vec!["node-version".into(), "app-port".into()],
            reason: "changed".into(),
        }],
        direct_impacts: vec![ImpactedFile { path: "Dockerfile".into(), concept_ids: vec![], reason: "shares node-version".into() }],
        transitive_impacts: vec![],
        affected_concepts: vec!["node-version".into()],
        blast_radius: BlastRadius { files_affected: 2, concepts_affected: 1, worst_severity: Some(Severity::Warning) },
    };
    let out = render_impact_report(&report, true);
    assert_eq!(
        out,
        "conflic v0.1.0 - impact analysis\n\nRoot changes:\n  .nvmrc [node-version, app-port]\n\n\
Direct impacts (1 file(s)):\n  Dockerfile - shares node-version\n\n\
Blast radius: 2 file(s), 1 concept(s), worst severity: WARNING\n"
    );
    let colored = render_impact_report(&report, false);
    assert!(colored.contains("\x1b[33mDirect impacts (1 file(s)):\x1b[39m\n"));
}

#[test]
fn glob_patterns_are_told_from_plain_names() {
    assert!(is_glob_pattern("*.yml"));
    assert!(is_glob_pattern("config/?.toml"));
    assert!(is_glob_pattern("file[0-9].json"));
    assert!(!is_glob_pattern("package.json"));
    assert!(!is_glob_pattern(""));
}

#[test]
fn discoverer_sorts_exclusions_into_globs_prefixes_and_segments() {
    let d = FileDiscoverer::new(
        "/repo",
        vec!["vendor/".to_string(), "./apps/legacy".to_string(), "*.bak".to_string(), "tmp\\cache".to_string()],
        vec![],
    );
    assert_eq!(d.exclude_globs, vec!["*.bak".to_string(), "**/*.bak".to_string()]);
    assert_eq!(d.exclude_path_prefixes, vec!["apps/legacy".to_string(), "tmp/cache".to_string()]);
    assert_eq!(d.exclude_segments, vec!["vendor".to_string(), "*.bak".to_string()]);
}

#[test]
fn discoverer_excludes_by_glob_prefix_and_segment() {
    let d = FileDiscoverer::new(
        "/repo",
        vec!["vendor".to_string(), "apps/legacy".to_string(), "*.bak".to_string(), "/opt/shared".to_string()],
        vec![],
    );
    assert!(d.is_excluded("/repo/src/vendor/package.json"));
    assert!(d.is_excluded("/repo/apps/legacy/.nvmrc"));
    assert!(!d.is_excluded("/repo/apps/legacy2/.nvmrc"));
    assert!(d.is_excluded("/repo/config/old.json.bak"));
    assert!(d.is_excluded("/opt/shared/.env"));
    assert!(!d.is_excluded("/repo/src/package.json"));
}

#[test]
fn additional_patterns_match_by_glob_path_or_name() {
    let glob = AdditionalFilePattern::new("./configs/*.toml".to_string()).unwrap();
    assert_eq!(glob.normalized, "configs/*.toml");
    assert!(glob.glob.is_some());
    assert!(glob.matches("/repo", "app.toml", "/repo/configs/app.toml"));
    assert!(!glob.matches("/repo", "app.json", "/repo/configs/app.json"));
    let path = AdditionalFilePattern::new("tools/versions.txt".to_string()).unwrap();
    assert!(path.glob.is_none());
    assert!(path.matches("/repo", "versions.txt", "/repo/tools/versions.txt"));
    assert!(!path.matches("/repo", "versions.txt", "/repo/other/versions.txt"));
    let name = AdditionalFilePattern::new("VERSION".to_string()).unwrap();
    assert!(name.matches("/repo", "VERSION", "/repo/a/b/VERSION"));
    assert!(!name.matches("/repo", "VERSION.txt", "/repo/VERSION.txt"));
}

use prmt::cache::{GitCache, GitInfo, VersionCache};
use prmt::detector::DetectionContext;
use prmt::memo::{memoized_version, GitMemo};
use prmt::modules::node::NodeModule;
use prmt::modules::python::PythonModule;
use prmt::{ModuleRegistry, Provider};

#[test]
fn version_cache_records_presence_and_absence() {
    let mut cache = VersionCache::new();
    assert_eq!(cache.get("rust_version"), None);
    cache.insert("rust_version".to_string(), Some("1.80.0".to_string()));
    assert_eq!(
        cache.get("rust_version"),
        Some(Some("1.80.0".to_string()))
    );
    cache.insert("node_version".to_string(), None);
    assert_eq!(cache.get("node_version"), Some(None));
    assert_eq!(cache.get("go_version"), None);
}

#[test]
fn version_cache_insert_shadows_earlier_record() {
    let mut cache = VersionCache::new();
    cache.insert("rust_version".to_string(), Some("1.79.0".to_string()));
    cache.insert("rust_version".to_string(), Some("1.80.1".to_string()));
    assert_eq!(
        cache.get("rust_version"),
        Some(Some("1.80.1".to_string()))
    );
}

#[test]
fn git_cache_keyed_by_repository_root() {
    let mut cache = GitCache::new();
    assert!(cache.get("/repo").is_none());
    cache.insert(
        "/repo".to_string(),
        GitInfo {
            branch: "main".to_string(),
            has_changes: true,
            has_staged: false,
            has_untracked: true,
        },
    );
    let info = cache.get("/repo").unwrap();
    assert_eq!(info.branch, "main");
    assert!(info.has_changes);
    assert!(!info.has_staged);
    assert!(info.has_untracked);
    assert!(cache.get("/elsewhere").is_none());
}

#[test]
fn git_memo_keyed_by_repository_root() {
    let mut memo = GitMemo::new();
    assert!(memo.get("/repo").is_none());
    memo.insert(
        "/repo".to_string(),
        prmt::memo::GitInfo {
            branch: "dev".to_string(),
            has_changes: false,
            has_staged: true,
            has_untracked: false,
        },
    );
    let info = memo.get("/repo").unwrap();
    assert_eq!(info.branch, "dev");
    assert!(info.has_staged);
}

#[test]
fn memoized_version_caches_successful_fetches() {
    let mut slot: Option<Option<String>> = None;
    let calls = std::cell::Cell::new(0);
    let value = memoized_version(&mut slot, || {
        calls.set(calls.get() + 1);
        Some("1.2.3".to_string())
    })
    .expect("expected version");
    assert_eq!(calls.get(), 1);
    assert_eq!(value.as_str(), "1.2.3");

    let second = memoized_version(&mut slot, || {
        calls.set(calls.get() + 1);
        Some("should not run".to_string())
    })
    .expect("expected cached version");
    assert_eq!(calls.get(), 1);
    assert_eq!(second.as_str(), "1.2.3");
}

#[test]
fn memoized_version_caches_absence() {
    let mut slot: Option<Option<String>> = None;
    let calls = std::cell::Cell::new(0);
    let value = memoized_version(&mut slot, || {
        calls.set(calls.get() + 1);
        None
    });
    assert!(value.is_none());
    assert_eq!(calls.get(), 1);

    let second = memoized_version(&mut slot, || {
        calls.set(calls.get() + 1);
        Some("unexpected".to_string())
    });
    assert!(second.is_none());
    assert_eq!(calls.get(), 1);
}

#[test]
fn detection_context_lookup() {
    let ctx = DetectionContext::empty();
    assert!(ctx.get("Cargo.toml").is_none());
    let ctx = DetectionContext::from_pairs(vec![
        ("Cargo.toml".to_string(), "/p/Cargo.toml".to_string()),
        (".git".to_string(), "/p/.git".to_string()),
    ]);
    assert_eq!(ctx.get("Cargo.toml").unwrap(), "/p/Cargo.toml");
    assert_eq!(ctx.get(".git").unwrap(), "/p/.git");
    assert!(ctx.get("go.mod").is_none());
}

#[test]
fn number_formatting() {
    assert_eq!(prmt::chars::u64_to_string(0), "0");
    assert_eq!(prmt::chars::u64_to_string(1234), "1234");
    assert_eq!(prmt::chars::i32_to_string(-42), "-42");
    assert_eq!(prmt::chars::i32_to_string(i32::MIN), "-2147483648");
    assert_eq!(prmt::chars::two_digit_string(7), "07");
    assert_eq!(prmt::chars::two_digit_string(59), "59");
}

#[test]
fn registry_markers_are_deduplicated_union() {
    let mut registry = ModuleRegistry::new();
    registry.register(
        "node".to_string(),
        Provider::Node(NodeModule::with_version(None)),
    );
    registry.register(
        "python".to_string(),
        Provider::Python(PythonModule::with_version(None)),
    );
    registry.register(
        "node2".to_string(),
        Provider::Node(NodeModule::with_version(None)),
    );
    let mut markers = registry.required_markers();
    markers.sort();
    assert_eq!(
        markers,
        vec![
            "package.json".to_string(),
            "pyproject.toml".to_string(),
            "requirements.txt".to_string(),
            "setup.py".to_string(),
        ]
    );
}

#[test]
fn version_output_parsing() {
    assert_eq!(
        prmt::modules::rust::parse_rustc_version("rustc 1.80.1 (3f5fd8dd4 2024-08-06)"),
        Some("1.80.1".to_string())
    );
    assert_eq!(prmt::modules::rust::parse_rustc_version("rustc"), None);
    assert_eq!(
        prmt::modules::node::node_version_from_output("v20.11.1\n"),
        "20.11.1"
    );
    assert_eq!(
        prmt::modules::python::python_version_from_output("Python 3.12.4\n"),
        Some("3.12.4".to_string())
    );
    assert_eq!(
        prmt::modules::go::go_version_from_output("go version go1.22.1 linux/amd64\n"),
        Some("1.22.1".to_string())
    );
    assert_eq!(
        prmt::modules::deno::deno_version_from_output("deno 1.44.4 (release)\nv8 12.6\ntypescript 5.4.5\n"),
        Some("1.44.4".to_string())
    );
    assert_eq!(prmt::modules::bun::bun_version_from_output("1.1.13\n"), "1.1.13");
}

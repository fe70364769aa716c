use ravel_lite::paths::normalized_path;
use ravel_lite::projects::{auto_add, try_add_named, AutoAddOutcome, ProjectsCatalog};
use std::path::{Component, Path};

#[test]
fn normalized_paths_compare_as_std_paths_do() {
    let cases = [
        "/a//b/", "/a/./b", "./a", "a/.", "", ".", "/", "//a", "a/../b", "./.", "/a/b", "a", "a/b/",
    ];
    for a in cases {
        for b in cases {
            assert_eq!(
                normalized_path(a) == normalized_path(b),
                Path::new(a) == Path::new(b),
                "{a:?} vs {b:?}"
            );
        }
    }
    assert_eq!(normalized_path("/a//b/"), "/a/b");
    assert_eq!(normalized_path("./a/./b"), "./a/b");
}

#[test]
fn catalog_finds_a_path_written_differently() {
    let mut catalog = ProjectsCatalog::default();
    try_add_named(&mut catalog, "alpha", "/p/alpha").unwrap();
    assert_eq!(catalog.find_by_path("/p//alpha/").unwrap().name, "alpha");
    match auto_add(&mut catalog, "/p/alpha/").unwrap() {
        AutoAddOutcome::AlreadyCatalogued { name } => assert_eq!(name, "alpha"),
        _ => panic!("expected the catalogued entry"),
    }
    assert_eq!(catalog.projects.len(), 1);
}

#[test]
fn std_parent_and_file_name_follow_the_components() {
    let cases = ["/a/b", "/a", "/", "", ".", "./a", "a/..", "a/b/", "//a//b", "a", "../x", "/a/./b/."];
    for p in cases {
        let comps: Vec<String> = Path::new(p)
            .components()
            .filter(|c| !matches!(c, Component::RootDir))
            .map(|c| c.as_os_str().to_string_lossy().to_string())
            .collect();
        match Path::new(p).parent() {
            None => assert!(comps.is_empty(), "{p:?}"),
            Some(q) => {
                let qc: Vec<String> = q
                    .components()
                    .filter(|c| !matches!(c, Component::RootDir))
                    .map(|c| c.as_os_str().to_string_lossy().to_string())
                    .collect();
                assert_eq!(qc, comps[..comps.len() - 1].to_vec(), "{p:?}");
                assert_eq!(q.has_root(), Path::new(p).has_root(), "{p:?}");
                let joined = if Path::new(p).has_root() { format!("/{}", qc.join("/")) } else { qc.join("/") };
                assert_eq!(normalized_path(q.to_str().unwrap()), joined, "{p:?}");
            }
        }
        let expected = comps.last().filter(|l| l.as_str() != ".." && l.as_str() != ".").cloned();
        assert_eq!(Path::new(p).file_name().map(|n| n.to_string_lossy().to_string()), expected, "{p:?}");
    }
}

use ravel_lite::ontology::EdgeKind;
use ravel_lite::projects::{try_add_named, ProjectsCatalog};
use ravel_lite::related_components::{
    canonicalise_participants_for_kind, plan_project_path, related_plans_file, require_component_known,
    resolve_plan_component_name,
};

#[test]
fn plan_project_path_derives_grandparent() {
    assert_eq!(plan_project_path("/a/b/c").unwrap(), "/a");
    assert!(plan_project_path("/a").is_err());
}

#[test]
fn symmetric_participants_are_sorted_directed_are_not() {
    let symmetric = EdgeKind { name: "co-implements".to_string(), directed: false };
    let directed = EdgeKind { name: "depends-on".to_string(), directed: true };
    assert_eq!(
        canonicalise_participants_for_kind(&symmetric, "Beta", "Alpha"),
        vec!["Alpha".to_string(), "Beta".to_string()]
    );
    assert_eq!(
        canonicalise_participants_for_kind(&directed, "Beta", "Alpha"),
        vec!["Beta".to_string(), "Alpha".to_string()]
    );
}

#[test]
fn unknown_components_are_refused_with_guidance() {
    let mut catalog = ProjectsCatalog::default();
    try_add_named(&mut catalog, "Known", "/p/Known").unwrap();
    assert!(require_component_known(&catalog, "Known").is_ok());
    let err = require_component_known(&catalog, "Stranger").unwrap_err();
    assert!(err.contains("Stranger"));
    assert!(err.contains("state projects add"));
}

#[test]
fn plan_component_is_the_catalogued_project() {
    let mut catalog = ProjectsCatalog::default();
    try_add_named(&mut catalog, "proj", "/dev/proj").unwrap();
    assert_eq!(resolve_plan_component_name(&catalog, "/dev/proj/LLM_STATE/core").unwrap(), "proj");
    assert!(resolve_plan_component_name(&catalog, "/dev/other/LLM_STATE/core").is_err());
    assert_eq!(related_plans_file("/p"), "/p/related-plans.md");
}

use ravel_lite::pi_setup::{
    extension_installed_in, indent_block, render_subagent, split_frontmatter, subagent_file_name, SkillFrontmatter,
};

#[test]
fn indent_block_indents_every_line() {
    assert_eq!(indent_block("a\nb"), "    a\n    b");
    assert_eq!(indent_block(""), "");
    assert_eq!(indent_block("only"), "    only");
}

#[test]
fn extension_is_found_among_packages() {
    assert_eq!(extension_installed_in(Some(r#"{"packages":["npm:@mjakl/pi-subagent"]}"#)), Ok(true));
    assert_eq!(extension_installed_in(Some(r#"{"packages":["npm:something-else"]}"#)), Ok(false));
    assert_eq!(extension_installed_in(Some(r#"{"other":1}"#)), Ok(false));
    assert_eq!(extension_installed_in(None), Ok(false));
    assert!(extension_installed_in(Some("{not json")).is_err());
}

#[test]
fn subagent_files_lose_their_prefix_and_must_be_markdown() {
    assert_eq!(subagent_file_name("agents/planner.md", "agents/"), Some("planner.md".to_string()));
    assert_eq!(subagent_file_name("agents/notes.txt", "agents/"), None);
}

#[test]
fn frontmatter_is_split_from_the_body() {
    let (fm, body) = split_frontmatter("---\nname: x\n---\nbody line\nmore").unwrap();
    assert_eq!(fm, "name: x");
    assert_eq!(body, "body line\nmore");
    assert!(split_frontmatter("no front matter").is_none());
}

#[test]
fn rendered_subagent_has_normalised_front_matter() {
    let fm = SkillFrontmatter {
        name: "planner".to_string(),
        description: "Plans".to_string(),
        tools: Some(vec!["read".to_string(), "grep".to_string()]),
        model: None,
        thinking: Some("high".to_string()),
    };
    let text = render_subagent(&fm, "Do it.");
    assert!(text.starts_with("---\nname: planner\ndescription: Plans\ntools: read, grep\nthinking: high\n"));
    assert!(text.ends_with("Do it."));
}

use axon::skills::{
    cached_skill, is_address, not_found, parse_github_url, parse_skill_md, parse_tree, raw_url,
    skill_files, skill_url, skills_dir, tree_url,
};

#[test]
fn parse_minimal_skill() {
    let raw =
        "---\nname: test-skill\ndescription: A test skill\n---\n\n# Instructions\nDo stuff.\n";
    let skill = parse_skill_md(raw, None).unwrap_or_else(|e| panic!("{}", e));
    assert_eq!(skill.name, "test-skill");
    assert_eq!(skill.description, "A test skill");
    assert!(skill.content.contains("Do stuff."));
}

#[test]
fn parse_quoted_description() {
    let raw = "---\nname: my-skill\ndescription: \"Quoted description\"\n---\nBody.";
    let skill = parse_skill_md(raw, None).unwrap_or_else(|e| panic!("{}", e));
    assert_eq!(skill.description, "Quoted description");
}

#[test]
fn parse_missing_name_errors() {
    let raw = "---\ndescription: No name here\n---\nBody.";
    assert!(parse_skill_md(raw, None).is_err());
}

#[test]
fn skill_dir_placeholder_resolved() {
    let raw = "---\nname: s\ndescription: d\n---\nrun {{SKILL_DIR}}/setup.sh";
    let dir = "/home/user/.axon/skills/s";
    let skill = parse_skill_md(raw, Some(dir)).unwrap_or_else(|e| panic!("{}", e));
    assert_eq!(skill.content, "run /home/user/.axon/skills/s/setup.sh");
}

#[test]
fn parse_github_url_bare_repo() {
    let gh = parse_github_url("https://github.com/org/my-skill").unwrap_or_else(|e| panic!("{}", e));
    assert_eq!(gh.owner, "org");
    assert_eq!(gh.repo, "my-skill");
    assert_eq!(gh.branch, "HEAD");
    assert_eq!(gh.subpath, "");
}

#[test]
fn parse_github_url_blob() {
    let gh = parse_github_url("https://github.com/org/repo/blob/main/skills/code-review/SKILL.md")
        .unwrap_or_else(|e| panic!("{}", e));
    assert_eq!(gh.branch, "main");
    assert_eq!(gh.subpath, "skills/code-review");
}

#[test]
fn parse_github_url_tree() {
    let gh = parse_github_url("https://github.com/org/repo/tree/main/skills/code-review")
        .unwrap_or_else(|e| panic!("{}", e));
    assert_eq!(gh.branch, "main");
    assert_eq!(gh.subpath, "skills/code-review");
}

#[test]
fn skill_errors() {
    let message = |raw: &str| parse_skill_md(raw, None).err().unwrap_or_default();
    assert_eq!(
        message("# heading"),
        "SKILL.md is missing the opening `---` frontmatter delimiter"
    );
    assert_eq!(message("---\nname: x\n"), "SKILL.md is missing the closing `---`");
    assert_eq!(message("---"), "SKILL.md is missing the closing `---`");
    assert_eq!(
        message("---\nname: ''\n---\n"),
        "SKILL.md frontmatter is missing a `name:` field"
    );
}

#[test]
fn skill_last_field_counts_and_leading_space_is_ignored() {
    let raw = "\n\n---\nname: first\nname: 'second'\n---\n\nBody";
    let skill = parse_skill_md(raw, None).unwrap_or_else(|e| panic!("{}", e));
    assert_eq!(skill.name, "second");
    assert_eq!(skill.description, "");
    assert_eq!(skill.content, "Body");
}

#[test]
fn skill_body_may_open_with_a_rule() {
    let skill = parse_skill_md("---\nname: s\n---\n---\nBody", None);
    assert_eq!(skill.map(|s| s.content), Ok("---\nBody".to_string()));
}

#[test]
fn github_url_errors_and_forms() {
    let message = |url: &str| parse_github_url(url).err().unwrap_or_default();
    assert_eq!(
        message("https://example.com/a/b/"),
        "only github.com URLs are supported (got: https://example.com/a/b)"
    );
    assert_eq!(
        message("https://github.com/org"),
        "GitHub URL must be at least https://github.com/owner/repo"
    );
    assert_eq!(
        message("https://github.com/org/repo/issues"),
        "unsupported GitHub URL format: https://github.com/org/repo/issues"
    );
    let gh = parse_github_url("http://github.com/org/repo/tree/dev//").unwrap_or_else(|e| panic!("{}", e));
    assert_eq!(gh.branch, "dev");
    assert_eq!(gh.subpath, "");
    let gh = parse_github_url("https://github.com/org/repo/blob/main/SKILL.md")
        .unwrap_or_else(|e| panic!("{}", e));
    assert_eq!(gh.subpath, "");
}

#[test]
fn github_addresses() {
    let gh = parse_github_url("https://github.com/org/repo/tree/main/a/b").unwrap_or_else(|e| panic!("{}", e));
    assert_eq!(
        skill_url(&gh),
        "https://raw.githubusercontent.com/org/repo/main/a/b/SKILL.md"
    );
    assert_eq!(
        tree_url(&gh),
        "https://api.github.com/repos/org/repo/git/trees/main?recursive=1"
    );
    assert_eq!(
        raw_url(&gh, "x.sh"),
        "https://raw.githubusercontent.com/org/repo/main/x.sh"
    );
    let root = parse_github_url("https://github.com/org/repo").unwrap_or_else(|e| panic!("{}", e));
    assert_eq!(
        skill_url(&root),
        "https://raw.githubusercontent.com/org/repo/HEAD/SKILL.md"
    );
}

#[test]
fn tree_listing_picks_the_files_of_the_skill() {
    let gh = parse_github_url("https://github.com/org/repo/tree/main/a").unwrap_or_else(|e| panic!("{}", e));
    let listing = r#"{"tree":[
        {"type":"tree","path":"a"},
        {"type":"blob","path":"a/SKILL.md"},
        {"type":"blob","path":"a/run.sh"},
        {"type":"blob","path":"b/other.sh"},
        {"type":"blob"},
        7
    ]}"#;
    let entries = parse_tree(listing).unwrap_or_else(|e| panic!("{}", e));
    assert_eq!(entries.len(), 6);
    let files = skill_files(&gh, &entries);
    assert_eq!(files.len(), 1);
    assert_eq!(files[0].rel_path, "run.sh");
    assert_eq!(
        files[0].url,
        "https://raw.githubusercontent.com/org/repo/main/a/run.sh"
    );
    let root = parse_github_url("https://github.com/org/repo").unwrap_or_else(|e| panic!("{}", e));
    let names: Vec<String> = skill_files(&root, &entries).into_iter().map(|f| f.rel_path).collect();
    assert_eq!(names, vec!["a/SKILL.md", "a/run.sh", "b/other.sh", ""]);
}

#[test]
fn tree_listing_errors() {
    assert_eq!(
        parse_tree("no json").err(),
        Some("failed to parse GitHub tree API response".to_string())
    );
    assert_eq!(
        parse_tree("{\"tree\":{}}").err(),
        Some("unexpected GitHub Trees API response shape".to_string())
    );
    assert_eq!(
        parse_tree("[]").err(),
        Some("unexpected GitHub Trees API response shape".to_string())
    );
}

#[test]
fn skill_places() {
    assert!(is_address("http://x"));
    assert!(is_address("https://x"));
    assert!(!is_address("httpx"));
    assert_eq!(skills_dir(Some("/home/u")), Ok("/home/u/.axon/skills".to_string()));
    assert_eq!(skills_dir(None), Err("cannot determine home directory".to_string()));
    assert_eq!(not_found("x"), "skill 'x' not found in ~/.axon/skills/");
}

#[test]
fn skills_are_cached_by_their_address() {
    let gh = |url: &str| parse_github_url(url).unwrap_or_else(|e| panic!("{}", e));
    let file = gh("http://github.com/o/r/blob/main/d/SKILL.md//");
    let dir = gh("https://github.com/o/r/tree/main/d/");
    let saved = vec![
        ("other".to_string(), skill_url(&gh("https://github.com/o/r"))),
        ("mine".to_string(), skill_url(&dir)),
    ];
    assert_eq!(cached_skill(&saved, &file), Some("mine".to_string()));
    assert_eq!(cached_skill(&saved, &dir), Some("mine".to_string()));
    assert_eq!(cached_skill(&saved, &gh("https://github.com/o/s")), None);
    assert_eq!(cached_skill(&Vec::new(), &dir), None);
}

use deepseek_app_lib::deepseek::Role;
use deepseek_app_lib::error::AppError;
use deepseek_app_lib::skills::{
    build_skill_documents, collect_skills, enabled_only, selected_skills, skill_from_header,
    skill_router_messages, skill_selection_prompt, skills_from_reply, split_frontmatter,
    SkillCandidate, SkillFrontmatter, SkillInfo,
};

/// Reads the header fields the way the application shell does, with serde_yaml.
fn header(yaml: &str) -> SkillFrontmatter {
    let v: serde_yaml::Value = serde_yaml::from_str(yaml).unwrap();
    SkillFrontmatter {
        name: v.get("name").and_then(|x| x.as_str()).map(String::from),
        description: v.get("description").and_then(|x| x.as_str()).map(String::from),
        allow_implicit_invocation: v
            .get("metadata")
            .and_then(|m| m.get("allow-implicit-invocation"))
            .and_then(|b| b.as_bool()),
    }
}

fn skill_doc(name: &str, description: &str, implicit: bool) -> String {
    format!(
        "---\nname: {name}\ndescription: {description}\nmetadata:\n  allow-implicit-invocation: {implicit}\n---\n\n# {name}\n\nDo the thing.\n"
    )
}

fn candidate(dir: &str, raw: &str) -> SkillCandidate {
    let (yaml, body) = split_frontmatter(raw).unwrap();
    skill_from_header(&header(&yaml), dir, &body)
}

fn info(name: &str, enabled: bool) -> SkillInfo {
    SkillInfo {
        name: name.to_string(),
        path: format!("/skills/{name}"),
        description: format!("about {name}"),
        implicit: true,
        enabled,
    }
}

#[test]
fn scans_and_parses_skills() {
    let cands = vec![
        candidate("/tmp/s/code-review", &skill_doc("code-review", "Review code for bugs", true)),
        candidate("/tmp/s/doc-writer", &skill_doc("doc-writer", "Write documentation", false)),
    ];
    let skills = collect_skills(&cands, &Vec::new());
    assert_eq!(skills.len(), 2);
    let review = skills.iter().find(|s| s.name == "code-review").unwrap();
    assert!(review.implicit);
    assert!(review.description.contains("Review code"));
    assert!(review.enabled);
    let doc = skills.iter().find(|s| s.name == "doc-writer").unwrap();
    assert!(!doc.implicit);
}

#[test]
fn enabled_override_filters() {
    let cands = vec![
        candidate("/tmp/s/a", &skill_doc("a", "skill a", true)),
        candidate("/tmp/s/b", &skill_doc("b", "skill b", true)),
    ];
    let skills = collect_skills(&cands, &vec!["a".to_string()]);
    assert_eq!(skills.len(), 2);
    assert!(skills.iter().find(|s| s.name == "a").unwrap().enabled);
    assert!(!skills.iter().find(|s| s.name == "b").unwrap().enabled);
}

#[test]
fn falls_back_to_dir_name() {
    let c = candidate("/tmp/s/my_skill", "---\ndescription: something\n---\n\nbody");
    let skills = collect_skills(&vec![c], &Vec::new());
    assert_eq!(skills[0].name, "my-skill");
    assert_eq!(skills[0].description, "something");
}

#[test]
fn description_falls_back_to_first_body_line() {
    let c = candidate("/tmp/s/x", "---\nname: x\n---\n\n# Title\n\n  First line.  \nSecond.");
    assert_eq!(c.description, "First line.");
    assert!(c.implicit);
    assert_eq!(c.path, "/tmp/s/x");
}

#[test]
fn documents_without_front_matter_are_not_skills() {
    assert_eq!(split_frontmatter("# just markdown"), None);
    assert_eq!(split_frontmatter("---\nname: open"), None);
    assert_eq!(
        split_frontmatter("\n  ---\nname: a\n---\n  body  \n"),
        Some(("\nname: a\n".to_string(), "body".to_string()))
    );
}

#[test]
fn first_root_wins_and_list_is_sorted_by_name() {
    let cands = vec![
        SkillCandidate { name: "zeta".into(), path: "/u/zeta".into(), description: "u".into(), implicit: true },
        SkillCandidate { name: "alpha".into(), path: "/u/alpha".into(), description: "u".into(), implicit: true },
        SkillCandidate { name: "zeta".into(), path: "/b/zeta".into(), description: "b".into(), implicit: false },
    ];
    let skills = collect_skills(&cands, &Vec::new());
    let names: Vec<&str> = skills.iter().map(|s| s.name.as_str()).collect();
    assert_eq!(names, vec!["alpha", "zeta"]);
    assert_eq!(skills[1].path, "/u/zeta");
}

#[test]
fn only_enabled_skills_are_offered() {
    let list = vec![info("a", true), info("b", false), info("c", true)];
    let on = enabled_only(&list);
    let names: Vec<&str> = on.iter().map(|s| s.name.as_str()).collect();
    assert_eq!(names, vec!["a", "c"]);
}

#[test]
fn router_request_lists_the_catalog() {
    let list = vec![info("a", true), info("b", true)];
    let p = skill_selection_prompt(&list, "help");
    assert!(p.ends_with("Available skills:\n- a: about a\n- b: about b\n\nUser request: help"));
    let msgs = skill_router_messages(&list, "help");
    assert_eq!(msgs.len(), 2);
    assert_eq!(msgs[0].role, Role::System);
    assert_eq!(msgs[1].role, Role::User);
    assert_eq!(msgs[1].content, p);
}

#[test]
fn router_reply_selects_named_skills_in_list_order() {
    let list = vec![info("a", true), info("b", true), info("c", true)];
    let r = selected_skills(&list, Some(r#"{"skillNames": ["c", "a", "nope"]}"#)).unwrap();
    let names: Vec<&str> = r.iter().map(|s| s.name.as_str()).collect();
    assert_eq!(names, vec!["a", "c"]);
    assert!(selected_skills(&list, Some(r#"{"skillNames": "a"}"#)).unwrap().is_empty());
    match selected_skills(&list, Some("not json")) {
        Err(AppError::Parse(m)) => assert_eq!(m, "技能选择响应不是合法 JSON: not json"),
        other => panic!("unexpected: {other:?}"),
    }
    assert_eq!(
        selected_skills(&list, None).unwrap_err(),
        AppError::Parse("技能选择响应缺少 content".into())
    );
    let given = skills_from_reply(&list, "x", Some(Some(vec![Some("b".to_string()), None]))).unwrap();
    assert_eq!(given.len(), 1);
    assert_eq!(given[0].name, "b");
}

#[test]
fn router_picks_at_most_three_skills() {
    let list = vec![info("a", true), info("b", true), info("c", true), info("d", true)];
    let r = selected_skills(&list, Some(r#"{"skillNames":["d","c","b","a"]}"#)).unwrap();
    let names: Vec<&str> = r.iter().map(|s| s.name.as_str()).collect();
    assert_eq!(names, vec!["a", "b", "c"]);
    assert!(r.iter().all(|s| list.contains(s)));
}

#[test]
fn skill_documents_block() {
    let list = vec![info("a", true)];
    let text = build_skill_documents(&list, &vec!["BODY".to_string()]);
    assert_eq!(
        text,
        "Use the skill documents below to assist the user:\n<a path=\"/skills/a\">\nBODY\n</a>\n"
    );
}

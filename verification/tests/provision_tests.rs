use openflows::json::Json;
use openflows::provision::{has_mcp, join_path, Provisioner, RoleEntry};

fn entry(id: &str, enabled: bool, skills: &[&str], mcp: Json) -> RoleEntry {
    RoleEntry {
        id: id.to_string(),
        enabled,
        skills: skills.iter().map(|s| s.to_string()).collect(),
        mcp,
    }
}

#[test]
fn paths_join_like_path_join() {
    assert_eq!(join_path("/opt/orch", "orchestration"), "/opt/orch/orchestration");
    assert_eq!(join_path("/opt/orch/", "x"), "/opt/orch/x");
    assert_eq!(join_path("", "x"), "x");
    assert_eq!(join_path("/opt", "/etc/x"), "/etc/x");
}

#[test]
fn enabled_role_plan_lists_skills_standards_and_persona() {
    let p = Provisioner::new("/orch");
    assert_eq!(p.orchestrator_dir(), "/orch");
    let e = entry("forge", true, &["tdd", "git"], Json::Null);
    let plan = p.provision_plan("forge", Some(&e)).unwrap().unwrap();
    assert_eq!(plan.skills_dir, ".agents/skills");
    assert_eq!(plan.skills.len(), 2);
    assert_eq!(plan.skills[0].source, "/orch/orchestration/plugin/skills/tdd/SKILL.md");
    assert_eq!(plan.skills[0].target, ".agents/skills/tdd/SKILL.md");
    assert_eq!(plan.skills[1].target, ".agents/skills/git/SKILL.md");
    assert!(!plan.write_mcp);
    assert_eq!(plan.standards.len(), 3);
    assert_eq!(plan.standards[0].source, "/orch/orchestration/agent/standards/CODING.md");
    assert_eq!(plan.standards[2].target, "REVIEW.md");
    assert_eq!(plan.persona.source, "/orch/orchestration/agent/agents/forge.agent.md");
    assert_eq!(plan.persona_copies, vec!["forge.agent.md".to_string(), "AGENTS.md".to_string()]);
}

#[test]
fn disabled_and_unknown_roles() {
    let p = Provisioner::new("/orch");
    let lore = entry("lore", false, &[], Json::Null);
    assert!(p.provision_plan("lore", Some(&lore)).unwrap().is_none());
    let err = p.provision_plan("ghost", None).unwrap_err();
    assert_eq!(err.message(), "Role 'ghost' not found in registry");
}

#[test]
fn mcp_is_written_only_for_a_non_empty_object() {
    assert!(!has_mcp(&Json::Null));
    assert!(!has_mcp(&Json::Object(vec![])));
    assert!(!has_mcp(&Json::Array(vec![Json::Null])));
    assert!(has_mcp(&Json::Object(vec![("servers".to_string(), Json::Object(vec![]))])));
    let p = Provisioner::new("o");
    let e = entry("forge", true, &[], Json::Object(vec![("a".to_string(), Json::Bool(true))]));
    assert!(p.provision_plan("forge", Some(&e)).unwrap().unwrap().write_mcp);
}

#[test]
fn provisions_agents_md_persona_for_enabled_role() {
    let p = Provisioner::new("/tmp/orch");
    let forge = entry("forge", true, &[], Json::Null);
    let plan = p.provision_plan("forge", Some(&forge)).unwrap().unwrap();
    assert_eq!(plan.persona.source, "/tmp/orch/orchestration/agent/agents/forge.agent.md");
    assert!(plan.persona_copies.iter().any(|t| t == "AGENTS.md"));
    assert!(plan.persona_copies.iter().any(|t| t == "forge.agent.md"));
}

#[test]
fn skips_agents_md_for_disabled_role() {
    let p = Provisioner::new("/tmp/orch");
    let lore = entry("lore", false, &[], Json::Null);
    assert!(p.provision_plan("lore", Some(&lore)).unwrap().is_none());
}

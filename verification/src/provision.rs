//! What provisioning a role into a worker workspace writes: the role's
//! skills, its MCP configuration, the standards files and its persona.
//!
//! Checking which source files exist and copying them through the workspace
//! transport is done around this module, which decides the plan.

use vstd::prelude::*;
use vstd::string::StringExecFns;
use crate::json::Json;

verus! {

/// `base` joined with the relative or absolute path `comp`, as `Path::join`
/// does for `/`-separated paths: an absolute `comp` replaces `base`.
pub open spec fn join_spec(base: Seq<char>, comp: Seq<char>) -> Seq<char> {
    if comp.len() > 0 && comp[0] == '/' {
        comp
    } else if base.len() == 0 {
        comp
    } else if base.last() == '/' {
        base + comp
    } else {
        base + "/"@ + comp
    }
}

/// `base` joined with `comp`.
pub fn join_path(base: &str, comp: &str) -> (p: String)
    ensures
        p@ == join_spec(base@, comp@),
{
    let b = crate::text::chars_of(base);
    let c = crate::text::chars_of(comp);
    if c.len() > 0 && c[0] == '/' {
        return String::from_str(comp);
    }
    if b.len() == 0 {
        return String::from_str(comp);
    }
    let mut p = String::from_str(base);
    if b[b.len() - 1] != '/' {
        p.append("/");
    }
    p.append(comp);
    proof {
        reveal_strlit("/");
    }
    p
}

/// Provisions configuration files and skills into worker workspaces from an
/// orchestrator source directory (the one holding `orchestration/`).
#[derive(Debug, Clone)]
pub struct Provisioner {
    orchestrator_dir: String,
}

impl View for Provisioner {
    type V = Seq<char>;

    closed spec fn view(&self) -> Seq<char> {
        self.orchestrator_dir@
    }
}

/// A role's registry entry, as provisioning reads it.
#[derive(Debug)]
pub struct RoleEntry {
    pub id: String,
    pub enabled: bool,
    pub skills: Vec<String>,
    /// The role's MCP configuration.
    pub mcp: Json,
}

/// The MCP configuration is written only when it is a non-empty object.
pub open spec fn has_mcp_spec(mcp: Json) -> bool {
    mcp matches Json::Object(f) && f@.len() > 0
}

pub fn has_mcp(mcp: &Json) -> (r: bool)
    ensures
        r == has_mcp_spec(*mcp),
{
    match mcp {
        Json::Object(f) => f.len() > 0,
        _ => false,
    }
}

/// A file to copy: `source` on the orchestrator side (copied only if it
/// exists), `target` in the workspace.
#[derive(Debug, Clone)]
pub struct FileCopy {
    pub source: String,
    pub target: String,
}

/// What to provision for an enabled role, in order. A failure to create
/// `skills_dir` skips the skills; a failed skill copy is only reported; a
/// failure to write `.mcp.json` or to copy a standard or the persona fails
/// the provisioning.
#[derive(Debug, Clone)]
pub struct ProvisionPlan {
    pub skills_dir: String,
    pub skills: Vec<FileCopy>,
    /// Write the role's MCP configuration to `.mcp.json`.
    pub write_mcp: bool,
    pub standards: Vec<FileCopy>,
    /// The persona, copied to each of its targets (`{role}.agent.md`, then
    /// `AGENTS.md`) if it exists.
    pub persona: FileCopy,
    pub persona_copies: Vec<String>,
}

/// Why provisioning cannot start.
#[derive(Debug, Clone)]
pub enum ProvisionError {
    /// The registry has no entry for the role.
    RoleNotFound { role: String },
}

impl ProvisionError {
    pub fn message(&self) -> (m: String)
        ensures
            self matches ProvisionError::RoleNotFound { role } && m@ == "Role '"@ + role@
                + "' not found in registry"@,
    {
        match self {
            ProvisionError::RoleNotFound { role } => {
                let mut m = String::from_str("Role '");
                m.append(role.as_str());
                m.append("' not found in registry");
                m
            },
        }
    }
}

/// The skills directory in the workspace.
pub const SKILLS_DIR: &'static str = ".agents/skills";

/// `{dir}/orchestration/{a}/{b}` for the orchestrator directory `dir`.
pub open spec fn orch_path(dir: Seq<char>, a: Seq<char>, b: Seq<char>) -> Seq<char> {
    join_spec(join_spec(join_spec(dir, "orchestration"@), a), b)
}

/// Where a skill's `SKILL.md` comes from.
pub open spec fn skill_source(dir: Seq<char>, skill: Seq<char>) -> Seq<char> {
    join_spec(join_spec(orch_path(dir, "plugin"@, "skills"@), skill), "SKILL.md"@)
}

/// Where a skill's `SKILL.md` goes.
pub open spec fn skill_target(skill: Seq<char>) -> Seq<char> {
    SKILLS_DIR@ + "/"@ + skill + "/SKILL.md"@
}

/// The standards files, copied under their own names.
pub open spec fn standard_names() -> Seq<Seq<char>> {
    seq!["CODING.md"@, "SECURITY.md"@, "REVIEW.md"@]
}

/// Where a role's persona comes from.
pub open spec fn persona_source(dir: Seq<char>, role: Seq<char>) -> Seq<char> {
    join_spec(orch_path(dir, "agent"@, "agents"@), role + ".agent.md"@)
}

/// The plan for an enabled role.
pub open spec fn plan_matches(p: ProvisionPlan, dir: Seq<char>, role: Seq<char>, e: RoleEntry) -> bool {
    &&& p.skills_dir@ == SKILLS_DIR@
    &&& p.skills@.len() == e.skills@.len()
    &&& forall|i: int|
        0 <= i < e.skills@.len() ==> (#[trigger] p.skills@[i]).source@ == skill_source(
            dir,
            e.skills@[i]@,
        ) && p.skills@[i].target@ == skill_target(e.skills@[i]@)
    &&& p.write_mcp == has_mcp_spec(e.mcp)
    &&& p.standards@.len() == 3
    &&& forall|i: int|
        0 <= i < 3 ==> (#[trigger] p.standards@[i]).source@ == join_spec(
            orch_path(dir, "agent"@, "standards"@),
            standard_names()[i],
        ) && p.standards@[i].target@ == standard_names()[i]
    &&& p.persona.source@ == persona_source(dir, role)
    &&& p.persona.target@ == role + ".agent.md"@
    &&& p.persona_copies@.len() == 2
    &&& p.persona_copies@[0]@ == role + ".agent.md"@
    &&& p.persona_copies@[1]@ == "AGENTS.md"@
}

impl Provisioner {
    pub fn new(orchestrator_dir: &str) -> (p: Self)
        ensures
            p@ == orchestrator_dir@,
    {
        Provisioner { orchestrator_dir: String::from_str(orchestrator_dir) }
    }

    /// The orchestrator source directory.
    pub fn orchestrator_dir(&self) -> (d: &String)
        ensures
            d@ == self@,
    {
        &self.orchestrator_dir
    }

    fn orch(&self, a: &str, b: &str) -> (p: String)
        ensures
            p@ == orch_path(self@, a@, b@),
    {
        let o = join_path(self.orchestrator_dir.as_str(), "orchestration");
        let x = join_path(o.as_str(), a);
        join_path(x.as_str(), b)
    }

    /// What provisioning `role` does, given its registry entry (`None` when
    /// the registry has none): an error for an unknown role, nothing for a
    /// disabled one, else the plan.
    pub fn provision_plan(&self, role: &str, entry: Option<&RoleEntry>) -> (r: Result<
        Option<ProvisionPlan>,
        ProvisionError,
    >)
        ensures
            match entry {
                None => r matches Err(ProvisionError::RoleNotFound { role: x }) && x@ == role@,
                Some(e) => if !e.enabled {
                    r matches Ok(None)
                } else {
                    r matches Ok(Some(p)) && plan_matches(p, self@, role@, *e)
                },
            },
    {
        let e = match entry {
            None => {
                return Err(ProvisionError::RoleNotFound { role: String::from_str(role) });
            },
            Some(e) => e,
        };
        if !e.enabled {
            return Ok(None);
        }
        let skills_root = self.orch("plugin", "skills");
        let mut skills: Vec<FileCopy> = Vec::new();
        let mut i: usize = 0;
        while i < e.skills.len()
            invariant
                i <= e.skills@.len(),
                skills_root@ == orch_path(self@, "plugin"@, "skills"@),
                skills@.len() == i,
                forall|j: int|
                    0 <= j < i ==> (#[trigger] skills@[j]).source@ == skill_source(
                        self@,
                        e.skills@[j]@,
                    ) && skills@[j].target@ == skill_target(e.skills@[j]@),
            decreases e.skills@.len() - i,
        {
            let name = &e.skills[i];
            let dir = join_path(skills_root.as_str(), name.as_str());
            let source = join_path(dir.as_str(), "SKILL.md");
            let mut target = String::from_str(SKILLS_DIR);
            target.append("/");
            target.append(name.as_str());
            target.append("/SKILL.md");
            skills.push(FileCopy { source, target });
            i = i + 1;
        }
        let standards_root = self.orch("agent", "standards");
        let mut standards: Vec<FileCopy> = Vec::new();
        let names = ["CODING.md", "SECURITY.md", "REVIEW.md"];
        let mut k: usize = 0;
        while k < 3
            invariant
                k <= 3,
                names@.len() == 3,
                names@[0]@ == "CODING.md"@,
                names@[1]@ == "SECURITY.md"@,
                names@[2]@ == "REVIEW.md"@,
                standards_root@ == orch_path(self@, "agent"@, "standards"@),
                standards@.len() == k,
                forall|j: int|
                    0 <= j < k ==> (#[trigger] standards@[j]).source@ == join_spec(
                        orch_path(self@, "agent"@, "standards"@),
                        standard_names()[j],
                    ) && standards@[j].target@ == standard_names()[j],
            decreases 3 - k,
        {
            let name = names[k];
            standards.push(
                FileCopy { source: join_path(standards_root.as_str(), name), target: String::from_str(name) },
            );
            k = k + 1;
        }
        let agents_root = self.orch("agent", "agents");
        let mut file = String::from_str(role);
        file.append(".agent.md");
        let persona = FileCopy {
            source: join_path(agents_root.as_str(), file.as_str()),
            target: file.clone(),
        };
        let mut persona_copies: Vec<String> = Vec::new();
        persona_copies.push(file);
        persona_copies.push(String::from_str("AGENTS.md"));
        Ok(
            Some(
                ProvisionPlan {
                    skills_dir: String::from_str(SKILLS_DIR),
                    skills,
                    write_mcp: has_mcp(&e.mcp),
                    standards,
                    persona,
                    persona_copies,
                },
            ),
        )
    }
}

} // verus!

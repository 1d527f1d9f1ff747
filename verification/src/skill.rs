//! `cbc install-skill`: what to do with one bundled skill given what is
//! already at `<skills_dir>/<name>`, and the one-line report of what was done.
//! The write never goes through a symlink (a devkit-managed link would be
//! corrupted): a symlink is left alone unless forced, and then the link
//! itself, never its target, is replaced.
use vstd::prelude::*;
use crate::install::{path_join, spec_path_join};

verus! {

/// The skills the tool ships and installs, `cbc` first.
pub open spec fn spec_bundled_skill_names() -> Seq<Seq<char>> {
    seq![
        "cbc"@,
        "cbc-orchestrator"@,
        "cbc-report"@,
        "cbc-peer"@,
        "cbc-recap"@,
        "cbc-reconcile"@,
        "cbc-refresh"@,
    ]
}

/// The names of the bundled skills (see `spec_bundled_skill_names`). Each
/// names its own directory under the skills dir, so no two are alike.
pub fn bundled_skill_names() -> (r: Vec<&'static str>)
    ensures
        r@.len() == spec_bundled_skill_names().len(),
        forall|i: int| 0 <= i < r@.len() ==> #[trigger] r@[i]@ == spec_bundled_skill_names()[i],
        forall|i: int, j: int| 0 <= i < j < r@.len() ==> r@[i]@ != r@[j]@,
{
    proof {
        reveal_strlit("cbc");
        reveal_strlit("cbc-orchestrator");
        reveal_strlit("cbc-report");
        reveal_strlit("cbc-peer");
        reveal_strlit("cbc-recap");
        reveal_strlit("cbc-reconcile");
        reveal_strlit("cbc-refresh");
    }
    let r = vec![
        "cbc",
        "cbc-orchestrator",
        "cbc-report",
        "cbc-peer",
        "cbc-recap",
        "cbc-reconcile",
        "cbc-refresh",
    ];
    proof {
        assert forall|i: int, j: int| 0 <= i < j < r@.len() implies r@[i]@ != r@[j]@ by {
            assert(r@[i]@.len() != r@[j]@.len());
        }
    }
    r
}

/// What is currently at a skill's directory, classified without following a
/// symlink.
#[derive(Debug, Clone, PartialEq, Eq)]
pub enum TargetState {
    /// Nothing there.
    Absent,
    /// A symlink at the skill dir itself or at its inner `SKILL.md`: `link`
    /// is the symlink's own path, `target` what it points at.
    Symlink { link: String, target: String },
    /// A real directory; `matches` when its `SKILL.md` already equals the
    /// bundled text, `file_exists` when it has a `SKILL.md` at all.
    RealDir { matches: bool, file_exists: bool },
}

/// What installing one skill did.
#[derive(Debug, Clone, PartialEq, Eq)]
pub enum Outcome {
    /// No skill dir existed; it was created with the bundled file.
    Created,
    /// An out-of-date file was refreshed (the prior one backed up).
    Updated,
    /// The file already matched the bundled copy; nothing written.
    AlreadyPresent,
    /// A symlink was found and left untouched; carries its target.
    SkippedSymlink(String),
    /// A symlink was found and replaced by a real bundled copy.
    ReplacedSymlink,
}

/// The steps for one skill: remove this symlink first, back up the existing
/// file first, write the bundled file, and the outcome to report.
#[derive(Debug, Clone, PartialEq, Eq)]
pub struct SkillPlan {
    pub remove_link: Option<String>,
    pub backup_existing: bool,
    pub write: bool,
    pub outcome: Outcome,
}

/// The plan for a target state: create an absent skill; leave a matching one;
/// back up and refresh a stale real file; leave a symlink unless `force`, in
/// which case remove the link itself and write a real copy.
pub open spec fn spec_plan_install(state: TargetState, force: bool) -> SkillPlan {
    match state {
        TargetState::Absent => SkillPlan {
            remove_link: None,
            backup_existing: false,
            write: true,
            outcome: Outcome::Created,
        },
        TargetState::RealDir { matches, file_exists } => if matches {
            SkillPlan {
                remove_link: None,
                backup_existing: false,
                write: false,
                outcome: Outcome::AlreadyPresent,
            }
        } else {
            SkillPlan {
                remove_link: None,
                backup_existing: file_exists,
                write: true,
                outcome: Outcome::Updated,
            }
        },
        TargetState::Symlink { link, target } => if force {
            SkillPlan {
                remove_link: Some(link),
                backup_existing: false,
                write: true,
                outcome: Outcome::ReplacedSymlink,
            }
        } else {
            SkillPlan {
                remove_link: None,
                backup_existing: false,
                write: false,
                outcome: Outcome::SkippedSymlink(target),
            }
        },
    }
}

/// A plan that reports the skill installed (created, refreshed, or a symlink
/// replaced by a real copy) writes the bundled file, and a plan that writes
/// nothing reports that nothing was installed (already present, or a symlink
/// left alone); in particular a skill that is absent is always written and
/// reported created.
pub proof fn law_installed_outcomes_write_the_skill(state: TargetState, force: bool)
    ensures
        ({
            let p = spec_plan_install(state, force);
            &&& (p.outcome is Created || p.outcome is Updated || p.outcome is ReplacedSymlink)
                ==> p.write
            &&& !p.write ==> (p.outcome is AlreadyPresent || p.outcome is SkippedSymlink)
            &&& state is Absent ==> p.write && p.outcome is Created && p.remove_link is None
        }),
{
}

/// Plan the install of one skill (see `spec_plan_install`).
pub fn plan_install(state: TargetState, force: bool) -> (r: SkillPlan)
    ensures
        r == spec_plan_install(state, force),
{
    match state {
        TargetState::Absent => SkillPlan {
            remove_link: None,
            backup_existing: false,
            write: true,
            outcome: Outcome::Created,
        },
        TargetState::RealDir { matches, file_exists } => if matches {
            SkillPlan {
                remove_link: None,
                backup_existing: false,
                write: false,
                outcome: Outcome::AlreadyPresent,
            }
        } else {
            SkillPlan {
                remove_link: None,
                backup_existing: file_exists,
                write: true,
                outcome: Outcome::Updated,
            }
        },
        TargetState::Symlink { link, target } => if force {
            SkillPlan {
                remove_link: Some(link),
                backup_existing: false,
                write: true,
                outcome: Outcome::ReplacedSymlink,
            }
        } else {
            SkillPlan {
                remove_link: None,
                backup_existing: false,
                write: false,
                outcome: Outcome::SkippedSymlink(target),
            }
        },
    }
}

/// A plan never writes through a symlink it keeps, and never leaves a
/// symlink in the way of a write: a kept symlink means no write, and a write
/// over a symlink removes that link first.
pub proof fn law_never_write_through_a_symlink(state: TargetState, force: bool)
    ensures
        state is Symlink ==> {
            let p = spec_plan_install(state, force);
            &&& p.write <==> force
            &&& p.write ==> p.remove_link == Some(state->link)
            &&& !p.backup_existing
        },
        !(state is Symlink) ==> spec_plan_install(state, force).remove_link is None,
{
}

/// A skill's directory under the skills dir.
pub fn skill_dir(skills_dir: &str, name: &str) -> (r: String)
    ensures
        r@ == spec_path_join(skills_dir@, name@),
{
    path_join(skills_dir, name)
}

/// A skill's file: `<skills_dir>/<name>/SKILL.md`.
pub fn skill_file(skills_dir: &str, name: &str) -> (r: String)
    ensures
        r@ == spec_path_join(spec_path_join(skills_dir@, name@), "SKILL.md"@),
{
    let d = skill_dir(skills_dir, name);
    path_join(d.as_str(), "SKILL.md")
}

/// The report line(s) for one skill's outcome.
pub open spec fn spec_outcome_message(skills_dir: Seq<char>, name: Seq<char>, outcome: Outcome) -> Seq<char> {
    let dir = spec_path_join(skills_dir, name);
    let file = spec_path_join(dir, "SKILL.md"@);
    let fresh = "Start a fresh agent session to pick it up.\n"@;
    match outcome {
        Outcome::Created => "Installed the "@ + name + " skill for the agent host:\n  "@ + file + "\n"@
            + fresh,
        Outcome::Updated => "Updated the "@ + name + " skill:\n  "@ + file + "\n"@
            + "(backed up the previous file to "@ + file + ".bak)\n"@ + fresh,
        Outcome::AlreadyPresent => "The "@ + name + " skill at "@ + file
            + " is already up to date; nothing to do.\n"@,
        Outcome::SkippedSymlink(target) => "A devkit-managed "@ + name
            + " skill is already installed (left in place):\n  "@ + dir + " -> "@ + target@ + "\n"@
            + "It is a symlink; pass --force to replace it with cbc's bundled copy.\n"@,
        Outcome::ReplacedSymlink => "Replaced the devkit "@ + name
            + " symlink with cbc's bundled skill copy:\n  "@ + file + "\n"@ + fresh,
    }
}

/// Report what installing one skill did, naming the path explicitly.
pub fn outcome_message(skills_dir: &str, name: &str, outcome: &Outcome) -> (r: String)
    ensures
        r@ == spec_outcome_message(skills_dir@, name@, *outcome),
{
    let dir = skill_dir(skills_dir, name);
    let file = path_join(dir.as_str(), "SKILL.md");
    let fresh = "Start a fresh agent session to pick it up.\n";
    let mut s = String::new();
    match outcome {
        Outcome::Created => {
            s.append("Installed the ");
            s.append(name);
            s.append(" skill for the agent host:\n  ");
            s.append(file.as_str());
            s.append("\n");
            s.append(fresh);
        },
        Outcome::Updated => {
            s.append("Updated the ");
            s.append(name);
            s.append(" skill:\n  ");
            s.append(file.as_str());
            s.append("\n");
            s.append("(backed up the previous file to ");
            s.append(file.as_str());
            s.append(".bak)\n");
            s.append(fresh);
        },
        Outcome::AlreadyPresent => {
            s.append("The ");
            s.append(name);
            s.append(" skill at ");
            s.append(file.as_str());
            s.append(" is already up to date; nothing to do.\n");
        },
        Outcome::SkippedSymlink(target) => {
            s.append("A devkit-managed ");
            s.append(name);
            s.append(" skill is already installed (left in place):\n  ");
            s.append(dir.as_str());
            s.append(" -> ");
            s.append(target.as_str());
            s.append("\n");
            s.append("It is a symlink; pass --force to replace it with cbc's bundled copy.\n");
        },
        Outcome::ReplacedSymlink => {
            s.append("Replaced the devkit ");
            s.append(name);
            s.append(" symlink with cbc's bundled skill copy:\n  ");
            s.append(file.as_str());
            s.append("\n");
            s.append(fresh);
        },
    }
    s
}

} // verus!

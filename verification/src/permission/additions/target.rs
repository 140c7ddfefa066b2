//! Where additions are written, and where earlier ones were.

use vstd::prelude::*;
use crate::paths::{join_path, joined};
use crate::setup::settings_file;

verus! {

/// Where a new pattern is written: always the local settings of a project.
#[derive(Debug, Clone, PartialEq, Eq)]
pub struct WriteTarget {
    pub root: String,
}

/// Where an addition of the log was written.
#[derive(Debug, PartialEq, Eq)]
pub enum AuditTarget {
    /// The local settings of the project at `root`.
    ProjectLocal { root: String },
    /// The user's own settings; only old lines say so.
    UserGlobal,
    /// A place that this version does not know. Nothing is taken back there.
    Unknown,
}

/// What an [`AuditTarget`] stands for.
#[verifier::ext_equal]
pub enum TargetValue {
    ProjectLocal { root: Seq<char> },
    UserGlobal,
    Unknown,
}

impl View for AuditTarget {
    type V = TargetValue;

    open spec fn view(&self) -> TargetValue {
        match self {
            AuditTarget::ProjectLocal { root } => TargetValue::ProjectLocal { root: root@ },
            AuditTarget::UserGlobal => TargetValue::UserGlobal,
            AuditTarget::Unknown => TargetValue::Unknown,
        }
    }
}

impl Clone for AuditTarget {
    fn clone(&self) -> (r: AuditTarget)
        ensures
            r@ == self@,
    {
        match self {
            AuditTarget::ProjectLocal { root } => AuditTarget::ProjectLocal { root: root.clone() },
            AuditTarget::UserGlobal => AuditTarget::UserGlobal,
            AuditTarget::Unknown => AuditTarget::Unknown,
        }
    }
}

impl WriteTarget {
    /// The target as the log holds it.
    pub fn to_audit_target(&self) -> (r: AuditTarget)
        ensures
            r@ == (TargetValue::ProjectLocal { root: self.root@ }),
    {
        AuditTarget::ProjectLocal { root: self.root.clone() }
    }
}

/// The local settings file of the project at `root`.
pub open spec fn local_settings(root: Seq<char>, agent_dir: Seq<char>) -> Seq<char> {
    joined(joined(root, agent_dir), "settings.local.json"@)
}

/// The local settings file of the project at `root`.
pub fn local_settings_path(root: &str, agent_dir: &str) -> (r: String)
    ensures
        r@ == local_settings(root@, agent_dir@),
{
    let dir = join_path(root, agent_dir);
    join_path(dir.as_str(), "settings.local.json")
}

/// The project of a directory, or the directory itself where it has none.
pub fn resolve_write_target(cwd: &str, project_root: Option<String>) -> (r: WriteTarget)
    ensures
        match project_root {
            Some(root) => r.root@ == root@,
            None => r.root@ == cwd@,
        },
{
    match project_root {
        Some(root) => WriteTarget { root },
        None => WriteTarget { root: cwd.to_owned() },
    }
}

/// An addition is never written to the user's own settings.
pub proof fn law_user_settings_are_left_alone(
    root: Seq<char>,
    config_dir: Option<Seq<char>>,
    home: Option<Seq<char>>,
    agent_dir: Seq<char>,
)
    ensures
        settings_file(config_dir, home, agent_dir) != Some(local_settings(root, agent_dir)),
{
    reveal_strlit("settings.json");
    reveal_strlit("settings.local.json");
    let local = local_settings(root, agent_dir);
    assert(local[local.len() - 6] == 'l');
    if let Some(own) = settings_file(config_dir, home, agent_dir) {
        assert(own[own.len() - 6] == 's');
    }
}

} // verus!

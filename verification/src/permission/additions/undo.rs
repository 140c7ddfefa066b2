//! Taking back the last addition, and the checks before a settings file is
//! touched for it: a line of the log must not lead to the user's own settings.

use vstd::prelude::*;
use crate::json::Json;
use crate::outside::{quote, quoted};
use crate::paths::{
    components, is_absolute, is_absolute_path, lexically_normalize, normalized, path_components,
    paths_equal, same_path,
};
use crate::permission::additions::audit_log::{
    find_last_undone_addition, last_standing, log_entries, stands, AuditEntry,
};
use crate::permission::additions::target::{
    local_settings, local_settings_path, AuditTarget, TargetValue,
};
use crate::permission::additions::write::{remove_allow_pattern, removed_from};
use crate::setup::opt_text;
use crate::text::{join3, texts_of};

verus! {

/// How an undo ended.
#[derive(Debug, PartialEq, Eq)]
pub enum UndoOutcome {
    /// The pattern was taken out of the file.
    Removed { pattern: String, file: String },
    /// The pattern was not in the file.
    AlreadyGone { pattern: String, file: String },
    /// The file does not exist.
    FileMissing { pattern: String, file: String },
}

/// Why an undo is refused.
#[derive(Debug, Clone, PartialEq, Eq)]
pub enum UndoError {
    /// The log has no addition that stands.
    NothingToUndo,
    /// The log names a project by a relative path.
    RelativeRoot { root: String },
    /// The log names the root of the file system as a project.
    FilesystemRoot,
    /// The log names the directory of the user's own settings as a project.
    Collides { root: String, user_global_dir: String },
    /// The log names a place that this version does not know.
    UnknownTarget,
}

impl UndoError {
    pub open spec fn text(self) -> Seq<char> {
        match self {
            UndoError::NothingToUndo => "no allowlist additions in audit log to undo"@,
            UndoError::RelativeRoot { root } => "audit log contains a relative project root "@ + quoted(
                root@,
            ) + " — refusing undo (log may be tampered)"@,
            UndoError::FilesystemRoot =>
                "audit log contains filesystem root '/' as project root — refusing undo"@,
            UndoError::Collides { root, user_global_dir } => "audit log project root "@ + quoted(root@)
                + " collides with user-global config dir "@ + quoted(user_global_dir@)
                + " — refusing undo to prevent unintended modification of user-global settings"@,
            UndoError::UnknownTarget =>
                "audit log entry has an unknown target type — likely written by a newer ccbridged version after downgrade. Refusing to undo."@,
        }
    }

    /// The error as it is reported.
    pub fn message(&self) -> (r: String)
        ensures
            r@ == self.text(),
    {
        match self {
            UndoError::NothingToUndo => "no allowlist additions in audit log to undo".to_owned(),
            UndoError::RelativeRoot { root } => {
                let name = quote(root.as_str());
                join3(
                    "audit log contains a relative project root ",
                    name.as_str(),
                    " — refusing undo (log may be tampered)",
                )
            },
            UndoError::FilesystemRoot =>
                "audit log contains filesystem root '/' as project root — refusing undo".to_owned(),
            UndoError::Collides { root, user_global_dir } => {
                let name = quote(root.as_str());
                let dir = quote(user_global_dir.as_str());
                let mut r = join3(
                    "audit log project root ",
                    name.as_str(),
                    " collides with user-global config dir ",
                );
                r.append(dir.as_str());
                r.append(
                    " — refusing undo to prevent unintended modification of user-global settings",
                );
                r
            },
            UndoError::UnknownTarget =>
                "audit log entry has an unknown target type — likely written by a newer ccbridged version after downgrade. Refusing to undo.".to_owned(),
        }
    }
}

/// A path as the file system resolves it, or worked out from its text where it
/// does not exist.
pub open spec fn resolved(path: Seq<char>, on_disk: Option<Seq<char>>) -> Seq<char> {
    match on_disk {
        Some(found) => found,
        None => normalized(path),
    }
}

/// Whether a path is the root of the file system.
pub open spec fn is_filesystem_root(path: Seq<char>) -> bool {
    is_absolute_path(path) && components(path).len() == 0
}

/// Whether a project's directory is the one of the user's own settings.
pub open spec fn collides(
    root: Seq<char>,
    root_on_disk: Option<Seq<char>>,
    user_global_dir: Seq<char>,
    dir_on_disk: Option<Seq<char>>,
) -> bool {
    same_path(resolved(root, root_on_disk), resolved(user_global_dir, dir_on_disk))
}

/// Checks a project's directory from the log. The resolved paths are those of
/// the file system, for directories that exist.
pub fn validate_audit_root(
    root: &str,
    root_on_disk: Option<&str>,
    user_global_dir: &str,
    dir_on_disk: Option<&str>,
) -> (r: Result<(), UndoError>)
    ensures
        if !is_absolute_path(root@) {
            r matches Err(UndoError::RelativeRoot { root: named }) && named@ == root@
        } else if is_filesystem_root(root@) {
            r == Err::<(), UndoError>(UndoError::FilesystemRoot)
        } else if collides(root@, opt_text(root_on_disk), user_global_dir@, opt_text(dir_on_disk)) {
            r matches Err(UndoError::Collides { root: named, user_global_dir: dir }) && named@ == root@
                && dir@ == user_global_dir@
        } else {
            r is Ok
        },
{
    if !is_absolute(root) {
        return Err(UndoError::RelativeRoot { root: root.to_owned() });
    }
    let names = path_components(root);
    assert(texts_of(names@).len() == names@.len());
    if names.len() == 0 {
        return Err(UndoError::FilesystemRoot);
    }
    let canonical_root = match root_on_disk {
        Some(found) => found.to_owned(),
        None => lexically_normalize(root),
    };
    let canonical_dir = match dir_on_disk {
        Some(found) => found.to_owned(),
        None => lexically_normalize(user_global_dir),
    };
    if paths_equal(canonical_root.as_str(), canonical_dir.as_str()) {
        return Err(
            UndoError::Collides {
                root: root.to_owned(),
                user_global_dir: user_global_dir.to_owned(),
            },
        );
    }
    Ok(())
}

/// The addition of the log that is to be taken back.
pub fn find_addition(log: Option<&str>) -> (r: Result<AuditEntry, UndoError>)
    ensures
        match r {
            Ok(e) => log is Some && exists|i: int| #[trigger]
                last_standing(log_entries(log->0@), i) && log_entries(log->0@)[i] == e@,
            Err(e) => e == UndoError::NothingToUndo && (log is Some ==> forall|i: int|
                !#[trigger] stands(log_entries(log->0@), i)),
        },
{
    match find_last_undone_addition(log) {
        Some(e) => Ok(e),
        None => Err(UndoError::NothingToUndo),
    }
}

/// The settings file that an addition was written to. Where it is a project's,
/// the project's directory is checked first.
pub fn undo_file(
    target: &AuditTarget,
    root_on_disk: Option<&str>,
    user_settings: &str,
    user_global_dir: &str,
    dir_on_disk: Option<&str>,
    agent_dir: &str,
) -> (r: Result<String, UndoError>)
    ensures
        match target@ {
            TargetValue::UserGlobal => r matches Ok(file) && file@ == user_settings@,
            TargetValue::Unknown => r == Err::<String, UndoError>(UndoError::UnknownTarget),
            TargetValue::ProjectLocal { root } => if !is_absolute_path(root) {
                r matches Err(UndoError::RelativeRoot { root: named }) && named@ == root
            } else if is_filesystem_root(root) {
                r == Err::<String, UndoError>(UndoError::FilesystemRoot)
            } else if collides(root, opt_text(root_on_disk), user_global_dir@, opt_text(dir_on_disk)) {
                r matches Err(UndoError::Collides { root: named, user_global_dir: dir }) && named@
                    == root && dir@ == user_global_dir@
            } else {
                r matches Ok(file) && file@ == local_settings(root, agent_dir@)
            },
        },
{
    match target {
        AuditTarget::UserGlobal => Ok(user_settings.to_owned()),
        AuditTarget::Unknown => Err(UndoError::UnknownTarget),
        AuditTarget::ProjectLocal { root } => match validate_audit_root(
            root.as_str(),
            root_on_disk,
            user_global_dir,
            dir_on_disk,
        ) {
            Ok(()) => Ok(local_settings_path(root.as_str(), agent_dir)),
            Err(e) => Err(e),
        },
    }
}

/// Takes an addition back in the settings of `file`; `None` stands for a file
/// that does not exist. The second part of the result is what to save. The undo
/// is to be logged whatever the outcome.
pub fn undo_last_allow(entry: &AuditEntry, file: &str, settings: Option<Json>) -> (r: (
    UndoOutcome,
    Option<Json>,
))
    ensures
        match settings {
            None => r.1 is None && (r.0 matches UndoOutcome::FileMissing { pattern, file: f } && pattern@
                == entry.pattern@ && f@ == file@),
            Some(s) => match removed_from(s@, entry.pattern@) {
                Some(changed) => r.1 is Some && r.1->0@ == changed && (
                r.0 matches UndoOutcome::Removed { pattern, file: f } && pattern@ == entry.pattern@ && f@
                    == file@),
                None => r.1 is None && (r.0 matches UndoOutcome::AlreadyGone { pattern, file: f }
                    && pattern@ == entry.pattern@ && f@ == file@),
            },
        },
{
    let pattern = entry.pattern.clone();
    let name = file.to_owned();
    match settings {
        None => (UndoOutcome::FileMissing { pattern, file: name }, None),
        Some(s) => match remove_allow_pattern(s, entry.pattern.as_str()) {
            Some(changed) => (UndoOutcome::Removed { pattern, file: name }, Some(changed)),
            None => (UndoOutcome::AlreadyGone { pattern, file: name }, None),
        },
    }
}

// ---------------------------------------------------------------------------
// Laws of the check.

/// A directory that does not exist cannot be told apart from the user's own by
/// dots in its text: a path that collapses to the same names is refused too.
pub proof fn law_dots_do_not_hide_collision(root: Seq<char>, user_global_dir: Seq<char>)
    requires
        normalized(root) == normalized(user_global_dir),
    ensures
        collides(root, None, user_global_dir, None),
{
}

} // verus!

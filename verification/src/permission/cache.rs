//! The allowlists of the projects in use, over the user's own.

use vstd::prelude::*;
use crate::assoc::{has_key, lemma_index_of, lookup, put, Table};
use crate::permission::allowlist::{cascaded, no_patterns, Allowlist, AllowlistValue};
use crate::setup::opt_text;

verus! {

/// The lists of one project.
#[derive(Debug)]
pub struct ProjectEntry {
    /// Of the project's `settings.json`.
    pub project: Allowlist,
    /// Of the project's `settings.local.json`.
    pub local: Allowlist,
}

/// What a [`ProjectEntry`] stands for.
#[verifier::ext_equal]
pub struct ProjectLists {
    pub project: AllowlistValue,
    pub local: AllowlistValue,
}

impl View for ProjectEntry {
    type V = ProjectLists;

    open spec fn view(&self) -> ProjectLists {
        ProjectLists { project: self.project@, local: self.local@ }
    }
}

/// The user's lists and those of the projects seen so far, by project root.
#[derive(Debug)]
pub struct ProjectAllowlistCache {
    pub user: Allowlist,
    pub projects: Table<ProjectEntry>,
}

/// What a [`ProjectAllowlistCache`] stands for.
#[verifier::ext_equal]
pub struct CacheValue {
    pub user: AllowlistValue,
    pub projects: Seq<(Seq<char>, ProjectLists)>,
}

impl View for ProjectAllowlistCache {
    type V = CacheValue;

    open spec fn view(&self) -> CacheValue {
        CacheValue { user: self.user@, projects: self.projects@ }
    }
}

/// The lists that hold in a project: local before project before user. Without
/// a project, or with one that was not loaded, only the user's hold.
pub open spec fn lists_for(cache: CacheValue, root: Option<Seq<char>>) -> AllowlistValue {
    match root {
        None => cache.user,
        Some(r) => match lookup(cache.projects, r) {
            None => cache.user,
            Some(p) => cascaded(p.local, p.project, cache.user),
        },
    }
}

/// The cache with the lists of a project, unless it has them.
pub open spec fn with_project(cache: CacheValue, root: Seq<char>, lists: ProjectLists) -> CacheValue {
    if has_key(cache.projects, root) {
        cache
    } else {
        CacheValue { projects: put(cache.projects, root, lists), ..cache }
    }
}

impl ProjectAllowlistCache {
    pub fn new(user: Allowlist) -> (r: ProjectAllowlistCache)
        ensures
            r@.user == user@,
            r@.projects.len() == 0,
    {
        ProjectAllowlistCache { user, projects: Table::new() }
    }

    /// Whether the lists of a project have to be loaded.
    pub fn needs_project(&self, root: &str) -> (r: bool)
        ensures
            r == !has_key(self@.projects, root@),
    {
        !self.projects.contains_key(root)
    }

    /// Keeps the lists of a project that is seen for the first time.
    pub fn add_project(&mut self, root: String, project: Allowlist, local: Allowlist)
        ensures
            final(self)@ == with_project(
                old(self)@,
                root@,
                ProjectLists { project: project@, local: local@ },
            ),
    {
        if !self.projects.contains_key(root.as_str()) {
            self.projects.insert(root, ProjectEntry { project, local });
        }
    }

    /// The user's file was read again.
    pub fn reload_user(&mut self, user: Allowlist)
        ensures
            final(self)@ == (CacheValue { user: user@, ..old(self)@ }),
    {
        self.user = user;
    }

    /// The settings of a project were read again. A project that is not in use
    /// stays out.
    pub fn reload_project(&mut self, root: &str, project: Allowlist)
        ensures
            final(self)@ == (match lookup(old(self)@.projects, root@) {
                Some(p) => CacheValue {
                    projects: put(
                        old(self)@.projects,
                        root@,
                        ProjectLists { project: project@, ..p },
                    ),
                    ..old(self)@
                },
                None => old(self)@,
            }),
    {
        proof {
            lemma_index_of(self@.projects, root@);
        }
        let i = self.projects.position(root);
        if i < self.projects.len() {
            let p = self.projects.value_mut(i);
            p.project = project;
        }
    }

    /// The local settings of a project were read again. A project that is not in
    /// use stays out.
    pub fn reload_local(&mut self, root: &str, local: Allowlist)
        ensures
            final(self)@ == (match lookup(old(self)@.projects, root@) {
                Some(p) => CacheValue {
                    projects: put(old(self)@.projects, root@, ProjectLists { local: local@, ..p }),
                    ..old(self)@
                },
                None => old(self)@,
            }),
    {
        proof {
            lemma_index_of(self@.projects, root@);
        }
        let i = self.projects.position(root);
        if i < self.projects.len() {
            let p = self.projects.value_mut(i);
            p.local = local;
        }
    }

    /// The lists that hold in a project.
    pub fn cascade_for(&self, root: Option<&str>) -> (r: Allowlist)
        ensures
            r@ == lists_for(self@, opt_text(root)),
    {
        match root {
            None => {
                let r = Allowlist::cascade(
                    Allowlist::empty(),
                    Allowlist::empty(),
                    self.user.clone(),
                );
                assert(r@ =~= self.user@);
                r
            },
            Some(key) => match self.projects.get(key) {
                None => self.user.clone(),
                Some(p) => Allowlist::cascade(p.local.clone(), p.project.clone(), self.user.clone()),
            },
        }
    }

    /// How many projects are kept.
    pub fn cached_project_count(&self) -> (n: usize)
        ensures
            n == self@.projects.len(),
    {
        self.projects.len()
    }
}

/// A project is kept once, however often it is added.
pub proof fn law_project_kept_once(cache: CacheValue, root: Seq<char>, a: ProjectLists, b: ProjectLists)
    ensures
        with_project(with_project(cache, root, a), root, b) == with_project(cache, root, a),
{
    crate::assoc::lemma_put(cache.projects, root, a, root);
}

/// A project without any patterns adds nothing to the user's lists.
pub proof fn law_empty_project_adds_nothing(cache: CacheValue, root: Seq<char>)
    requires
        lookup(cache.projects, root) == Some(
            ProjectLists { project: no_patterns(), local: no_patterns() },
        ),
    ensures
        lists_for(cache, Some(root)) == cache.user,
{
    assert(cascaded(no_patterns(), no_patterns(), cache.user) =~= cache.user);
}

} // verus!

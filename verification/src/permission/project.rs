//! The project of a directory: the nearest directory, itself or above it, that
//! holds the agent's settings directory or `.git`. The home directory is never a
//! project, for the settings directory there holds the user's own settings.

use vstd::prelude::*;
use crate::paths::{parent_of, parent_path, paths_equal, same_path};
use crate::setup::opt_text;
use crate::text::texts_of;

verus! {

/// Whether a path is the home directory.
pub open spec fn is_home(path: Seq<char>, home: Option<Seq<char>>) -> bool {
    match home {
        Some(h) => same_path(h, path),
        None => false,
    }
}

/// The directories that may be the project of `cwd`: it and those above it, the
/// nearest first, up to the home directory, which is left out with all above it.
pub open spec fn project_candidates(cwd: Seq<char>, home: Option<Seq<char>>) -> Seq<Seq<char>>
    decreases cwd.len(),
{
    if is_home(cwd, home) {
        Seq::empty()
    } else {
        match parent_of(cwd) {
            Some(parent) if parent.len() < cwd.len() => seq![cwd] + project_candidates(parent, home),
            _ => seq![cwd],
        }
    }
}

/// The directories that may be the project of `cwd`, the nearest first.
pub fn project_root_candidates(cwd: &str, home: Option<&str>) -> (r: Vec<String>)
    ensures
        texts_of(r@) == project_candidates(cwd@, opt_text(home)),
{
    let ghost h = opt_text(home);
    let mut r: Vec<String> = Vec::new();
    let mut path: String = cwd.to_owned();
    assert(texts_of(r@) + project_candidates(path@, h) =~= project_candidates(cwd@, h));
    loop
        invariant_except_break
            h == opt_text(home),
            texts_of(r@) + project_candidates(path@, h) == project_candidates(cwd@, h),
        ensures
            texts_of(r@) == project_candidates(cwd@, h),
        decreases path@.len(),
    {
        let at_home = match home {
            Some(p) => paths_equal(p, path.as_str()),
            None => false,
        };
        if at_home {
            assert(texts_of(r@) + Seq::empty() =~= texts_of(r@));
            break;
        }
        let ghost before = r@;
        let ghost here = path@;
        let parent = parent_path(path.as_str());
        r.push(path);
        assert(texts_of(r@) =~= texts_of(before) + seq![here]);
        match parent {
            Some(next) => {
                assert(texts_of(before) + (seq![here] + project_candidates(next@, h)) =~= texts_of(
                    r@,
                ) + project_candidates(next@, h));
                path = next;
            },
            None => {
                break;
            },
        }
    }
    r
}

/// The first candidate that is marked.
pub open spec fn first_marked(candidates: Seq<Seq<char>>, marked: Seq<bool>) -> Option<Seq<char>>
    decreases candidates.len(),
{
    if candidates.len() == 0 || marked.len() == 0 {
        None
    } else if marked[0] {
        Some(candidates[0])
    } else {
        first_marked(
            candidates.subrange(1, candidates.len() as int),
            marked.subrange(1, marked.len() as int),
        )
    }
}

/// The project among the candidates: `marked` tells of each whether it holds the
/// agent's settings directory or `.git`.
pub fn find_project_root_with_home(cwd: &str, home: Option<&str>, marked: &Vec<bool>) -> (r: Option<
    String,
>)
    ensures
        crate::proto::hook::text_of(r) == first_marked(
            project_candidates(cwd@, opt_text(home)),
            marked@,
        ),
{
    let list = project_root_candidates(cwd, home);
    let ghost all = texts_of(list@);
    let mut i: usize = 0;
    assert(all.subrange(0, all.len() as int) =~= all);
    assert(marked@.subrange(0, marked@.len() as int) =~= marked@);
    while i < list.len() && i < marked.len()
        invariant
            i <= list@.len(),
            i <= marked@.len(),
            all == texts_of(list@),
            all == project_candidates(cwd@, opt_text(home)),
            first_marked(all, marked@) == first_marked(
                all.subrange(i as int, all.len() as int),
                marked@.subrange(i as int, marked@.len() as int),
            ),
        decreases list@.len() - i,
    {
        let ghost rest = all.subrange(i as int, all.len() as int);
        let ghost marks = marked@.subrange(i as int, marked@.len() as int);
        assert(rest[0] == list@[i as int]@);
        assert(marks[0] == marked@[i as int]);
        if marked[i] {
            return Some(list[i].clone());
        }
        assert(rest.subrange(1, rest.len() as int) =~= all.subrange(i + 1, all.len() as int));
        assert(marks.subrange(1, marks.len() as int) =~= marked@.subrange(
            i + 1,
            marked@.len() as int,
        ));
        i = i + 1;
    }
    None
}

/// The home directory is never a candidate.
pub proof fn law_home_is_no_project(cwd: Seq<char>, home: Seq<char>, i: int)
    requires
        0 <= i < project_candidates(cwd, Some(home)).len(),
    ensures
        !same_path(home, project_candidates(cwd, Some(home))[i]),
    decreases cwd.len(),
{
    if i > 0 {
        let parent = parent_of(cwd)->0;
        law_home_is_no_project(parent, home, i - 1);
    }
}

/// The nearest candidate is the directory itself, as it is spelled, unless it is
/// the home; and behind each candidate stands the directory that it is in.
pub proof fn law_nearest_first(cwd: Seq<char>, home: Option<Seq<char>>, i: int)
    requires
        !is_home(cwd, home),
    ensures
        project_candidates(cwd, home).len() > 0,
        project_candidates(cwd, home)[0] == cwd,
        0 < i < project_candidates(cwd, home).len() ==> parent_of(
            project_candidates(cwd, home)[i - 1],
        ) == Some(project_candidates(cwd, home)[i]),
    decreases cwd.len(),
{
    if 0 < i < project_candidates(cwd, home).len() {
        let parent = parent_of(cwd)->0;
        if !is_home(parent, home) {
            law_nearest_first(parent, home, i - 1);
        }
    }
}

} // verus!

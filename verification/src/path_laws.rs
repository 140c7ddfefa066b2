//! Laws of paths: what their text means, name by name.

use vstd::prelude::*;
use crate::ingest::jsonl::offsets::is_transcript;
use crate::paths::{
    collapsed, components, is_absolute_path, joined, lemma_pieces_closed, lemma_whole_piece, names,
    names_in, normalized, parent_of, path_text, same_path, slashed, tidy_end,
};
use crate::permission::project::{first_marked, project_candidates};
use crate::text::{has_suffix, lemma_last_end_unique, lemma_pieces_append, pieces};
use crate::text_laws::law_suffix_letter_by_letter;

verus! {

/// Whether a text is one name in a path.
pub open spec fn is_name(name: Seq<char>) -> bool {
    name.len() > 0 && name != seq!['.'] && !name.contains('/')
}

proof fn lemma_pieces_below(dir: Seq<char>, name: Seq<char>)
    requires
        !name.contains('/'),
    ensures
        pieces(dir + seq!['/'] + name, '/') == pieces(dir, '/').push(name),
{
    let a = dir.push('/');
    lemma_pieces_closed(dir, '/');
    lemma_pieces_append(a, name, '/');
    lemma_whole_piece(name, '/');
    assert(dir + seq!['/'] + name =~= a + name);
    assert(pieces(a, '/').drop_last() =~= pieces(dir, '/'));
    assert(pieces(dir, '/') + seq![name] =~= pieces(dir, '/').push(name));
}

/// A name below a directory comes last; a slash at the end and a `.` there mean
/// nothing.
pub proof fn law_names_one_by_one(dir: Seq<char>, name: Seq<char>)
    requires
        is_name(name),
    ensures
        names(dir + seq!['/'] + name) == names(dir).push(name),
        names(dir + seq!['/']) == names(dir),
        names(dir + seq!['/', '.']) == names(dir),
        names(name) == seq![name],
        names(Seq::empty()) == Seq::<Seq<char>>::empty(),
{
    reveal_strlit(".");
    assert("."@ =~= seq!['.']);
    let p = pieces(dir, '/');
    lemma_pieces_below(dir, name);
    assert(p.push(name).drop_last() =~= p);
    lemma_pieces_below(dir, Seq::empty());
    assert(dir + seq!['/'] + Seq::empty() =~= dir + seq!['/']);
    assert(p.push(Seq::<char>::empty()).drop_last() =~= p);
    lemma_pieces_below(dir, seq!['.']);
    assert(dir + seq!['/'] + seq!['.'] =~= dir + seq!['/', '.']);
    assert(p.push(seq!['.']).drop_last() =~= p);
    lemma_whole_piece(name, '/');
    assert(seq![name].drop_last() =~= Seq::<Seq<char>>::empty());
    assert(names_in(Seq::<Seq<char>>::empty()) =~= Seq::<Seq<char>>::empty());
    assert(names(name) =~= seq![name]);
    lemma_whole_piece(Seq::empty(), '/');
    assert(seq![Seq::<char>::empty()].drop_last() =~= Seq::<Seq<char>>::empty());
}

/// Two spellings of a path are the same path: a slash or a `.` at the end, and a
/// slash twice, make no difference. A path from the root and one from here differ.
pub proof fn law_spelling_makes_no_difference(dir: Seq<char>, name: Seq<char>)
    requires
        is_name(name),
        dir.len() > 0,
    ensures
        same_path(dir, dir),
        same_path(dir + seq!['/'] + name, dir + seq!['/', '/'] + name),
        same_path(dir + seq!['/'] + name, dir + seq!['/'] + name + seq!['/']),
        same_path(dir + seq!['/'] + name, dir + seq!['/'] + name + seq!['/', '.']),
        dir[0] != '/' ==> !same_path(dir, seq!['/'] + dir),
{
    let a = dir + seq!['/'] + name;
    law_names_one_by_one(dir, name);
    law_names_one_by_one(a, name);
    let d = dir + seq!['/'];
    law_names_one_by_one(d, name);
    assert(d + seq!['/'] + name =~= dir + seq!['/', '/'] + name);
    lemma_pieces_below(dir, name);
    lemma_pieces_below(d, name);
    lemma_pieces_below(dir, Seq::empty());
    assert(dir + seq!['/'] + Seq::empty() =~= d);
    lemma_pieces_below(a, Seq::empty());
    assert(a + seq!['/'] + Seq::empty() =~= a + seq!['/']);
    lemma_pieces_below(a, seq!['.']);
    assert(a + seq!['/'] + seq!['.'] =~= a + seq!['/', '.']);
    crate::text_laws::law_pieces_join(dir, '/');
    assert(pieces(a, '/')[0] == pieces(dir, '/')[0]);
    assert((seq!['/'] + dir)[0] == '/');
}

/// A path from here by name keeps its `.` in front of its other names.
pub proof fn law_leading_dot_counts(name: Seq<char>)
    requires
        is_name(name),
    ensures
        components(seq!['.', '/'] + name) == seq![seq!['.'], name],
        components(name) == seq![name],
        components(seq!['/'] + name) == seq![name],
        is_absolute_path(seq!['/'] + name),
{
    reveal_strlit(".");
    assert("."@ =~= seq!['.']);
    lemma_pieces_below(seq!['.'], name);
    lemma_whole_piece(seq!['.'], '/');
    assert(seq!['.'] + seq!['/'] + name =~= seq!['.', '/'] + name);
    law_names_one_by_one(seq!['.'], name);
    assert(pieces(seq!['.', '/'] + name, '/')[0] == seq!['.']);
    let dot = seq![seq!['.']];
    assert(pieces(seq!['.'], '/') == dot);
    assert(dot.drop_last() =~= Seq::<Seq<char>>::empty());
    assert(dot.last() == seq!['.']);
    assert(names_in(Seq::<Seq<char>>::empty()) =~= Seq::<Seq<char>>::empty());
    assert(names_in(dot) =~= Seq::<Seq<char>>::empty());
    assert(components(seq!['.', '/'] + name) =~= seq![seq!['.'], name]);
    lemma_whole_piece(name, '/');
    assert(pieces(name, '/')[0] == name);
    law_names_one_by_one(Seq::empty(), name);
    assert(Seq::empty() + seq!['/'] + name =~= seq!['/'] + name);
    lemma_pieces_below(Seq::empty(), name);
    lemma_whole_piece(Seq::empty(), '/');
    assert(pieces(seq!['/'] + name, '/')[0] == Seq::<char>::empty());
    assert(names(seq!['/'] + name) =~= seq![name]);
}

/// `..` takes back the name before it, and nothing else.
pub proof fn law_parent_takes_one_name_back(before: Seq<Seq<char>>, name: Seq<char>)
    requires
        name != seq!['.', '.'],
    ensures
        collapsed(before.push(name)) == collapsed(before).push(name),
        collapsed(before.push(name).push(seq!['.', '.'])) == collapsed(before),
        collapsed(seq![seq!['.', '.']]) == Seq::<Seq<char>>::empty(),
        collapsed(Seq::empty()) == Seq::<Seq<char>>::empty(),
{
    reveal_strlit("..");
    assert(".."@ =~= seq!['.', '.']);
    assert(before.push(name).drop_last() =~= before);
    let more = before.push(name).push(seq!['.', '.']);
    assert(more.drop_last() =~= before.push(name));
    assert(collapsed(before).push(name).drop_last() =~= collapsed(before));
    let one = seq![seq!['.', '.']];
    assert(one.drop_last() =~= Seq::<Seq<char>>::empty());
    assert(one.last() == seq!['.', '.']);
    assert(collapsed(Seq::<Seq<char>>::empty()) =~= Seq::<Seq<char>>::empty());
}

/// A name is put below a directory behind one slash; without a directory it
/// stands alone.
pub proof fn law_join_puts_below(dir: Seq<char>, name: Seq<char>)
    ensures
        dir.len() == 0 ==> joined(dir, name) == name,
        dir.len() > 0 && dir.last() == '/' ==> joined(dir, name) == dir + name,
        dir.len() > 0 && dir.last() != '/' ==> joined(dir, name) == dir + seq!['/'] + name,
        is_name(name) && dir.len() > 0 ==> names(joined(dir, name)) == names(dir).push(name),
{
    reveal_strlit("/");
    assert("/"@ =~= seq!['/']);
    if is_name(name) && dir.len() > 0 {
        law_names_one_by_one(dir, name);
        if dir.last() == '/' {
            let d = dir.drop_last();
            law_names_one_by_one(d, name);
            assert(d + seq!['/'] =~= dir);
            assert(d + seq!['/'] + name =~= dir + name);
        }
    }
}

/// Whether a path has nothing at its end that means nothing.
pub open spec fn is_tidy(path: Seq<char>) -> bool {
    path.len() <= 1 || (path.last() != '/' && !(path.last() == '.' && path[path.len() - 2] == '/'))
}

/// The directory of a path is what stands before its last name, as it is spelled
/// there. A root and the empty path have none.
pub proof fn law_parent_is_the_text_before(dir: Seq<char>, name: Seq<char>)
    requires
        is_name(name),
        is_tidy(dir),
        dir.len() > 0,
        dir != seq!['/'],
    ensures
        parent_of(dir + seq!['/'] + name) == Some(dir),
        parent_of(dir + seq!['/'] + name + seq!['/']) == Some(dir),
        parent_of(seq!['/'] + name) == Some(seq!['/']),
        parent_of(name) == Some(Seq::<char>::empty()),
        parent_of(seq!['/']) is None,
        parent_of(Seq::empty()) is None,
{
    let a = dir + seq!['/'] + name;
    assert(name.contains(name.last()));
    assert(a.last() == name.last());
    if name.len() == 1 {
        assert(name =~= seq![name[0]]);
        assert(name[0] != '.');
    } else {
        assert(a[a.len() - 2] == name[name.len() - 2]);
        assert(name.contains(name[name.len() - 2]));
    }
    assert(tidy_end(a) == a);
    lemma_last_slash(dir, name);
    let b = a + seq!['/'];
    assert(b.drop_last() =~= a);
    let head = a.subrange(0, dir.len() as int + 1);
    assert(head =~= dir + seq!['/']);
    assert(head.drop_last() =~= dir);
    assert(tidy_end(dir) == dir);
    assert(tidy_end(head) == dir);
    let r = seq!['/'] + name;
    assert(r.last() == name.last());
    if name.len() > 1 {
        assert(r[r.len() - 2] == name[name.len() - 2]);
    }
    assert(tidy_end(r) == r);
    lemma_last_slash(Seq::empty(), name);
    assert(Seq::empty() + seq!['/'] + name =~= r);
    assert(r.subrange(0, 1) =~= seq!['/']);
    assert(r.len() > 1);
    assert(tidy_end(seq!['/']) == seq!['/']);
    assert(tidy_end(name) == name);
    assert forall|i: int| 0 <= i < name.len() implies name[i] != '/' by {
        assert(name.contains(name[i]));
    }
    lemma_last_end_unique(name, '/', 0);
    assert(name.subrange(0, 0) =~= Seq::empty());
    assert(name != seq!['/']) by {
        if name == seq!['/'] {
            assert(name[0] == '/');
        }
    }
    assert(tidy_end(Seq::<char>::empty()) == Seq::<char>::empty());
}

proof fn lemma_last_slash(dir: Seq<char>, name: Seq<char>)
    requires
        !name.contains('/'),
    ensures
        crate::text::last_end(dir + seq!['/'] + name, '/') == dir.len() + 1,
{
    let a = dir + seq!['/'] + name;
    assert forall|i: int| dir.len() + 1 <= i < a.len() implies a[i] != '/' by {
        assert(a[i] == name[i - dir.len() - 1]);
        assert(name.contains(name[i - dir.len() - 1]));
    }
    lemma_last_end_unique(a, '/', dir.len() + 1);
}

/// The project is looked for upwards: first in the directory itself, then in the
/// one that it is in, and so on; the home directory and what is above it are left
/// out.
pub proof fn law_project_is_looked_for_upwards(
    dir: Seq<char>,
    name: Seq<char>,
    home: Option<Seq<char>>,
)
    requires
        is_name(name),
        is_tidy(dir),
        dir.len() > 0,
        dir != seq!['/'],
    ensures
        ({
            let cwd = dir + seq!['/'] + name;
            &&& home is None || !same_path(home->0, cwd) ==> project_candidates(cwd, home) == seq![
                cwd,
            ] + project_candidates(dir, home)
            &&& home is Some && same_path(home->0, cwd) ==> project_candidates(cwd, home).len() == 0
            &&& home is None || !same_path(home->0, seq!['/']) ==> project_candidates(
                seq!['/'],
                home,
            ) == seq![seq!['/']]
            &&& home is None ==> project_candidates(seq!['/'] + name, home) == seq![
                seq!['/'] + name,
                seq!['/'],
            ]
        }),
{
    law_parent_is_the_text_before(dir, name);
    if home is None {
        let below = seq!['/'] + name;
        assert(project_candidates(seq!['/'], home) =~= seq![seq!['/']]);
        assert(project_candidates(below, home) =~= seq![below, seq!['/']]);
    }
}

/// Of the directories that were looked at, the first that is marked is the
/// project.
pub proof fn law_first_mark_is_the_project(
    candidates: Seq<Seq<char>>,
    marked: Seq<bool>,
    i: int,
)
    requires
        candidates.len() == marked.len(),
        0 <= i <= marked.len(),
        forall|j: int| 0 <= j < i ==> !#[trigger] marked[j],
        i < marked.len() ==> marked[i],
    ensures
        i < marked.len() ==> first_marked(candidates, marked) == Some(candidates[i]),
        i == marked.len() ==> first_marked(candidates, marked) is None,
    decreases candidates.len(),
{
    if i > 0 {
        let c = candidates.subrange(1, candidates.len() as int);
        let m = marked.subrange(1, marked.len() as int);
        assert(!marked[0]);
        assert(forall|j: int| 0 <= j < m.len() ==> #[trigger] m[j] == marked[j + 1]);
        law_first_mark_is_the_project(c, m, i - 1);
    }
}

/// A transcript is a file with a name in front of `.jsonl`.
pub proof fn law_transcripts_by_their_ending(dir: Seq<char>, stem: Seq<char>, name: Seq<char>)
    requires
        dir.len() > 0,
        stem.len() > 0,
        !stem.contains('/'),
        is_name(name),
        !has_suffix(name, seq!['.', 'j', 's', 'o', 'n', 'l']),
    ensures
        is_transcript(dir + seq!['/'] + (stem + seq!['.', 'j', 's', 'o', 'n', 'l'])),
        !is_transcript(dir + seq!['/'] + name),
        !is_transcript(dir + seq!['/'] + seq!['.', 'j', 's', 'o', 'n', 'l']),
{
    reveal_strlit(".jsonl");
    let end = seq!['.', 'j', 's', 'o', 'n', 'l'];
    assert(".jsonl"@ =~= end);
    let file = stem + end;
    assert forall|i: int| 0 <= i < file.len() implies file[i] != '/' by {
        if i < stem.len() {
            assert(stem.contains(stem[i]));
        }
    }
    assert(file.len() > 1);
    law_suffix_letter_by_letter(file, end);
    law_names_one_by_one(dir, file);
    law_names_one_by_one(dir, name);
    assert(is_name(end)) by {
        assert forall|i: int| 0 <= i < end.len() implies end[i] != '/' by {}
    }
    law_names_one_by_one(dir, end);
    reveal_strlit(".");
    assert(components(dir + seq!['/'] + file).last() == file);
    assert(components(dir + seq!['/'] + name).last() == name);
    assert(components(dir + seq!['/'] + end).last() == end);
}

/// A path that is worked out has one slash between each two of its names, and one
/// in front if it is absolute.
pub proof fn law_text_of_a_path(list: Seq<Seq<char>>, name: Seq<char>)
    ensures
        slashed(Seq::empty()) == Seq::<char>::empty(),
        slashed(seq![name]) == name,
        list.len() > 0 ==> slashed(list.push(name)) == slashed(list) + seq!['/'] + name,
        path_text(false, list) == slashed(list),
        path_text(true, list) == seq!['/'] + slashed(list),
{
    reveal_strlit("/");
    assert("/"@ =~= seq!['/']);
    assert(seq![name][0] == name);
    assert(list.push(name).drop_last() =~= list);
}

/// Working out a path: a name below a directory is put behind it, and `..` takes
/// the last name away again.
pub proof fn law_working_out_a_path(dir: Seq<char>, name: Seq<char>)
    requires
        is_name(name),
        name != seq!['.', '.'],
        dir.len() > 0,
    ensures
        ({
            let before = collapsed(names(dir));
            &&& normalized(dir) == path_text(dir[0] == '/', before)
            &&& normalized(dir + seq!['/'] + name) == path_text(dir[0] == '/', before.push(name))
            &&& normalized(dir + seq!['/'] + name + seq!['/', '.', '.']) == normalized(dir)
        }),
{
    let a = dir + seq!['/'] + name;
    let up = seq!['.', '.'];
    law_names_one_by_one(dir, name);
    assert(is_name(up)) by {
        assert(up.len() == 2 && seq!['.'].len() == 1);
    }
    law_names_one_by_one(a, up);
    assert(a + seq!['/'] + up =~= a + seq!['/', '.', '.']);
    law_parent_takes_one_name_back(names(dir), name);
    assert(a[0] == dir[0]);
    assert((a + seq!['/', '.', '.'])[0] == dir[0]);
}

} // verus!

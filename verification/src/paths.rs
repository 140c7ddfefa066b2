//! Paths as text: their components, their parents and their plain form.

use vstd::prelude::*;
use crate::proto::hook::text_of;
use crate::text::{
    first_index, join3, last_end, lemma_first_index, lemma_first_index_unique, lemma_last_end,
    lemma_pieces_append, pieces, rfind_char, split, str_eq, texts_of, to_chars,
};

verus! {

/// The names among the texts between the slashes of a path: those that are not
/// empty and not `.`.
pub open spec fn names_in(parts: Seq<Seq<char>>) -> Seq<Seq<char>>
    decreases parts.len(),
{
    if parts.len() == 0 {
        Seq::empty()
    } else {
        let before = names_in(parts.drop_last());
        if parts.last().len() == 0 || parts.last() == "."@ {
            before
        } else {
            before.push(parts.last())
        }
    }
}

/// The names in a path.
pub open spec fn names(path: Seq<char>) -> Seq<Seq<char>> {
    names_in(pieces(path, '/'))
}

/// Whether a path starts in the current directory, by name.
pub open spec fn starts_here(path: Seq<char>) -> bool {
    pieces(path, '/')[0] == "."@
}

/// The components of a path: its names, with the `.` that it may start with.
pub open spec fn components(path: Seq<char>) -> Seq<Seq<char>> {
    if starts_here(path) {
        seq!["."@] + names(path)
    } else {
        names(path)
    }
}

pub open spec fn is_absolute_path(path: Seq<char>) -> bool {
    path.len() > 0 && path[0] == '/'
}

/// Names with slashes between them.
pub open spec fn slashed(names: Seq<Seq<char>>) -> Seq<char>
    decreases names.len(),
{
    if names.len() == 0 {
        Seq::empty()
    } else if names.len() == 1 {
        names[0]
    } else {
        slashed(names.drop_last()) + "/"@ + names.last()
    }
}

/// The path of these components.
pub open spec fn path_text(absolute: bool, names: Seq<Seq<char>>) -> Seq<char> {
    if absolute {
        "/"@ + slashed(names)
    } else {
        slashed(names)
    }
}

/// The components with each `..` taken back together with the name before it. A
/// `..` with no name before it is dropped.
pub open spec fn collapsed(names: Seq<Seq<char>>) -> Seq<Seq<char>>
    decreases names.len(),
{
    if names.len() == 0 {
        Seq::empty()
    } else {
        let before = collapsed(names.drop_last());
        if names.last() != ".."@ {
            before.push(names.last())
        } else if before.len() > 0 {
            before.drop_last()
        } else {
            before
        }
    }
}

/// A path without `.` and `..`, worked out from its text alone.
pub open spec fn normalized(path: Seq<char>) -> Seq<char> {
    path_text(is_absolute_path(path), collapsed(names(path)))
}

/// Whether two texts are the same path.
pub open spec fn same_path(a: Seq<char>, b: Seq<char>) -> bool {
    is_absolute_path(a) == is_absolute_path(b) && components(a) == components(b)
}

/// A path without what means nothing at its end: slashes, and `.` behind a slash.
pub open spec fn tidy_end(path: Seq<char>) -> Seq<char>
    decreases path.len(),
{
    if path.len() > 1 && (path.last() == '/' || (path.last() == '.' && path[path.len() - 2] == '/')) {
        tidy_end(path.drop_last())
    } else {
        path
    }
}

/// The directory that a path is in, spelled as in the path; none for a root and
/// for the empty path.
pub open spec fn parent_of(path: Seq<char>) -> Option<Seq<char>> {
    let tidy = tidy_end(path);
    if tidy.len() == 0 || tidy == seq!['/'] {
        None
    } else {
        Some(tidy_end(tidy.subrange(0, last_end(tidy, '/') as int)))
    }
}

/// `name` in the directory `dir`.
pub open spec fn joined(dir: Seq<char>, name: Seq<char>) -> Seq<char> {
    if dir.len() == 0 {
        name
    } else if dir.last() == '/' {
        dir + name
    } else {
        dir + "/"@ + name
    }
}

/// The names in a path.
pub fn path_names(path: &str) -> (r: Vec<String>)
    ensures
        texts_of(r@) == names(path@),
{
    let parts = split(path, '/');
    let ghost all = texts_of(parts@);
    let mut r: Vec<String> = Vec::new();
    let mut i: usize = 0;
    assert(texts_of(r@) =~= names_in(all.take(0)));
    while i < parts.len()
        invariant
            i <= parts@.len(),
            all == texts_of(parts@),
            texts_of(r@) == names_in(all.take(i as int)),
        decreases parts@.len() - i,
    {
        assert(all.take(i + 1).drop_last() =~= all.take(i as int));
        assert(all.take(i + 1).last() == parts@[i as int]@);
        let part = parts[i].as_str();
        if !(part.is_empty() || str_eq(part, ".")) {
            let ghost before = r@;
            r.push(part.to_owned());
            assert(texts_of(r@) =~= texts_of(before).push(part@));
        }
        i = i + 1;
    }
    assert(all.take(i as int) =~= all);
    r
}

/// The components of a path.
pub fn path_components(path: &str) -> (r: Vec<String>)
    ensures
        texts_of(r@) == components(path@),
{
    let mut found = path_names(path);
    let parts = split(path, '/');
    proof {
        lemma_pieces_plain(path@, '/');
        assert(texts_of(parts@)[0] == parts@[0]@);
    }
    if str_eq(parts[0].as_str(), ".") {
        let mut r: Vec<String> = Vec::new();
        r.push(".".to_owned());
        let ghost rest = texts_of(found@);
        r.append(&mut found);
        assert(texts_of(r@) =~= seq!["."@] + rest);
        r
    } else {
        found
    }
}

/// How many characters of a path are left when its end is tidied.
fn tidy_len(path: &Vec<char>, len: usize) -> (n: usize)
    requires
        len <= path@.len(),
    ensures
        n <= len,
        path@.take(n as int) == tidy_end(path@.take(len as int)),
{
    let mut n: usize = len;
    while n > 1 && (path[n - 1] == '/' || (path[n - 1] == '.' && path[n - 2] == '/'))
        invariant
            n <= len <= path@.len(),
            tidy_end(path@.take(n as int)) == tidy_end(path@.take(len as int)),
        decreases n,
    {
        assert(path@.take(n as int).drop_last() =~= path@.take(n - 1));
        n = n - 1;
    }
    n
}

/// The directory that a path is in.
pub fn parent_path(path: &str) -> (r: Option<String>)
    ensures
        text_of(r) == parent_of(path@),
        r matches Some(p) ==> p@.len() < path@.len(),
{
    let chars = to_chars(path);
    assert(chars@.take(chars@.len() as int) =~= chars@);
    let n = tidy_len(&chars, chars.len());
    let ghost tidy = path@.take(n as int);
    proof {
        lemma_tidy_end(path@);
        lemma_last_end(tidy, '/');
    }
    if n == 0 || (n == 1 && chars[0] == '/') {
        assert(n == 1 ==> tidy =~= seq!['/']);
        return None;
    }
    assert(tidy != seq!['/']) by {
        assert(n == 1 ==> tidy[0] == chars@[0]);
    }
    let kept = path.substring_char(0, n);
    assert(kept@ =~= tidy);
    let k: usize = match rfind_char(kept, '/') {
        Some(i) => i + 1,
        None => 0,
    };
    assert(tidy.subrange(0, k as int) =~= chars@.take(k as int));
    proof {
        lemma_tidy_end(chars@.take(k as int));
        assert(k < n) by {
            if k == n {
                assert(tidy[n - 1] == '/');
                assert(tidy.last() == '/');
            }
        }
    }
    let m = tidy_len(&chars, k);
    assert(path@.subrange(0, m as int) =~= chars@.take(m as int));
    Some(path.substring_char(0, m).to_owned())
}

pub fn is_absolute(path: &str) -> (r: bool)
    ensures
        r == is_absolute_path(path@),
{
    !path.is_empty() && path.get_char(0) == '/'
}

/// The path of the first `n` components.
pub fn path_of(absolute: bool, names: &Vec<String>, n: usize) -> (r: String)
    requires
        n <= names@.len(),
    ensures
        r@ == path_text(absolute, texts_of(names@).take(n as int)),
{
    let ghost all = texts_of(names@);
    let mut r = String::new();
    let mut i: usize = 0;
    while i < n
        invariant
            i <= n <= names@.len(),
            all == texts_of(names@),
            r@ == slashed(all.take(i as int)),
        decreases n - i,
    {
        assert(all.take(i + 1).drop_last() =~= all.take(i as int));
        assert(all.take(i + 1).last() == names@[i as int]@);
        if i == 0 {
            assert(all.take(1)[0] == names@[0]@);
            r = names[i].clone();
        } else {
            r = join3(r.as_str(), "/", names[i].as_str());
        }
        i = i + 1;
    }
    if absolute {
        crate::text::join2("/", r.as_str())
    } else {
        r
    }
}

/// A path without `.` and `..`, worked out from its text alone.
pub fn lexically_normalize(path: &str) -> (r: String)
    ensures
        r@ == normalized(path@),
{
    let names = path_names(path);
    let ghost all = texts_of(names@);
    let mut kept: Vec<String> = Vec::new();
    let mut i: usize = 0;
    assert(texts_of(kept@) =~= collapsed(all.take(0)));
    while i < names.len()
        invariant
            i <= names@.len(),
            all == texts_of(names@),
            texts_of(kept@) == collapsed(all.take(i as int)),
        decreases names@.len() - i,
    {
        assert(all.take(i + 1).drop_last() =~= all.take(i as int));
        assert(all.take(i + 1).last() == names@[i as int]@);
        let ghost before = kept@;
        if str_eq(names[i].as_str(), "..") {
            let _ = kept.pop();
            assert(before.len() > 0 ==> texts_of(kept@) =~= texts_of(before).drop_last());
        } else {
            kept.push(names[i].clone());
            assert(texts_of(kept@) =~= texts_of(before).push(names@[i as int]@));
        }
        i = i + 1;
    }
    assert(all.take(i as int) =~= all);
    assert(texts_of(kept@).take(kept@.len() as int) =~= texts_of(kept@));
    path_of(is_absolute(path), &kept, kept.len())
}

fn same_texts(a: &Vec<String>, b: &Vec<String>) -> (r: bool)
    ensures
        r == (texts_of(a@) == texts_of(b@)),
{
    if a.len() != b.len() {
        assert(texts_of(a@).len() != texts_of(b@).len());
        return false;
    }
    let mut i: usize = 0;
    while i < a.len()
        invariant
            i <= a@.len(),
            a@.len() == b@.len(),
            forall|j: int| 0 <= j < i ==> (#[trigger] a@[j])@ == b@[j]@,
        decreases a@.len() - i,
    {
        if !str_eq(a[i].as_str(), b[i].as_str()) {
            assert(texts_of(a@)[i as int] != texts_of(b@)[i as int]);
            return false;
        }
        i = i + 1;
    }
    assert(texts_of(a@) =~= texts_of(b@));
    true
}

/// Whether two texts are the same path.
pub fn paths_equal(a: &str, b: &str) -> (r: bool)
    ensures
        r == same_path(a@, b@),
{
    let x = path_components(a);
    let y = path_components(b);
    is_absolute(a) == is_absolute(b) && same_texts(&x, &y)
}

/// `name` in the directory `dir`.
pub fn join_path(dir: &str, name: &str) -> (r: String)
    ensures
        r@ == joined(dir@, name@),
{
    let n = dir.unicode_len();
    if n == 0 {
        name.to_owned()
    } else if dir.get_char(n - 1) == '/' {
        crate::text::join2(dir, name)
    } else {
        join3(dir, "/", name)
    }
}

// ---------------------------------------------------------------------------
// Laws of normal paths.

/// What is left of a path holds no `.` and no `..`.
pub proof fn law_normalized_has_no_dots(path: Seq<char>)
    ensures
        forall|i: int|
            0 <= i < collapsed(names(path)).len() ==> {
                let name = #[trigger] collapsed(names(path))[i];
                name.len() > 0 && name != "."@ && name != ".."@
            },
{
    lemma_names(pieces(path, '/'));
    lemma_collapsed(names(path));
}

proof fn lemma_tidy_end(path: Seq<char>)
    ensures
        tidy_end(path).len() <= path.len(),
        tidy_end(path).len() > 1 ==> tidy_end(path).last() != '/',
    decreases path.len(),
{
    if path.len() > 1 && (path.last() == '/' || (path.last() == '.' && path[path.len() - 2] == '/')) {
        lemma_tidy_end(path.drop_last());
    }
}

proof fn lemma_names(parts: Seq<Seq<char>>)
    ensures
        forall|i: int|
            0 <= i < names_in(parts).len() ==> (#[trigger] names_in(parts)[i]).len() > 0 && names_in(
                parts,
            )[i] != "."@,
    decreases parts.len(),
{
    if parts.len() > 0 {
        lemma_names(parts.drop_last());
        let before = names_in(parts.drop_last());
        let all = names_in(parts);
        assert forall|i: int| 0 <= i < all.len() implies (#[trigger] all[i]).len() > 0 && all[i]
            != "."@ by {
            if i < before.len() {
                assert(all[i] == before[i]);
            }
        }
    }
}

proof fn lemma_collapsed(names: Seq<Seq<char>>)
    requires
        forall|i: int| 0 <= i < names.len() ==> (#[trigger] names[i]).len() > 0 && names[i] != "."@,
    ensures
        forall|i: int|
            0 <= i < collapsed(names).len() ==> {
                let name = #[trigger] collapsed(names)[i];
                name.len() > 0 && name != "."@ && name != ".."@
            },
        collapsed(names).len() <= names.len(),
    decreases names.len(),
{
    if names.len() > 0 {
        let rest = names.drop_last();
        assert(forall|i: int| 0 <= i < rest.len() ==> #[trigger] rest[i] == names[i]);
        lemma_collapsed(rest);
        assert(names[names.len() - 1] == names.last());
    }
}

/// Names without `..` collapse to themselves.
pub proof fn law_collapse_idempotent(names: Seq<Seq<char>>)
    ensures
        collapsed(collapsed(names)) == collapsed(names),
{
    lemma_collapsed_no_parent(names);
    lemma_collapse_fixed(collapsed(names));
}

proof fn lemma_collapsed_no_parent(names: Seq<Seq<char>>)
    ensures
        forall|i: int| 0 <= i < collapsed(names).len() ==> #[trigger] collapsed(names)[i] != ".."@,
    decreases names.len(),
{
    if names.len() > 0 {
        lemma_collapsed_no_parent(names.drop_last());
        let before = collapsed(names.drop_last());
        let all = collapsed(names);
        assert forall|i: int| 0 <= i < all.len() implies #[trigger] all[i] != ".."@ by {
            if i < before.len() {
                assert(all[i] == before[i]);
            }
        }
    }
}

proof fn lemma_collapse_fixed(names: Seq<Seq<char>>)
    requires
        forall|i: int| 0 <= i < names.len() ==> #[trigger] names[i] != ".."@,
    ensures
        collapsed(names) == names,
    decreases names.len(),
{
    if names.len() > 0 {
        let rest = names.drop_last();
        assert(forall|i: int| 0 <= i < rest.len() ==> #[trigger] rest[i] == names[i]);
        lemma_collapse_fixed(rest);
        assert(names[names.len() - 1] == names.last());
        assert(rest.push(names.last()) =~= names);
    } else {
        assert(collapsed(names) =~= names);
    }
}

/// Whether these can be the components of a path that holds no `.`.
spec fn are_names(names: Seq<Seq<char>>) -> bool {
    forall|i: int|
        0 <= i < names.len() ==> (#[trigger] names[i]).len() > 0 && names[i] != "."@
            && !names[i].contains('/')
}

proof fn lemma_pieces_plain(s: Seq<char>, c: char)
    ensures
        pieces(s, c).len() > 0,
        forall|i: int| 0 <= i < pieces(s, c).len() ==> !(#[trigger] pieces(s, c)[i]).contains(c),
    decreases s.len(),
{
    lemma_first_index(s, c);
    let n = first_index(s, c) as int;
    if n < s.len() {
        let head = s.subrange(0, n);
        let rest = s.subrange(n + 1, s.len() as int);
        lemma_pieces_plain(rest, c);
        let all = pieces(s, c);
        assert forall|i: int| 0 <= i < all.len() implies !(#[trigger] all[i]).contains(c) by {
            if i == 0 {
                assert(all[0] == head);
                assert(forall|k: int| 0 <= k < head.len() ==> head[k] == s[k]);
            } else {
                assert(all[i] == pieces(rest, c)[i - 1]);
            }
        }
    } else {
        assert(pieces(s, c)[0] == s);
    }
}

pub proof fn lemma_pieces_closed(s: Seq<char>, c: char)
    ensures
        pieces(s.push(c), c) == pieces(s, c).push(Seq::<char>::empty()),
    decreases s.len(),
{
    lemma_first_index(s, c);
    let n = first_index(s, c);
    let longer = s.push(c);
    assert(forall|k: int| 0 <= k < s.len() ==> longer[k] == s[k]);
    lemma_first_index_unique(longer, c, n);
    assert(longer.subrange(0, n as int) =~= s.subrange(0, n as int));
    if n < s.len() {
        let rest = s.subrange(n as int + 1, s.len() as int);
        assert(longer.subrange(n as int + 1, longer.len() as int) =~= rest.push(c));
        lemma_pieces_closed(rest, c);
        assert(pieces(longer, c) =~= pieces(s, c).push(Seq::<char>::empty()));
    } else {
        let rest = longer.subrange(n as int + 1, longer.len() as int);
        assert(rest =~= Seq::<char>::empty());
        assert(first_index(rest, c) == 0);
        assert(pieces(rest, c) =~= seq![Seq::<char>::empty()]);
        assert(s.subrange(0, n as int) =~= s);
        assert(pieces(longer, c) =~= pieces(s, c).push(Seq::<char>::empty()));
    }
}

pub proof fn lemma_whole_piece(s: Seq<char>, c: char)
    requires
        !s.contains(c),
    ensures
        pieces(s, c) == seq![s],
{
    lemma_first_index(s, c);
    let n = first_index(s, c);
    if n < s.len() {
        assert(s[n as int] == c);
    }
}

proof fn lemma_names_in(parts: Seq<Seq<char>>)
    requires
        forall|i: int| 0 <= i < parts.len() ==> !(#[trigger] parts[i]).contains('/'),
    ensures
        are_names(names_in(parts)),
        names_in(seq![Seq::<char>::empty()] + parts) == names_in(parts),
    decreases parts.len(),
{
    let led = seq![Seq::<char>::empty()] + parts;
    if parts.len() > 0 {
        let rest = parts.drop_last();
        assert(forall|i: int| 0 <= i < rest.len() ==> #[trigger] rest[i] == parts[i]);
        lemma_names_in(rest);
        assert(parts[parts.len() - 1] == parts.last());
        assert(led.drop_last() =~= seq![Seq::<char>::empty()] + rest);
        assert(led.last() == parts.last());
    } else {
        assert(led.drop_last() =~= Seq::<Seq<char>>::empty());
        assert(led.last() == Seq::<char>::empty());
        assert(names_in(led.drop_last()) =~= Seq::<Seq<char>>::empty());
    }
}

proof fn lemma_collapsed_names(names: Seq<Seq<char>>)
    requires
        are_names(names),
    ensures
        are_names(collapsed(names)),
    decreases names.len(),
{
    if names.len() > 0 {
        let rest = names.drop_last();
        assert(forall|i: int| 0 <= i < rest.len() ==> #[trigger] rest[i] == names[i]);
        lemma_collapsed_names(rest);
        assert(names[names.len() - 1] == names.last());
    }
}

proof fn lemma_slashed(list: Seq<Seq<char>>)
    requires
        are_names(list),
    ensures
        names(slashed(list)) == list,
        pieces(slashed(list), '/') == if list.len() == 0 {
            seq![Seq::<char>::empty()]
        } else {
            list
        },
        slashed(list).len() > 0 ==> slashed(list)[0] != '/',
    decreases list.len(),
{
    reveal_strlit("/");
    if list.len() == 0 {
        lemma_whole_piece(slashed(list), '/');
        let parts = pieces(slashed(list), '/');
        assert(slashed(list) =~= Seq::<char>::empty());
        assert(parts.drop_last() =~= Seq::<Seq<char>>::empty());
        assert(parts.last().len() == 0);
        assert(names_in(parts) == names_in(parts.drop_last()));
        assert(names(slashed(list)) =~= list);
    } else {
        let rest = list.drop_last();
        let last = list.last();
        assert(list[list.len() - 1] == last);
        assert(forall|i: int| 0 <= i < rest.len() ==> #[trigger] rest[i] == list[i]);
        lemma_whole_piece(last, '/');
        if list.len() == 1 {
            assert(pieces(last, '/') =~= list);
            assert(pieces(last, '/').drop_last() =~= Seq::<Seq<char>>::empty());
            assert(names_in(Seq::<Seq<char>>::empty()).push(last) =~= list);
            assert(last[0] != '/') by {
                if last[0] == '/' {
                    assert(last.contains('/'));
                }
            }
        } else {
            lemma_slashed(rest);
            let head = slashed(rest);
            let closed = head.push('/');
            assert(slashed(list) =~= closed + last);
            lemma_pieces_closed(head, '/');
            lemma_pieces_append(closed, last, '/');
            assert(pieces(closed, '/').drop_last() =~= pieces(head, '/'));
            let all = pieces(slashed(list), '/');
            assert(all =~= pieces(head, '/').push(last));
            assert(all.drop_last() =~= pieces(head, '/'));
            assert(rest.push(last) =~= list);
            lemma_slashed_len(rest);
            assert(slashed(list)[0] == head[0]);
        }
    }
}

proof fn lemma_slashed_len(names: Seq<Seq<char>>)
    requires
        names.len() > 0,
        are_names(names),
    ensures
        slashed(names).len() > 0,
    decreases names.len(),
{
    assert(names[0].len() > 0);
    if names.len() > 1 {
        let rest = names.drop_last();
        assert(forall|i: int| 0 <= i < rest.len() ==> #[trigger] rest[i] == names[i]);
        lemma_slashed_len(rest);
    }
}

/// The text of a path has the names that it was made of.
proof fn lemma_path_text(absolute: bool, list: Seq<Seq<char>>)
    requires
        are_names(list),
    ensures
        names(path_text(absolute, list)) == list,
        !starts_here(path_text(absolute, list)),
        is_absolute_path(path_text(absolute, list)) == absolute,
{
    reveal_strlit("/");
    reveal_strlit(".");
    lemma_slashed(list);
    if absolute {
        let body = slashed(list);
        let root = Seq::<char>::empty().push('/');
        assert("/"@ =~= root);
        lemma_pieces_closed(Seq::<char>::empty(), '/');
        lemma_whole_piece(Seq::<char>::empty(), '/');
        lemma_pieces_append(root, body, '/');
        assert(pieces(root, '/').drop_last() =~= seq![Seq::<char>::empty()]);
        lemma_pieces_plain(body, '/');
        lemma_names_in(pieces(body, '/'));
        assert(pieces(root + body, '/')[0].len() == 0);
    } else {
        assert(list.len() > 0 ==> list[0] != "."@);
    }
}

/// Normalizing a path that was normalized gives the same text again. What is
/// normalized is absolute exactly if the path was, and a path that holds no `.`
/// and no `..` among its components stays the same path.
pub proof fn law_normalizing_is_idempotent(path: Seq<char>)
    ensures
        normalized(normalized(path)) == normalized(path),
        is_absolute_path(normalized(path)) == is_absolute_path(path),
        components(normalized(path)) == collapsed(names(path)),
        !starts_here(path) && (forall|i: int|
            0 <= i < names(path).len() ==> #[trigger] names(path)[i] != ".."@) ==> same_path(
            normalized(path),
            path,
        ),
{
    lemma_pieces_plain(path, '/');
    lemma_names_in(pieces(path, '/'));
    let list = names(path);
    lemma_collapsed_names(list);
    lemma_path_text(is_absolute_path(path), collapsed(list));
    law_collapse_idempotent(list);
    if forall|i: int| 0 <= i < list.len() ==> #[trigger] list[i] != ".."@ {
        lemma_collapse_fixed(list);
    }
}

} // verus!

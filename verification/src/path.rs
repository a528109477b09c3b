//! Paths of files: joining them and taking them apart.
use crate::text::{characters, same_text, split_text};
use vstd::prelude::*;

verus! {

/// Whether a path starts at the root directory.
pub open spec fn has_root(path: Seq<char>) -> bool {
    path.len() > 0 && path[0] == '/'
}

/// A path with another one added to it. An absolute path replaces what it is
/// added to; a relative one is set off by a slash, unless there is nothing to
/// set it off from or a slash is there already.
pub open spec fn joined(base: Seq<char>, part: Seq<char>) -> Seq<char> {
    if has_root(part) {
        part
    } else if base.len() == 0 || base.last() == '/' {
        base + part
    } else {
        base + seq!['/'] + part
    }
}

/// Whether a piece of a path between slashes names something in a directory.
pub open spec fn is_name(piece: Seq<char>) -> bool {
    piece.len() > 0 && piece != seq!['.']
}

/// The pieces among the given ones that name something.
pub open spec fn named(pieces: Seq<Seq<char>>) -> Seq<Seq<char>>
    decreases pieces.len(),
{
    if pieces.len() == 0 {
        pieces
    } else if is_name(pieces.last()) {
        named(pieces.drop_last()).push(pieces.last())
    } else {
        named(pieces.drop_last())
    }
}

/// The names along a path, without repeated slashes and current directories.
pub open spec fn names(path: Seq<char>) -> Seq<Seq<char>> {
    named(crate::text::split(path, '/'))
}

/// The number of components of a path: the root directory, the current
/// directory if the path starts with it, and every name.
pub open spec fn component_count(path: Seq<char>) -> nat {
    let root: nat = if has_root(path) { 1 } else { 0 };
    let current: nat = if crate::text::split(path, '/')[0] == seq!['.'] { 1 } else { 0 };
    root + current + names(path).len()
}

/// The last name along a path, unless it is the parent directory.
pub open spec fn file_name(path: Seq<char>) -> Option<Seq<char>> {
    let all = names(path);
    if all.len() == 0 || all.last() == seq!['.', '.'] {
        None
    } else {
        Some(all.last())
    }
}

/// Whether a path starts at the root directory.
pub fn starts_at_root(path: &str) -> (r: bool)
    ensures
        r == has_root(path@),
{
    let chars = characters(path);
    chars.len() > 0 && chars[0] == '/'
}

/// Adds a path to another one.
pub fn join_path(base: &str, part: &str) -> (r: String)
    ensures
        r@ == joined(base@, part@),
{
    if starts_at_root(part) {
        return part.to_owned();
    }
    let chars = characters(base);
    let n = chars.len();
    let mut out = base.to_owned();
    if n > 0 && chars[n - 1] != '/' {
        out.push('/');
        assert(out@ =~= base@ + seq!['/']);
    }
    out.append(part);
    out
}

/// The names along a path.
fn path_names(path: &str) -> (r: Vec<String>)
    ensures
        crate::text::texts(r@) == names(path@),
{
    let pieces = split_text(path, '/');
    let ghost all = crate::text::split(path@, '/');
    let mut out: Vec<String> = Vec::new();
    let mut i: usize = 0;
    assert(all.len() == pieces@.len());
    assert(all.take(0) =~= Seq::<Seq<char>>::empty());
    assert(crate::text::texts(out@) =~= named(all.take(0)));
    while i < pieces.len()
        invariant
            i <= pieces@.len(),
            crate::text::texts(pieces@) == all,
            crate::text::texts(out@) == named(all.take(i as int)),
        decreases pieces@.len() - i,
    {
        let ghost before = crate::text::texts(out@);
        proof {
            reveal_strlit(".");
            assert("."@ =~= seq!['.']);
            assert(all[i as int] == pieces@[i as int]@);
            assert(all.take(i + 1).drop_last() =~= all.take(i as int));
        }
        if !pieces[i].as_str().is_empty() && !same_text(pieces[i].as_str(), ".") {
            out.push(pieces[i].clone());
            assert(crate::text::texts(out@) =~= before.push(all[i as int]));
        }
        i = i + 1;
    }
    assert(all.take(pieces@.len() as int) =~= all);
    out
}

/// Whether a path has exactly one component.
pub fn has_one_component(path: &str) -> (r: bool)
    ensures
        r == (component_count(path@) == 1),
{
    let found = path_names(path);
    let pieces = split_text(path, '/');
    proof {
        crate::text::split_is_never_empty(path@, '/');
        reveal_strlit(".");
        assert("."@ =~= seq!['.']);
        assert(crate::text::texts(pieces@)[0] == pieces@[0]@);
        assert(crate::text::texts(found@).len() == found@.len());
    }
    let root = starts_at_root(path);
    let current = same_text(pieces[0].as_str(), ".");
    match found.len() {
        0 => root != current,
        1 => !root && !current,
        _ => false,
    }
}

/// Finds the last name along a path.
pub fn last_name(path: &str) -> (r: Option<String>)
    ensures
        match r {
            Some(name) => file_name(path@) == Some(name@),
            None => file_name(path@) is None,
        },
{
    let found = path_names(path);
    let n = found.len();
    proof {
        reveal_strlit("..");
        assert(".."@ =~= seq!['.', '.']);
        assert(crate::text::texts(found@).len() == found@.len());
    }
    if n == 0 {
        return None;
    }
    assert(names(path@).last() == found@[n - 1]@);
    if same_text(found[n - 1].as_str(), "..") {
        return None;
    }
    Some(found[n - 1].clone())
}

/// How a path is added to another: an absolute one takes its place, and a relative
/// one comes behind it, with exactly one slash between them that the first path
/// may have brought.
pub proof fn relative_paths_are_set_off(base: Seq<char>, part: Seq<char>)
    ensures
        part.len() > 0 && part[0] == '/' ==> joined(base, part) == part,
        part.len() == 0 || part[0] != '/' ==> {
            &&& joined(Seq::<char>::empty(), part) == part
            &&& joined(base + seq!['/'], part) == base + seq!['/'] + part
            &&& base.len() > 0 && base[base.len() - 1] != '/' ==> joined(base, part) == base
                + seq!['/'] + part
        },
{
    assert(Seq::<char>::empty() + part =~= part);
    assert((base + seq!['/']).last() == '/');
}

/// The names in two rows of pieces are those of the first and then those of the
/// second.
proof fn names_in_turn(a: Seq<Seq<char>>, b: Seq<Seq<char>>)
    ensures
        named(a + b) == named(a) + named(b),
    decreases b.len(),
{
    if b.len() == 0 {
        assert(a + b =~= a);
        assert(named(a) + named(b) =~= named(a));
    } else {
        assert((a + b).drop_last() =~= a + b.drop_last());
        assert((a + b).last() == b.last());
        names_in_turn(a, b.drop_last());
        assert(named(a + b) =~= named(a) + named(b));
    }
}

/// The names along a path are the pieces between its slashes that are neither empty
/// nor a single dot.
pub proof fn slashes_separate_names(a: Seq<char>, b: Seq<char>)
    ensures
        names(a + seq!['/'] + b) == names(a) + names(b),
        !a.contains('/') ==> names(a) == if a.len() == 0 || a == seq!['.'] {
            Seq::<Seq<char>>::empty()
        } else {
            seq![a]
        },
{
    crate::text::separator_separates(a, b, '/');
    names_in_turn(crate::text::split(a, '/'), crate::text::split(b, '/'));
    if !a.contains('/') {
        let one = seq![a];
        assert(one.drop_last() =~= Seq::<Seq<char>>::empty());
        assert(named(one.drop_last()) =~= Seq::<Seq<char>>::empty());
        assert(Seq::<Seq<char>>::empty().push(a) =~= seq![a]);
        if is_name(a) {
            assert(named(one) =~= seq![a]);
        } else {
            assert(named(one) =~= Seq::<Seq<char>>::empty());
        }
    }
}

/// A file in a directory is called by what comes behind the last slash. A slash at
/// the end makes no difference.
pub proof fn last_name_names_file(directory: Seq<char>, name: Seq<char>)
    requires
        name.len() > 0,
        !name.contains('/'),
        name != seq!['.'],
        name != seq!['.', '.'],
    ensures
        file_name(name) == Some(name),
        file_name(directory + seq!['/'] + name) == Some(name),
        file_name(directory + seq!['/']) == file_name(directory),
        file_name(seq!['.', '.']) is None,
        file_name(directory + seq!['/', '.', '.']) is None,
{
    let nothing = Seq::<char>::empty();
    let parent = seq!['.', '.'];
    slashes_separate_names(directory, name);
    slashes_separate_names(name, nothing);
    slashes_separate_names(directory, nothing);
    slashes_separate_names(nothing, nothing);
    slashes_separate_names(parent, nothing);
    slashes_separate_names(directory, parent);
    assert(directory + seq!['/'] + nothing =~= directory + seq!['/']);
    assert(directory + seq!['/'] + parent =~= directory + seq!['/', '.', '.']);
    assert(names(directory) + Seq::<Seq<char>>::empty() =~= names(directory));
    assert((names(directory) + seq![name]).last() == name);
    assert((names(directory) + seq![parent]).last() == parent);
}

/// A text without slashes is one component of a path, unless it is empty. Two names
/// with a slash between them are not.
pub proof fn name_is_one_component(a: Seq<char>, b: Seq<char>)
    requires
        a.len() > 0,
        !a.contains('/'),
    ensures
        component_count(a) == 1,
        component_count(Seq::<char>::empty()) == 0,
        component_count(a + seq!['/'] + b) == 1 + names(b).len(),
        component_count(seq!['/'] + a) == 1 + names(a).len(),
{
    let nothing = Seq::<char>::empty();
    assert(a.contains(a[0]));
    slashes_separate_names(a, b);
    slashes_separate_names(nothing, a);
    slashes_separate_names(nothing, nothing);
    crate::text::separator_separates(a, b, '/');
    crate::text::separator_separates(nothing, a, '/');
    crate::text::split_is_never_empty(b, '/');
    assert(nothing + seq!['/'] + a =~= seq!['/'] + a);
    assert((crate::text::split(a, '/') + crate::text::split(b, '/'))[0] == a);
    let rooted = seq!['/'] + a;
    assert(crate::text::split(rooted, '/')[0] == nothing);
    assert(nothing != seq!['.']) by {
        assert(nothing.len() != seq!['.'].len());
    }
    assert(a.len() == 0 || a == seq!['.'] || names(a) == seq![a]);
}

} // verus!

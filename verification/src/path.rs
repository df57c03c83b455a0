//! Unix paths as text.

use vstd::prelude::*;

use crate::text::{
    chars_between, chars_of, join, join3, law_split_loses_nothing, pieces, same_chars, split, split_on,
};

verus! {

pub open spec fn is_absolute(path: Seq<char>) -> bool {
    path.len() > 0 && path[0] == '/'
}

/// A piece that names a directory entry: not empty and not `.`.
pub open spec fn is_named(piece: Seq<char>) -> bool {
    piece.len() > 0 && piece != "."@
}

pub open spec fn named_pieces(parts: Seq<Seq<char>>) -> Seq<Seq<char>>
    decreases parts.len(),
{
    if parts.len() == 0 {
        Seq::empty()
    } else {
        let rest = named_pieces(parts.drop_last());
        if is_named(parts.last()) {
            rest.push(parts.last())
        } else {
            rest
        }
    }
}

/// The entries that a path goes through: repeated separators and `.` name no
/// entry of their own.
pub open spec fn components(path: Seq<char>) -> Seq<Seq<char>> {
    named_pieces(split(path, '/'))
}

/// Whether two absolute paths go through the same entries.
pub open spec fn same_location(left: Seq<char>, right: Seq<char>) -> bool {
    is_absolute(left) == is_absolute(right) && components(left) == components(right)
}

/// A path taken from a directory: a relative one lies below it, an absolute one
/// stands for itself.
pub open spec fn joined(directory: Seq<char>, path: Seq<char>) -> Seq<char> {
    if is_absolute(path) {
        path
    } else if directory.len() == 0 || directory.last() == '/' {
        directory + path
    } else {
        directory + "/"@ + path
    }
}

/// Takes a path from a directory.
pub fn join_path(directory: &str, path: &str) -> (joint: String)
    ensures
        joint@ == joined(directory@, path@),
{
    if absolute(path) {
        return path.to_owned();
    }
    let chars = chars_of(directory);
    if chars.len() == 0 || chars[chars.len() - 1] == '/' {
        join(directory, path)
    } else {
        join3(directory, "/", path)
    }
}

/// The components of a path.
pub fn components_of(path: &str) -> (parts: Vec<Vec<char>>)
    ensures
        pieces(parts@) == components(path@),
{
    let all = split_on(&chars_of(path), '/');
    let dot = chars_of(".");
    let ghost parts_view = pieces(all@);
    let mut parts: Vec<Vec<char>> = Vec::new();
    let mut i: usize = 0;
    assert(parts_view.take(0) =~= Seq::<Seq<char>>::empty());
    assert(pieces(parts@) =~= Seq::<Seq<char>>::empty());
    while i < all.len()
        invariant
            i <= all@.len(),
            parts_view == pieces(all@),
            dot@ == "."@,
            pieces(parts@) == named_pieces(parts_view.take(i as int)),
        decreases all@.len() - i,
    {
        let ghost next = parts_view.take(i + 1);
        let ghost before = pieces(parts@);
        assert(next.drop_last() =~= parts_view.take(i as int));
        assert(next.last() == all@[i as int]@);
        let piece = &all[i];
        if piece.len() > 0 && !same_chars(piece, &dot) {
            assert(piece@.subrange(0, piece@.len() as int) =~= piece@);
            parts.push(chars_between(piece, 0, piece.len()));
            assert(pieces(parts@) =~= before.push(piece@));
        }
        i += 1;
    }
    assert(parts_view.take(i as int) =~= parts_view);
    parts
}

/// Whether `path` is one component below `root`.
pub open spec fn is_child(path: Seq<char>, root: Seq<char>) -> bool {
    components(path).len() > 0 && components(path).drop_last() == components(root)
}

/// Whether a path is one component below another.
pub fn child_of(path: &str, root: &str) -> (child: bool)
    ensures
        child == is_child(path@, root@),
{
    let below = components_of(path);
    let above = components_of(root);
    let ghost wanted = pieces(above@);
    let ghost found = pieces(below@);
    assert(found.len() == below@.len() && wanted.len() == above@.len());
    if below.len() == 0 || below.len() - 1 != above.len() {
        return false;
    }
    let mut i: usize = 0;
    while i < above.len()
        invariant
            i <= above@.len(),
            below@.len() == above@.len() + 1,
            wanted == pieces(above@),
            found == pieces(below@),
            wanted == components(root@),
            found == components(path@),
            forall|j: int| 0 <= j < i ==> #[trigger] found[j] == wanted[j],
        decreases above@.len() - i,
    {
        if !same_chars(&below[i], &above[i]) {
            assert(found.drop_last()[i as int] != wanted[i as int]);
            return false;
        }
        assert(found[i as int] == wanted[i as int]);
        i += 1;
    }
    assert(found.drop_last() =~= wanted);
    true
}

/// Whether two lists of pieces are equal.
pub fn same_pieces(left: &Vec<Vec<char>>, right: &Vec<Vec<char>>) -> (same: bool)
    ensures
        same == (pieces(left@) == pieces(right@)),
{
    let ghost a = pieces(left@);
    let ghost b = pieces(right@);
    if left.len() != right.len() {
        assert(a.len() != b.len());
        return false;
    }
    let mut i: usize = 0;
    while i < left.len()
        invariant
            i <= left@.len(),
            left@.len() == right@.len(),
            a == pieces(left@),
            b == pieces(right@),
            forall|j: int| 0 <= j < i ==> a[j] == b[j],
        decreases left@.len() - i,
    {
        if !same_chars(&left[i], &right[i]) {
            assert(a[i as int] != b[i as int]);
            return false;
        }
        i += 1;
    }
    assert(a =~= b);
    true
}

pub fn absolute(path: &str) -> (yes: bool)
    ensures
        yes == is_absolute(path@),
{
    let chars = chars_of(path);
    chars.len() > 0 && chars[0] == '/'
}

/// Whether two paths go through the same entries.
pub fn same_path(left: &str, right: &str) -> (same: bool)
    ensures
        same == same_location(left@, right@),
{
    absolute(left) == absolute(right) && same_pieces(&components_of(left), &components_of(right))
}

/// A text with a separator in front splits at that separator first.
proof fn lemma_split_after(left: Seq<char>, right: Seq<char>)
    ensures
        split(left + "/"@ + right, '/') == split(left, '/') + split(right, '/'),
    decreases left.len(),
{
    reveal_strlit("/");
    let whole = left + "/"@ + right;
    whole.index_of_first_ensures('/');
    left.index_of_first_ensures('/');
    assert(whole[left.len() as int] == '/');
    assert(whole.contains('/'));
    let at = whole.index_of_first('/').unwrap();
    if left.contains('/') {
        let k = left.index_of_first('/').unwrap();
        assert(whole[k] == '/');
        assert(at <= k);
        assert(left[at] == whole[at]);
        assert(at == k);
        assert(whole.take(at) =~= left.take(at));
        assert(whole.skip(at + 1) =~= left.skip(at + 1) + "/"@ + right);
        lemma_split_after(left.skip(at + 1), right);
        assert(split(whole, '/') =~= split(left, '/') + split(right, '/'));
    } else {
        if at < left.len() {
            assert(left[at] == '/');
        }
        assert(at == left.len());
        assert(whole.take(at) =~= left);
        assert(whole.skip(at + 1) =~= right);
        assert(split(whole, '/') =~= split(left, '/') + split(right, '/'));
    }
}

proof fn lemma_named_concat(left: Seq<Seq<char>>, right: Seq<Seq<char>>)
    ensures
        named_pieces(left + right) == named_pieces(left) + named_pieces(right),
    decreases right.len(),
{
    if right.len() == 0 {
        assert(left + right =~= left);
        assert(named_pieces(left) + named_pieces(right) =~= named_pieces(left));
    } else {
        lemma_named_concat(left, right.drop_last());
        assert((left + right).drop_last() =~= left + right.drop_last());
        assert((left + right).last() == right.last());
        assert(named_pieces(left + right) =~= named_pieces(left) + named_pieces(right));
    }
}

/// A relative path goes through the entries of its directory first: what is
/// found at a joined path lies inside that directory.
pub proof fn law_joined_path_stays_below(directory: Seq<char>, relative: Seq<char>)
    requires
        !is_absolute(relative),
    ensures
        components(joined(directory, relative)) == components(directory) + components(relative),
        is_absolute(joined(directory, relative)) == is_absolute(directory),
{
    reveal_strlit("/");
    if directory.len() == 0 {
        assert(directory =~= Seq::<char>::empty());
        lemma_nothing_is_named();
        assert(directory + relative =~= relative);
        assert(components(directory) + components(relative) =~= components(relative));
    } else if directory.last() == '/' {
        let front = directory.drop_last();
        let nothing = Seq::<char>::empty();
        assert(directory =~= front + "/"@ + nothing);
        assert(directory + relative =~= front + "/"@ + relative);
        lemma_split_after(front, relative);
        lemma_split_after(front, nothing);
        lemma_named_concat(split(front, '/'), split(relative, '/'));
        lemma_named_concat(split(front, '/'), split(nothing, '/'));
        lemma_nothing_is_named();
        assert(components(directory) =~= components(front));
    } else {
        lemma_split_after(directory, relative);
        lemma_named_concat(split(directory, '/'), split(relative, '/'));
    }
}

/// An empty path goes through no entry.
proof fn lemma_nothing_is_named()
    ensures
        components(Seq::<char>::empty()) == Seq::<Seq<char>>::empty(),
{
    let nothing = Seq::<char>::empty();
    nothing.index_of_first_ensures('/');
    let parts = split(nothing, '/');
    assert(parts =~= seq![nothing]);
    assert(parts.drop_last() =~= Seq::<Seq<char>>::empty());
    reveal_with_fuel(named_pieces, 2);
}

/// An entry that a path goes through is one of its pieces.
pub proof fn lemma_component_is_a_piece(parts: Seq<Seq<char>>, i: int)
    requires
        0 <= i < named_pieces(parts).len(),
    ensures
        parts.contains(named_pieces(parts)[i]),
        is_named(named_pieces(parts)[i]),
    decreases parts.len(),
{
    let shorter = parts.drop_last();
    if i < named_pieces(shorter).len() {
        lemma_component_is_a_piece(shorter, i);
        let k = shorter.index_of(named_pieces(shorter)[i]);
        assert(parts[k] == shorter[k]);
    } else {
        assert(parts[parts.len() - 1] == parts.last());
    }
}

/// A path whose first piece names an entry goes through one.
pub proof fn lemma_first_piece_is_named(parts: Seq<Seq<char>>)
    requires
        parts.len() > 0,
        is_named(parts[0]),
    ensures
        named_pieces(parts).len() > 0,
    decreases parts.len(),
{
    if parts.len() > 1 {
        lemma_first_piece_is_named(parts.drop_last());
    }
}

/// A component is never empty, never a lone dot and holds no slash.
pub proof fn law_components_are_names(path: Seq<char>, i: int)
    requires
        0 <= i < components(path).len(),
    ensures
        components(path)[i].len() > 0,
        components(path)[i] != seq!['.'],
        !components(path)[i].contains('/'),
{
    reveal_strlit(".");
    assert("."@ =~= seq!['.']);
    law_split_loses_nothing(path, '/');
    lemma_named_pieces(split(path, '/'), i);
}

proof fn lemma_named_pieces(parts: Seq<Seq<char>>, i: int)
    requires
        0 <= i < named_pieces(parts).len(),
    ensures
        is_named(named_pieces(parts)[i]),
        parts.contains(named_pieces(parts)[i]),
    decreases parts.len(),
{
    if parts.len() > 0 {
        let front = parts.drop_last();
        if i < named_pieces(front).len() {
            lemma_named_pieces(front, i);
            let k = front.index_of(named_pieces(front)[i]);
            assert(parts[k] == named_pieces(front)[i]);
        } else {
            assert(parts[parts.len() - 1] == parts.last());
        }
    }
}

/// A path joined to a directory: an absolute one stands for itself, another one
/// follows the directory behind exactly one slash.
pub proof fn law_joined_path_is_spelled_out(directory: Seq<char>, path: Seq<char>)
    ensures
        path.len() > 0 && path[0] == '/' ==> joined(directory, path) == path,
        !(path.len() > 0 && path[0] == '/') && directory.len() > 0 && directory.last() != '/'
            ==> joined(directory, path) == directory + seq!['/'] + path,
        !(path.len() > 0 && path[0] == '/') && directory.len() > 0 && directory.last() == '/'
            ==> joined(directory, path) == directory + path,
{
    reveal_strlit("/");
    assert("/"@ =~= seq!['/']);
}

} // verus!

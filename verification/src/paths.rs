//! Paths as text, with `/` between the components.
//!
//! Two texts are the same path when they have the same components: a doubled
//! or trailing `/` and a `.` inside a path make no difference.

use crate::pattern::chars_of;
use vstd::prelude::*;
use vstd::string::*;

verus! {

/// `base` continued by `part`. A `part` that starts at the root replaces
/// `base`; otherwise `part` follows `base`, after a `/` unless `base` is empty
/// or already ends in one.
pub open spec fn joined(base: Seq<char>, part: Seq<char>) -> Seq<char> {
    if part.len() > 0 && part[0] == '/' {
        part
    } else if base.len() == 0 || base.last() == '/' {
        base + part
    } else {
        base + seq!['/'] + part
    }
}

/// The path `base` continued by `part`.
pub fn join_path(base: &str, part: &str) -> (path: String)
    ensures
        path@ == joined(base@, part@),
{
    if part.unicode_len() > 0 && part.get_char(0) == '/' {
        return part.to_owned();
    }
    let mut path: String = base.to_owned();
    let length: usize = base.unicode_len();
    if length > 0 && base.get_char(length - 1) != '/' {
        proof {
            reveal_strlit("/");
        }
        path.append("/");
        assert(path@ == base@ + seq!['/']);
    }
    path.append(part);
    path
}

/// Whether `path` begins with the characters of `base`.
pub open spec fn starts_with(path: Seq<char>, base: Seq<char>) -> bool {
    base.len() <= path.len() && path.subrange(0, base.len() as int) == base
}

/// What is joined to a path follows it: unless the part starts at the root,
/// the result begins with the path and ends with the part.
pub proof fn lemma_joined_extends(base: Seq<char>, part: Seq<char>)
    requires
        part.len() == 0 || part[0] != '/',
    ensures
        starts_with(joined(base, part), base),
        joined(base, part).subrange(
            joined(base, part).len() - part.len(),
            joined(base, part).len() as int,
        ) == part,
{
    let path = joined(base, part);
    assert(path.subrange(0, base.len() as int) =~= base);
    assert(path.subrange(path.len() - part.len(), path.len() as int) =~= part);
}

/// The pieces that the separators cut a path into, empty ones included. A
/// path without a separator is one piece.
pub open spec fn pieces(path: Seq<char>) -> Seq<Seq<char>>
    decreases path.len(),
{
    if path.len() == 0 {
        seq![Seq::<char>::empty()]
    } else {
        let before = pieces(path.drop_last());
        if path.last() == '/' {
            before.push(Seq::<char>::empty())
        } else {
            before.drop_last().push(before.last().push(path.last()))
        }
    }
}

/// Whether the piece with the given index is a component: it is not empty,
/// and it is not `.`, unless the path starts with it.
pub open spec fn is_component(piece: Seq<char>, index: int) -> bool {
    piece.len() > 0 && (index == 0 || piece != seq!['.'])
}

/// Those of the pieces that are components, in order.
pub open spec fn kept(all: Seq<Seq<char>>) -> Seq<Seq<char>>
    decreases all.len(),
{
    if all.len() == 0 {
        Seq::<Seq<char>>::empty()
    } else if is_component(all.last(), all.len() - 1) {
        kept(all.drop_last()).push(all.last())
    } else {
        kept(all.drop_last())
    }
}

/// What a path consists of.
pub struct Components {
    /// Whether the path starts at the root.
    pub rooted: bool,
    /// The names on the way, in order.
    pub parts: Seq<Seq<char>>,
}

/// What `path` consists of.
pub open spec fn components(path: Seq<char>) -> Components {
    Components { rooted: path.len() > 0 && path[0] == '/', parts: kept(pieces(path)) }
}

/// Whether two texts are the same path.
pub open spec fn same_path(left: Seq<char>, right: Seq<char>) -> bool {
    components(left) == components(right)
}

/// The last component of a path, unless it is `.` or `..`: the name of the
/// file or directory that the path leads to.
pub open spec fn file_name_of(path: Seq<char>) -> Option<Seq<char>> {
    let parts = components(path).parts;
    if parts.len() > 0 && parts.last() != seq!['.'] && parts.last() != seq!['.', '.'] {
        Some(parts.last())
    } else {
        None
    }
}

/// Whether `name` can be the name of a file: it is not empty, holds no
/// separator, and is neither `.` nor `..`.
pub open spec fn is_plain_name(name: Seq<char>) -> bool {
    &&& name.len() > 0
    &&& forall|k: int| 0 <= k < name.len() ==> name[k] != '/'
    &&& name != seq!['.']
    &&& name != seq!['.', '.']
}

proof fn lemma_pieces_not_empty(path: Seq<char>)
    ensures
        pieces(path).len() > 0,
    decreases path.len(),
{
    if path.len() > 0 {
        lemma_pieces_not_empty(path.drop_last());
    }
}

proof fn lemma_pieces_of_continued(path: Seq<char>, more: Seq<char>)
    requires
        forall|k: int| 0 <= k < more.len() ==> more[k] != '/',
    ensures
        pieces(path).len() > 0,
        pieces(path + more) == pieces(path).drop_last().push(pieces(path).last() + more),
    decreases more.len(),
{
    lemma_pieces_not_empty(path);
    let cut = pieces(path);
    if more.len() == 0 {
        assert(path + more =~= path);
        assert(cut.last() + more =~= cut.last());
        assert(cut.drop_last().push(cut.last()) =~= cut);
    } else {
        let shorter = more.drop_last();
        lemma_pieces_of_continued(path, shorter);
        assert((path + more).drop_last() =~= path + shorter);
        assert((cut.last() + shorter).push(more.last()) =~= cut.last() + more);
        let before = pieces(path + shorter);
        assert(before.drop_last() =~= cut.drop_last());
    }
}

/// A file keeps its name where it is put: the name of what `name` leads to
/// below any directory is `name`.
pub proof fn lemma_file_name_of_joined(dir: Seq<char>, name: Seq<char>)
    requires
        is_plain_name(name),
    ensures
        file_name_of(joined(dir, name)) == Some(name),
{
    let above = if dir.len() == 0 || dir.last() == '/' {
        dir
    } else {
        dir.push('/')
    };
    assert(joined(dir, name) =~= above + name);
    lemma_pieces_of_continued(above, name);
    let cut = pieces(above);
    if above.len() > 0 {
        lemma_pieces_not_empty(above.drop_last());
    }
    assert(cut.last() =~= Seq::<char>::empty());
    assert(cut.last() + name =~= name);
    let all = pieces(above + name);
    assert(all.last() == name);
    assert(is_component(name, all.len() - 1));
}

/// The characters of each text.
pub open spec fn texts(list: Seq<String>) -> Seq<Seq<char>> {
    list.map_values(|text: String| text@)
}

/// What a path consists of, worked out once.
pub struct PathParts {
    /// Whether the path starts at the root.
    pub rooted: bool,
    /// The names on the way, in order.
    pub parts: Vec<String>,
}

impl View for PathParts {
    type V = Components;

    open spec fn view(&self) -> Components {
        Components { rooted: self.rooted, parts: texts(self.parts@) }
    }
}

/// Cuts a path at its separators.
fn split_pieces(path: &str) -> (all: Vec<String>)
    ensures
        texts(all@) == pieces(path@),
{
    let chars = chars_of(path);
    let mut all: Vec<String> = Vec::new();
    let mut start: usize = 0;
    let mut at: usize = 0;
    assert(chars@.subrange(0, 0) =~= Seq::<char>::empty());
    assert(chars@.take(0) =~= Seq::<char>::empty());
    assert(pieces(chars@.take(0)) =~= texts(all@).push(chars@.subrange(0, 0)));
    while at < chars.len()
        invariant
            chars@ == path@,
            start <= at <= chars.len(),
            pieces(chars@.take(at as int)) == texts(all@).push(
                chars@.subrange(start as int, at as int),
            ),
        decreases chars.len() - at,
    {
        let ghost before = texts(all@);
        let ghost prefix = chars@.take(at + 1);
        assert(prefix.drop_last() =~= chars@.take(at as int));
        if chars[at] == '/' {
            let piece: String = path.substring_char(start, at).to_owned();
            all.push(piece);
            start = at + 1;
            assert(texts(all@) =~= before.push(piece@));
            assert(chars@.subrange(start as int, at + 1) =~= Seq::<char>::empty());
            assert(pieces(prefix) =~= texts(all@).push(chars@.subrange(start as int, at + 1)));
        } else {
            assert(chars@.subrange(start as int, at as int).push(chars@[at as int])
                =~= chars@.subrange(start as int, at + 1));
            assert(pieces(prefix) =~= before.push(chars@.subrange(start as int, at + 1)));
        }
        at = at + 1;
    }
    let ghost before = texts(all@);
    let piece: String = path.substring_char(start, at).to_owned();
    all.push(piece);
    assert(texts(all@) =~= before.push(piece@));
    assert(chars@.take(at as int) =~= chars@);
    all
}

/// What `path` consists of.
pub fn path_parts(path: &str) -> (parts: PathParts)
    ensures
        parts@ == components(path@),
{
    let all = split_pieces(path);
    let dot: String = ".".to_owned();
    proof {
        reveal_strlit(".");
    }
    let mut parts: Vec<String> = Vec::new();
    let mut index: usize = 0;
    assert(texts(parts@) =~= kept(texts(all@).take(0)));
    while index < all.len()
        invariant
            index <= all.len(),
            dot@ == seq!['.'],
            texts(parts@) == kept(texts(all@).take(index as int)),
        decreases all.len() - index,
    {
        let ghost before = texts(parts@);
        let ghost upto = texts(all@).take(index + 1);
        assert(upto.drop_last() =~= texts(all@).take(index as int));
        assert(upto.last() == all@[index as int]@);
        let piece: &String = &all[index];
        if !piece.as_str().is_empty() && (index == 0 || !(*piece == dot)) {
            let copy: String = piece.clone();
            parts.push(copy);
            assert(texts(parts@) =~= before.push(copy@));
        }
        index = index + 1;
    }
    assert(texts(all@).take(index as int) =~= texts(all@));
    let rooted: bool = path.unicode_len() > 0 && path.get_char(0) == '/';
    PathParts { rooted, parts }
}

/// Whether two paths consist of the same.
pub fn same_parts(left: &PathParts, right: &PathParts) -> (same: bool)
    ensures
        same == (left@ == right@),
{
    if left.rooted != right.rooted || left.parts.len() != right.parts.len() {
        assert(texts(left.parts@).len() != texts(right.parts@).len() || left.rooted
            != right.rooted);
        return false;
    }
    let mut index: usize = 0;
    while index < left.parts.len()
        invariant
            index <= left.parts.len(),
            left.parts.len() == right.parts.len(),
            left.rooted == right.rooted,
            forall|k: int| 0 <= k < index ==> left.parts@[k]@ == right.parts@[k]@,
        decreases left.parts.len() - index,
    {
        if !(left.parts[index] == right.parts[index]) {
            assert(texts(left.parts@)[index as int] != texts(right.parts@)[index as int]);
            return false;
        }
        index = index + 1;
    }
    assert(texts(left.parts@) =~= texts(right.parts@));
    true
}

/// Whether two texts are the same path.
pub fn is_same_path(left: &str, right: &str) -> (same: bool)
    ensures
        same == same_path(left@, right@),
{
    let left_parts = path_parts(left);
    let right_parts = path_parts(right);
    same_parts(&left_parts, &right_parts)
}

/// The name of the file or directory that a path leads to: its last
/// component, unless that is `.` or `..`.
pub fn file_name(path: &str) -> (name: Option<String>)
    ensures
        match name {
            Some(text) => file_name_of(path@) == Some(text@),
            None => file_name_of(path@) is None,
        },
{
    let found = path_parts(path);
    let count: usize = found.parts.len();
    if count == 0 {
        return None;
    }
    let dot: String = ".".to_owned();
    let dots: String = "..".to_owned();
    proof {
        reveal_strlit(".");
        reveal_strlit("..");
        assert(dot@ =~= seq!['.']);
        assert(dots@ =~= seq!['.', '.']);
    }
    let last: &String = &found.parts[count - 1];
    assert(texts(found.parts@).last() == last@);
    if *last == dot || *last == dots {
        None
    } else {
        Some(last.clone())
    }
}

} // verus!

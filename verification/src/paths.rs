//! Unix paths as text: components, prefixes, file names and joining.
use vstd::prelude::*;

use crate::text::{append_text, begins_with, chars_of, opt_text, string_of};

verus! {

/// The pieces between the slashes of a path, empty ones included.
pub open spec fn segments(path: Seq<char>) -> Seq<Seq<char>>
    decreases path.len(),
{
    if path.len() == 0 {
        seq![Seq::empty()]
    } else {
        let shorter = segments(path.drop_last());
        if path.last() == '/' {
            shorter.push(Seq::empty())
        } else {
            shorter.drop_last().push(shorter.last().push(path.last()))
        }
    }
}

/// A piece that stands for itself: neither empty nor the current directory.
pub open spec fn proper_segment(segment: Seq<char>) -> bool {
    segment.len() > 0 && segment != seq!['.']
}

/// The pieces that stand for themselves, in order.
pub open spec fn proper_segments(pieces: Seq<Seq<char>>) -> Seq<Seq<char>> {
    pieces.filter(|piece: Seq<char>| proper_segment(piece))
}

/// The components of a path: `/` for the root of an absolute path, then each
/// piece. Repeated and trailing slashes and `.` pieces are dropped, except
/// for a `.` at the very start of a relative path.
pub open spec fn components(path: Seq<char>) -> Seq<Seq<char>> {
    let pieces = segments(path);
    if path.len() > 0 && path[0] == '/' {
        seq![seq!['/']] + proper_segments(pieces)
    } else if pieces[0] == seq!['.'] {
        seq![seq!['.']] + proper_segments(pieces)
    } else {
        proper_segments(pieces)
    }
}

/// `path` is `base` or lies below it, compared component by component.
pub open spec fn below(path: Seq<char>, base: Seq<char>) -> bool {
    components(base).is_prefix_of(components(path))
}

/// The position of the last dot, or -1.
pub open spec fn last_dot(name: Seq<char>) -> int
    decreases name.len(),
{
    if name.len() == 0 {
        -1
    } else if name.last() == '.' {
        name.len() - 1
    } else {
        last_dot(name.drop_last())
    }
}

/// A file name without its extension. A name whose only dot is the leading
/// one has no extension.
pub open spec fn stem_of_name(name: Seq<char>) -> Seq<char> {
    if last_dot(name) <= 0 {
        name
    } else {
        name.take(last_dot(name))
    }
}

/// The extension of a file name, without the dot.
pub open spec fn extension_of_name(name: Seq<char>) -> Option<Seq<char>> {
    if last_dot(name) <= 0 {
        None
    } else {
        Some(name.skip(last_dot(name) + 1))
    }
}

/// The last component of a path, unless the path ends in the root, in `..`
/// or in a lone `.`.
pub open spec fn file_name(path: Seq<char>) -> Option<Seq<char>> {
    let parts = components(path);
    if parts.len() == 0 {
        None
    } else if parts.last() == seq!['/'] || parts.last() == seq!['.', '.'] || parts.last() == seq![
        '.',
    ] {
        None
    } else {
        Some(parts.last())
    }
}

/// The file name of a path without its extension.
pub open spec fn file_stem(path: Seq<char>) -> Option<Seq<char>> {
    match file_name(path) {
        Some(name) => Some(stem_of_name(name)),
        None => None,
    }
}

/// The path `rest` as seen from `base`: below it, unless `rest` is absolute.
pub open spec fn joined(base: Seq<char>, rest: Seq<char>) -> Seq<char> {
    if rest.len() > 0 && rest[0] == '/' {
        rest
    } else if base.len() == 0 || base.last() == '/' {
        base + rest
    } else {
        base.push('/') + rest
    }
}

/// The contents of a list of character vectors.
pub open spec fn pieces_view(list: Seq<Vec<char>>) -> Seq<Seq<char>> {
    Seq::new(list.len(), |i: int| list[i]@)
}

proof fn segments_nonempty(path: Seq<char>)
    ensures
        segments(path).len() > 0,
    decreases path.len(),
{
    if path.len() > 0 {
        segments_nonempty(path.drop_last());
    }
}

fn split_segments(path: &Vec<char>) -> (r: Vec<Vec<char>>)
    ensures
        pieces_view(r@) == segments(path@),
        r.len() > 0,
{
    let mut out: Vec<Vec<char>> = Vec::new();
    let mut current: Vec<char> = Vec::new();
    assert(pieces_view(out@).push(current@) =~= segments(path@.take(0)));
    for i in 0..path.len()
        invariant
            pieces_view(out@).push(current@) == segments(path@.take(i as int)),
    {
        let ghost before = pieces_view(out@);
        let ghost held = current@;
        assert(path@.take(i + 1).drop_last() =~= path@.take(i as int));
        if path[i] == '/' {
            out.push(current);
            current = Vec::new();
            assert(pieces_view(out@) =~= before.push(held));
        } else {
            current.push(path[i]);
            assert(before.push(held).drop_last() =~= before);
        }
        assert(pieces_view(out@).push(current@) =~= segments(path@.take(i + 1)));
    }
    assert(path@.take(path@.len() as int) =~= path@);
    let ghost before = pieces_view(out@);
    out.push(current);
    assert(pieces_view(out@) =~= before.push(current@));
    out
}

fn is_single(piece: &Vec<char>, c: char) -> (r: bool)
    ensures
        r == (piece@ == seq![c]),
{
    let r = piece.len() == 1 && piece[0] == c;
    proof {
        if r {
            assert(piece@ =~= seq![c]);
        }
    }
    r
}

/// The components of `path`.
pub fn path_components(path: &str) -> (r: Vec<Vec<char>>)
    ensures
        pieces_view(r@) == components(path@),
{
    let chars = chars_of(path);
    let pieces = split_segments(&chars);
    let mut out: Vec<Vec<char>> = Vec::new();
    if chars.len() > 0 && chars[0] == '/' {
        let mut root: Vec<char> = Vec::new();
        root.push('/');
        assert(root@ =~= seq!['/']);
        out.push(root);
    } else if is_single(&pieces[0], '.') {
        let mut here: Vec<char> = Vec::new();
        here.push('.');
        assert(here@ =~= seq!['.']);
        out.push(here);
    }
    let ghost start = pieces_view(out@);
    let ghost whole = pieces_view(pieces@);
    let ghost keep = |piece: Seq<char>| proper_segment(piece);
    proof {
        assert(whole.take(0) =~= Seq::empty());
        assert(whole.take(0).filter(keep) =~= Seq::empty()) by {
            reveal(Seq::filter);
        }
        assert(pieces_view(out@) =~= start + whole.take(0).filter(keep));
    }
    for i in 0..pieces.len()
        invariant
            whole == pieces_view(pieces@),
            keep == (|piece: Seq<char>| proper_segment(piece)),
            pieces_view(out@) == start + whole.take(i as int).filter(keep),
    {
        proof {
            assert(whole.take(i + 1) =~= whole.take(i as int).push(whole[i as int]));
            whole.take(i as int).lemma_filter_push(whole[i as int], keep);
        }
        let ghost before = pieces_view(out@);
        if pieces[i].len() > 0 && !is_single(&pieces[i], '.') {
            let piece = pieces[i].clone();
            assert(piece@ =~= pieces@[i as int]@);
            out.push(piece);
            assert(pieces_view(out@) =~= before.push(whole[i as int]));
            assert(pieces_view(out@) =~= start + whole.take(i + 1).filter(keep));
        } else {
            assert(pieces_view(out@) =~= start + whole.take(i + 1).filter(keep));
        }
    }
    assert(whole.take(pieces@.len() as int) =~= whole);
    assert(pieces_view(out@) =~= components(path@));
    out
}

fn same_chars(a: &Vec<char>, b: &Vec<char>) -> (r: bool)
    ensures
        r == (a@ == b@),
{
    let r = a.len() == b.len() && begins_with(a, b);
    assert(r ==> a@ =~= b@);
    assert(a@ == b@ ==> b@ =~= a@.subrange(0, b@.len() as int));
    r
}

/// Whether `path` is `base` or lies below it.
pub fn path_starts_with(path: &str, base: &str) -> (r: bool)
    ensures
        r == below(path@, base@),
{
    let inner = path_components(path);
    let outer = path_components(base);
    let ghost inner_v = pieces_view(inner@);
    let ghost outer_v = pieces_view(outer@);
    if outer.len() > inner.len() {
        return false;
    }
    for i in 0..outer.len()
        invariant
            outer.len() <= inner.len(),
            inner_v == pieces_view(inner@),
            outer_v == pieces_view(outer@),
            inner_v == components(path@),
            outer_v == components(base@),
            forall|j: int| 0 <= j < i ==> outer_v[j] == inner_v[j],
    {
        if !same_chars(&outer[i], &inner[i]) {
            assert(outer_v[i as int] != inner_v.subrange(0, outer_v.len() as int)[i as int]);
            return false;
        }
    }
    assert(outer_v =~= inner_v.subrange(0, outer_v.len() as int));
    true
}

fn last_dot_of(name: &Vec<char>) -> (r: usize)
    ensures
        last_dot(name@) <= 0 ==> r == 0,
        last_dot(name@) > 0 ==> r == last_dot(name@),
        r < name.len() || r == 0,
{
    let mut i: usize = name.len();
    assert(name@.take(i as int) =~= name@);
    while i > 0
        invariant
            i <= name.len(),
            last_dot(name@) == last_dot(name@.take(i as int)),
        decreases i,
    {
        assert(name@.take(i as int).drop_last() =~= name@.take(i - 1));
        if name[i - 1] == '.' {
            return i - 1;
        }
        i -= 1;
    }
    0
}

proof fn last_dot_bounds(name: Seq<char>)
    ensures
        -1 <= last_dot(name) < name.len(),
    decreases name.len(),
{
    if name.len() > 0 {
        last_dot_bounds(name.drop_last());
    }
}

/// The file name of `path` without its extension.
pub fn path_file_stem(path: &str) -> (r: Option<String>)
    ensures
        opt_text(r) == file_stem(path@),
{
    let parts = path_components(path);
    let ghost view = pieces_view(parts@);
    if parts.len() == 0 {
        return None;
    }
    let name = &parts[parts.len() - 1];
    assert(name@ == view.last());
    let parent = name.len() == 2 && name[0] == '.' && name[1] == '.';
    proof {
        if parent {
            assert(name@ =~= seq!['.', '.']);
        }
    }
    if is_single(name, '/') || parent || is_single(name, '.') {
        return None;
    }
    let cut = last_dot_of(name);
    proof {
        last_dot_bounds(name@);
    }
    if cut == 0 {
        Some(string_of(name))
    } else {
        let mut stem = name.clone();
        assert(stem@ =~= name@);
        stem.truncate(cut);
        assert(stem@ =~= name@.take(cut as int));
        Some(string_of(&stem))
    }
}

/// Whether the extension of a file name is `wanted`.
pub fn name_has_extension(name: &str, wanted: &str) -> (r: bool)
    ensures
        r == (extension_of_name(name@) == Some(wanted@)),
{
    let chars = chars_of(name);
    let cut = last_dot_of(&chars);
    proof {
        last_dot_bounds(chars@);
    }
    if cut == 0 {
        return false;
    }
    let mut tail: Vec<char> = Vec::new();
    for i in cut + 1..chars.len()
        invariant
            cut < chars.len(),
            cut + 1 <= i <= chars.len(),
            tail@ == chars@.subrange(cut + 1, i as int),
    {
        tail.push(chars[i]);
        assert(tail@ =~= chars@.subrange(cut + 1, i + 1));
    }
    assert(tail@ =~= name@.skip(last_dot(name@) + 1));
    same_chars(&tail, &chars_of(wanted))
}

/// The path `rest` as seen from `base`.
pub fn join(base: &str, rest: &str) -> (r: String)
    ensures
        r@ == joined(base@, rest@),
{
    let rest_chars = chars_of(rest);
    if rest_chars.len() > 0 && rest_chars[0] == '/' {
        return rest.to_owned();
    }
    let chars = chars_of(base);
    let mut out = string_of(&chars);
    if chars.len() > 0 && chars[chars.len() - 1] != '/' {
        out.push('/');
    }
    append_text(&mut out, rest);
    out
}

} // verus!

//! Paths: laws on joining, prefixes and file names.
use vstd::prelude::*;

use crate::paths::{
    below, components, extension_of_name, file_name, file_stem, joined, last_dot, proper_segment,
    proper_segments, segments, stem_of_name,
};

verus! {

proof fn segments_after_slash(base: Seq<char>, rest: Seq<char>)
    ensures
        segments(base).len() > 0,
        segments(rest).len() > 0,
        segments(base.push('/') + rest) == segments(base) + segments(rest),
    decreases base.len() + rest.len(),
{
    if base.len() > 0 {
        segments_after_slash(base.drop_last(), Seq::empty());
    }
    if rest.len() == 0 {
        assert(base.push('/') + rest =~= base.push('/'));
        assert(base.push('/').drop_last() =~= base);
        assert(segments(base) + segments(rest) =~= segments(base).push(Seq::empty()));
    } else {
        let front = rest.drop_last();
        segments_after_slash(base, front);
        let whole = base.push('/') + rest;
        assert(whole.drop_last() =~= base.push('/') + front);
        assert(whole.last() == rest.last());
        if rest.last() == '/' {
            assert((segments(base) + segments(front)).push(Seq::empty()) =~= segments(base)
                + segments(front).push(Seq::empty()));
        } else {
            let shorter = segments(base) + segments(front);
            assert(shorter.last() == segments(front).last());
            assert(shorter.drop_last() =~= segments(base) + segments(front).drop_last());
            assert(shorter.drop_last().push(shorter.last().push(rest.last())) =~= segments(base)
                + segments(front).drop_last().push(segments(front).last().push(rest.last())));
        }
    }
}

proof fn segments_without_slash(name: Seq<char>)
    requires
        !name.contains('/'),
    ensures
        segments(name) == seq![name],
    decreases name.len(),
{
    if name.len() > 0 {
        let front = name.drop_last();
        assert forall|i: int| 0 <= i < front.len() implies front[i] != '/' by {
            assert(front[i] == name[i]);
        }
        segments_without_slash(front);
        assert(name[name.len() - 1] == name.last());
        assert(name.last() != '/');
        assert(seq![front].drop_last().push(front.push(name.last())) =~= seq![name]) by {
            assert(front.push(name.last()) =~= name);
        }
    } else {
        assert(name =~= Seq::empty());
    }
}

proof fn components_of_joined(base: Seq<char>, rest: Seq<char>)
    requires
        rest.len() == 0 || rest[0] != '/',
        base.len() > 0,
    ensures
        components(joined(base, rest)) == components(base) + proper_segments(segments(rest)),
{
    reveal(Seq::filter);
    let keep = |piece: Seq<char>| proper_segment(piece);
    let whole = joined(base, rest);
    if base.last() == '/' {
        let short = base.drop_last();
        assert(base =~= short.push('/'));
        assert(whole =~= short.push('/') + rest);
        segments_after_slash(short, rest);
        segments_after_slash(short, Seq::empty());
        assert(short.push('/') + Seq::<char>::empty() =~= base);
        Seq::filter_distributes_over_add(segments(short), segments(rest), keep);
        segments(short).lemma_filter_push(Seq::empty(), keep);
        assert(segments(base) =~= segments(short).push(Seq::empty()));
        assert(!proper_segment(Seq::empty()));
    } else {
        segments_after_slash(base, rest);
        Seq::filter_distributes_over_add(segments(base), segments(rest), keep);
        assert(whole =~= base.push('/') + rest);
    }
    assert(whole[0] == base[0]);
    assert(segments(whole)[0] == segments(base)[0]);
    assert(proper_segments(segments(whole)) == proper_segments(segments(base)) + proper_segments(
        segments(rest),
    ));
    assert(components(whole) =~= components(base) + proper_segments(segments(rest)));
}

/// A path that is joined to another lies below it, unless it is absolute, and then
/// it is taken as it is.
pub proof fn joined_paths_lie_below(base: Seq<char>, rest: Seq<char>)
    ensures
        rest.len() == 0 || rest[0] != '/' ==> below(joined(base, rest), base),
        rest.len() > 0 && rest[0] == '/' ==> joined(base, rest) == rest,
        base.len() == 0 ==> joined(base, rest) == rest,
{
    if base.len() == 0 {
        assert(base =~= Seq::empty());
        assert(base + rest =~= rest);
        assert(segments(base)[0].len() == 0);
        reveal(Seq::filter);
        Seq::<Seq<char>>::empty().lemma_filter_push(
            Seq::empty(),
            |piece: Seq<char>| proper_segment(piece),
        );
        assert(segments(base) =~= Seq::<Seq<char>>::empty().push(Seq::empty()));
        assert(components(base).len() == 0);
        assert(components(base).is_prefix_of(components(rest)));
    } else if rest.len() == 0 || rest[0] != '/' {
        components_of_joined(base, rest);
        let whole = components(joined(base, rest));
        assert(whole.subrange(0, components(base).len() as int) =~= components(base));
    }
}

/// Every path lies below itself, and what lies below a path that lies below a
/// third lies below the third.
pub proof fn lying_below_is_a_preorder(a: Seq<char>, b: Seq<char>, c: Seq<char>)
    ensures
        below(a, a),
        below(a, b) && below(b, c) ==> below(a, c),
        below(a, b) && below(b, a) ==> components(a) == components(b),
{
    assert(components(a).subrange(0, components(a).len() as int) =~= components(a));
    if below(a, b) && below(b, c) {
        assert(components(a).subrange(0, components(c).len() as int) =~= components(c)) by {
            assert(components(b).subrange(0, components(c).len() as int) =~= components(c));
        }
    }
    if below(a, b) && below(b, a) {
        assert(components(a) =~= components(b));
    }
}

/// A name that is joined to a path is the file name of the result.
pub proof fn a_joined_name_is_the_file_name(base: Seq<char>, name: Seq<char>)
    requires
        name.len() > 0,
        !name.contains('/'),
        name != seq!['.'],
        name != seq!['.', '.'],
    ensures
        file_name(joined(base, name)) == Some(name),
        file_stem(joined(base, name)) == Some(stem_of_name(name)),
{
    assert(name[0] != '/');
    segments_without_slash(name);
    reveal(Seq::filter);
    let keep = |piece: Seq<char>| proper_segment(piece);
    Seq::<Seq<char>>::empty().lemma_filter_push(name, keep);
    assert(seq![name] =~= Seq::<Seq<char>>::empty().push(name));
    assert(proper_segments(segments(name)) =~= seq![name]);
    assert(seq!['/'][0] == '/');
    if base.len() > 0 {
        components_of_joined(base, name);
    } else {
        assert(base + name =~= name);
        assert(segments(name)[0] == name);
    }
    assert(components(joined(base, name)).last() == name);
}

proof fn last_dot_is_last(name: Seq<char>)
    ensures
        -1 <= last_dot(name) < name.len(),
        last_dot(name) >= 0 ==> name[last_dot(name)] == '.',
        forall|i: int| last_dot(name) < i < name.len() ==> #[trigger] name[i] != '.',
    decreases name.len(),
{
    if name.len() > 0 && name.last() != '.' {
        last_dot_is_last(name.drop_last());
        assert forall|i: int| last_dot(name) < i < name.len() implies #[trigger] name[i] != '.' by {
            if i < name.len() - 1 {
                assert(name.drop_last()[i] == name[i]);
            }
        }
    }
}

/// A name that is made of a stem, a dot and an extension without a dot falls into
/// these two; one without a dot is all stem, and so is one that starts with its
/// only dot.
pub proof fn a_name_is_its_stem_and_extension(stem: Seq<char>, extension: Seq<char>)
    requires
        !extension.contains('.'),
    ensures
        stem.len() > 0 ==> stem_of_name(stem.push('.') + extension) == stem && extension_of_name(
            stem.push('.') + extension,
        ) == Some(extension),
        stem_of_name(extension) == extension,
        extension_of_name(extension) is None,
        stem_of_name(seq!['.'] + extension) == seq!['.'] + extension,
        extension_of_name(seq!['.'] + extension) is None,
{
    let name = stem.push('.') + extension;
    last_dot_is_last(name);
    assert(name[stem.len() as int] == '.');
    if last_dot(name) > stem.len() {
        assert(name[last_dot(name)] == extension[last_dot(name) - stem.len() - 1]);
    }
    assert(last_dot(name) == stem.len());
    assert(name.take(stem.len() as int) =~= stem);
    assert(name.skip(stem.len() as int + 1) =~= extension);
    last_dot_is_last(extension);
    let hidden = seq!['.'] + extension;
    last_dot_is_last(hidden);
    if last_dot(hidden) > 0 {
        assert(hidden[last_dot(hidden)] == extension[last_dot(hidden) - 1]);
    }
}

/// A name has an extension, one without a dot, exactly if it ends in a dot and the
/// extension and something stands before that.
pub proof fn an_extension_is_an_ending(name: Seq<char>, extension: Seq<char>)
    requires
        !extension.contains('.'),
    ensures
        extension_of_name(name) == Some(extension) <==> name.len() > extension.len() + 1 && (seq![
            '.',
        ] + extension).is_suffix_of(name),
{
    let ending = seq!['.'] + extension;
    last_dot_is_last(name);
    if name.len() > extension.len() + 1 && ending.is_suffix_of(name) {
        let stem = name.take(name.len() - ending.len());
        assert forall|i: int| 0 <= i < ending.len() implies name[stem.len() + i] == ending[i] by {
            assert(name.subrange(stem.len() as int, name.len() as int)[i] == ending[i]);
        }
        assert(name =~= stem.push('.') + extension) by {
            assert forall|i: int| 0 <= i < name.len() implies name[i] == (stem.push('.')
                + extension)[i] by {
                if i >= stem.len() {
                    assert(name[stem.len() + (i - stem.len())] == ending[i - stem.len()]);
                }
            }
        }
        a_name_is_its_stem_and_extension(stem, extension);
    }
    if extension_of_name(name) == Some(extension) {
        let dot = last_dot(name);
        assert(name.skip(dot + 1) == extension);
        assert(name.subrange(dot, name.len() as int) =~= ending) by {
            assert forall|i: int| 0 <= i < ending.len() implies name.subrange(
                dot,
                name.len() as int,
            )[i] == ending[i] by {
                if i > 0 {
                    assert(name.skip(dot + 1)[i - 1] == name[dot + i]);
                }
            }
        }
    }
}

/// How a path falls into components: the root of an absolute path is one, each
/// further name adds one, whatever it is, and neither a slash at the end nor a name
/// that stands for the same directory adds any.
pub proof fn each_name_is_a_component(path: Seq<char>, name: Seq<char>)
    requires
        path.len() > 0,
        name.len() > 0,
        !name.contains('/'),
        name != seq!['.'],
    ensures
        components(Seq::empty()).len() == 0,
        components(seq!['/']) == seq![seq!['/']],
        components(name) == seq![name],
        components(seq!['.']) == seq![seq!['.']],
        components(joined(path, name)) == components(path).push(name),
        components(joined(path, seq!['.'])) == components(path),
        components(path.push('/')) == components(path),
{
    reveal(Seq::filter);
    let keep = |piece: Seq<char>| proper_segment(piece);
    let none = Seq::<Seq<char>>::empty();
    assert(name[0] != '/');
    segments_without_slash(name);
    none.lemma_filter_push(name, keep);
    assert(seq![name] =~= none.push(name));
    assert(proper_segments(segments(name)) =~= seq![name]);
    components_of_joined(path, name);
    assert(components(path) + seq![name] =~= components(path).push(name));
    let dot = seq!['.'];
    assert(!dot.contains('/'));
    segments_without_slash(dot);
    none.lemma_filter_push(dot, keep);
    assert(seq![dot] =~= none.push(dot));
    assert(proper_segments(segments(dot)) =~= none);
    components_of_joined(path, dot);
    assert(components(path) + none =~= components(path));
    assert(seq![dot] + none =~= seq![dot]);
    none.lemma_filter_push(Seq::empty(), keep);
    assert(segments(Seq::empty()) =~= none.push(Seq::empty()));
    assert(proper_segments(segments(Seq::empty())) =~= none);
    segments_after_slash(Seq::empty(), Seq::empty());
    assert(Seq::<char>::empty().push('/') + Seq::<char>::empty() =~= seq!['/']);
    Seq::filter_distributes_over_add(
        segments(Seq::empty()),
        segments(Seq::empty()),
        keep,
    );
    assert(none + none =~= none);
    assert(components(seq!['/']) =~= seq![seq!['/']]);
    segments_after_slash(path, Seq::empty());
    assert(path.push('/') + Seq::<char>::empty() =~= path.push('/'));
    Seq::filter_distributes_over_add(segments(path), segments(Seq::empty()), keep);
    assert(segments(path.push('/'))[0] == segments(path)[0]);
    assert(proper_segments(segments(path.push('/'))) =~= proper_segments(segments(path)));
    assert(path.push('/')[0] == path[0]);
}

/// Lying below goes by whole names: a path lies below another exactly if it is
/// that one, component by component, or the directory that it is in does.
pub proof fn lying_below_goes_by_whole_names(path: Seq<char>, name: Seq<char>, base: Seq<char>)
    requires
        path.len() > 0,
        name.len() > 0,
        !name.contains('/'),
        name != seq!['.'],
    ensures
        below(joined(path, name), base) <==> below(path, base) || components(joined(path, name))
            == components(base),
        below(name, base) <==> components(base).len() == 0 || components(base) == seq![name],
        below(seq!['/'], base) <==> components(base).len() == 0 || components(base) == seq![seq!['/']],
{
    each_name_is_a_component(path, name);
    let (whole, front, other) = (
        components(joined(path, name)),
        components(path),
        components(base),
    );
    if below(joined(path, name), base) {
        assert(whole.subrange(0, other.len() as int) == other);
        if other.len() <= front.len() {
            assert(front.subrange(0, other.len() as int) =~= other);
        } else {
            assert(whole.subrange(0, other.len() as int) =~= whole);
        }
    }
    if below(path, base) {
        assert(front.subrange(0, other.len() as int) == other);
        assert(whole.subrange(0, other.len() as int) =~= other);
    }
    if whole == other {
        assert(whole.subrange(0, other.len() as int) =~= other);
    }
    one_component(seq![name], other);
    one_component(seq![seq!['/']], other);
}

proof fn one_component(one: Seq<Seq<char>>, other: Seq<Seq<char>>)
    requires
        one.len() == 1,
    ensures
        other.is_prefix_of(one) <==> other.len() == 0 || other == one,
{
    if other.is_prefix_of(one) && other.len() > 0 {
        assert(one.subrange(0, 1) =~= one);
    }
    if other.len() == 0 {
        assert(one.subrange(0, 0) =~= other);
    }
    if other == one {
        assert(one.subrange(0, 1) =~= one);
    }
}

/// Paths that end in the root, in the current directory or in the one above have no
/// file name.
pub proof fn some_paths_have_no_file_name(path: Seq<char>)
    requires
        path.len() > 0,
    ensures
        file_name(Seq::empty()) is None,
        file_name(seq!['/']) is None,
        file_name(seq!['.']) is None,
        file_name(joined(path, seq!['.', '.'])) is None,
        file_name(joined(path, seq!['.'])) == file_name(path),
        file_name(path.push('/')) == file_name(path),
        file_stem(seq!['/']) is None,
{
    let up = seq!['.', '.'];
    assert(up != seq!['.']) by {
        assert(up.len() == 2);
    }
    assert(!up.contains('/'));
    each_name_is_a_component(path, up);
}

} // verus!

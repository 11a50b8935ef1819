//! File paths as text, with `/` between the names, as on Unix: a path that starts at the root is one
//! that begins with `/`, and neither drive letters nor backslashes mean anything.
use vstd::prelude::*;
use vstd::slice::slice_subrange;
use vstd::string::*;

use crate::text::{
    begins_with, chars_of, finishes_with, same_text, split_text, string_of,
};

verus! {

/// Whether a path starts at the root.
pub open spec fn is_absolute(path: Seq<char>) -> bool {
    path.len() > 0 && path[0] == '/'
}

/// `rel` as seen from `base`; an absolute `rel` stands for itself.
pub open spec fn path_join(base: Seq<char>, rel: Seq<char>) -> Seq<char> {
    if is_absolute(rel) || base.len() == 0 {
        rel
    } else if base.last() == '/' {
        base + rel
    } else {
        base + "/"@ + rel
    }
}

/// Whether a piece between two slashes names something: it is not empty and not `.`.
pub open spec fn is_name(piece: Seq<char>) -> bool {
    piece.len() > 0 && piece != "."@
}

/// The names in a path, in order. Empty pieces and `.` are no names; `..` is one.
pub open spec fn names(path: Seq<char>) -> Seq<Seq<char>> {
    crate::text::split_on(path, '/').filter(|piece: Seq<char>| is_name(piece))
}

/// Where a path starts: at the root, at the current directory if it says so with a leading `.`,
/// or nowhere in particular.
pub open spec fn anchor(path: Seq<char>) -> Seq<Seq<char>> {
    if is_absolute(path) {
        seq!["/"@]
    } else if crate::text::split_on(path, '/')[0] == "."@ {
        seq!["."@]
    } else {
        Seq::empty()
    }
}

/// The steps that a path takes: where it starts, then its names.
pub open spec fn steps(path: Seq<char>) -> Seq<Seq<char>> {
    anchor(path) + names(path)
}

/// Whether `path` begins with all the steps of `base`.
pub open spec fn lies_under(path: Seq<char>, base: Seq<char>) -> bool {
    steps(base).is_prefix_of(steps(path))
}

/// The steps of two joined paths are those of the first and then the names of the second.
pub proof fn steps_of_joined(base: Seq<char>, rel: Seq<char>)
    requires
        base.len() > 0,
        base.last() != '/',
        !is_absolute(rel),
    ensures
        steps(path_join(base, rel)) == steps(base) + names(rel),
{
    reveal_strlit("/");
    assert("/"@ == seq!['/']);
    let whole = base + seq!['/'] + rel;
    assert(path_join(base, rel) == whole);
    crate::text::split_of_joined(base, '/', rel);
    let keep = |piece: Seq<char>| is_name(piece);
    Seq::filter_distributes_over_add(
        crate::text::split_on(base, '/'),
        crate::text::split_on(rel, '/'),
        keep,
    );
    assert(names(whole) == names(base) + names(rel));
    crate::text::split_is_not_empty(base, '/');
    assert(crate::text::split_on(whole, '/')[0] == crate::text::split_on(base, '/')[0]);
    assert(whole[0] == base[0]);
    assert(anchor(whole) == anchor(base));
    assert(steps(whole) == steps(base) + names(rel));
}

/// A path joined to a directory lies under that directory.
pub proof fn joined_path_lies_under(base: Seq<char>, rel: Seq<char>)
    requires
        base.len() > 0,
        base.last() != '/',
        !is_absolute(rel),
    ensures
        lies_under(path_join(base, rel), base),
{
    steps_of_joined(base, rel);
    assert(steps(base) == (steps(base) + names(rel)).take(steps(base).len() as int));
}

/// Whether a path starts at the root.
pub fn absolute(path: &str) -> (r: bool)
    ensures
        r == is_absolute(path@),
{
    let r = begins_with(path, "/");
    proof {
        reveal_strlit("/");
        assert("/"@ == seq!['/']);
        if is_absolute(path@) {
            assert(path@.subrange(0, 1) == seq!['/']);
        }
        if r {
            assert(path@.subrange(0, 1)[0] == '/');
        }
    }
    r
}

/// `rel` as seen from `base`.
pub fn join_path(base: &str, rel: &str) -> (r: String)
    ensures
        r@ == path_join(base@, rel@),
{
    if absolute(rel) || base.is_empty() {
        return rel.to_owned();
    }
    let mut out = base.to_owned();
    let ends = finishes_with(base, "/");
    proof {
        reveal_strlit("/");
        assert("/"@ == seq!['/']);
        if base@.last() == '/' {
            assert(base@.subrange(base@.len() - 1, base@.len() as int) == "/"@);
        } else if ends {
            assert(base@.subrange(base@.len() - 1, base@.len() as int)[0] == base@.last());
        }
    }
    if !ends {
        out.append("/");
    }
    out.append(rel);
    out
}

/// The steps that a path takes.
pub fn path_steps(path: &str) -> (r: Vec<String>)
    ensures
        crate::text::views(r@) == steps(path@),
{
    let pieces = split_text(path, '/');
    let mut out: Vec<String> = Vec::new();
    let ghost keep = |piece: Seq<char>| is_name(piece);
    let ghost parts = crate::text::split_on(path@, '/');
    proof {
        crate::text::split_is_not_empty(path@, '/');
        assert(crate::text::views(pieces@)[0] == pieces@[0]@);
    }
    if absolute(path) {
        out.push("/".to_owned());
    } else if same_text(pieces[0].as_str(), ".") {
        out.push(".".to_owned());
    }
    assert(crate::text::views(out@) == anchor(path@));
    let ghost head = crate::text::views(out@);
    assert(parts.take(0).filter(keep) == Seq::<Seq<char>>::empty()) by {
        reveal(Seq::filter);
    }
    for i in 0..pieces.len()
        invariant
            crate::text::views(pieces@) == parts,
            keep == (|piece: Seq<char>| is_name(piece)),
            crate::text::views(out@) == head + parts.take(i as int).filter(keep),
    {
        let ghost before = out@;
        let piece = pieces[i].clone();
        assert(parts[i as int] == piece@);
        proof {
            reveal(Seq::filter);
            assert(parts.take(i + 1).drop_last() == parts.take(i as int));
            assert(parts.take(i + 1).last() == piece@);
        }
        if !piece.as_str().is_empty() && !same_text(piece.as_str(), ".") {
            out.push(piece);
            assert(crate::text::views(out@) == crate::text::views(before).push(piece@));
        }
    }
    assert(parts.take(parts.len() as int) == parts);
    out
}

/// Whether `path` begins with all the steps of `base`.
pub fn path_lies_under(path: &str, base: &str) -> (r: bool)
    ensures
        r == lies_under(path@, base@),
{
    let p = path_steps(path);
    let b = path_steps(base);
    let ghost pv = crate::text::views(p@);
    let ghost bv = crate::text::views(b@);
    if b.len() > p.len() {
        return false;
    }
    for i in 0..b.len()
        invariant
            b@.len() <= p@.len(),
            pv == crate::text::views(p@),
            bv == crate::text::views(b@),
            pv == steps(path@),
            bv == steps(base@),
            forall|j: int| 0 <= j < i ==> pv[j] == bv[j],
    {
        assert(pv[i as int] == p@[i as int]@);
        assert(bv[i as int] == b@[i as int]@);
        if !same_text(p[i].as_str(), b[i].as_str()) {
            assert(!bv.is_prefix_of(pv)) by {
                if bv.is_prefix_of(pv) {
                    assert(pv.take(bv.len() as int)[i as int] == bv[i as int]);
                }
            }
            return false;
        }
    }
    assert(pv.take(bv.len() as int) == bv);
    true
}

/// The position of the last `c` in `s`, or -1.
pub open spec fn last_index(s: Seq<char>, c: char) -> int
    decreases s.len(),
{
    if s.len() == 0 {
        -1
    } else if s.last() == c {
        s.len() - 1
    } else {
        last_index(s.drop_last(), c)
    }
}

/// What follows the last dot in the last name of a path: empty where that name has no dot, or
/// only one at its front, or is `..`.
pub open spec fn extension_of(path: Seq<char>) -> Seq<char> {
    let all = names(path);
    let dot = last_index(all.last(), '.');
    if all.len() == 0 || all.last() == ".."@ || dot <= 0 {
        Seq::empty()
    } else {
        all.last().skip(dot + 1)
    }
}

/// The extension of the file that a path names.
pub fn extension(path: &str) -> (r: String)
    ensures
        r@ == extension_of(path@),
{
    let all = path_steps(path);
    let lead: usize = if absolute(path) || begins_with_dot(path) {
        1
    } else {
        0
    };
    let ghost sv = crate::text::views(all@);
    assert(sv.skip(lead as int) == names(path@));
    if all.len() <= lead {
        return String::new();
    }
    let last = all.len() - 1;
    assert(sv[last as int] == all@[last as int]@);
    assert(names(path@).last() == all@[last as int]@);
    if same_text(all[last].as_str(), "..") {
        return String::new();
    }
    let name = chars_of(all[last].as_str());
    let mut end: usize = name.len();
    assert(name@.take(end as int) == name@);
    while 0 < end && name[end - 1] != '.'
        invariant
            0 <= end <= name@.len(),
            last_index(name@.take(end as int), '.') == last_index(name@, '.'),
        decreases end,
    {
        assert(name@.take(end as int).drop_last() == name@.take(end - 1));
        end = end - 1;
    }
    assert(last_index(name@, '.') == end - 1);
    if end <= 1 {
        return String::new();
    }
    string_of(slice_subrange(name.as_slice(), end, name.len()))
}

/// Whether the first piece of a path is `.`.
fn begins_with_dot(path: &str) -> (r: bool)
    ensures
        r == (crate::text::split_on(path@, '/')[0] == "."@),
{
    let pieces = split_text(path, '/');
    proof {
        crate::text::split_is_not_empty(path@, '/');
        assert(crate::text::views(pieces@)[0] == pieces@[0]@);
    }
    same_text(pieces[0].as_str(), ".")
}

/// The names of a path are those before a slash and then those behind it. A text without a slash is
/// a name, but for the empty one and a single dot.
pub proof fn slashes_part_the_names(a: Seq<char>, b: Seq<char>, piece: Seq<char>)
    requires
        !piece.contains('/'),
    ensures
        names(a + seq!['/'] + b) == names(a) + names(b),
        piece.len() > 0 && piece != "."@ ==> names(piece) == seq![piece],
        piece.len() == 0 || piece == "."@ ==> names(piece).len() == 0,
{
    let keep = |p: Seq<char>| is_name(p);
    crate::text::split_of_joined(a, '/', b);
    Seq::filter_distributes_over_add(
        crate::text::split_on(a, '/'),
        crate::text::split_on(b, '/'),
        keep,
    );
    crate::text::text_without_separator_is_one_piece(piece, '/');
    reveal(Seq::filter);
    assert(seq![piece].drop_last() == Seq::<Seq<char>>::empty());
    assert(seq![piece].last() == piece);
    assert(Seq::<Seq<char>>::empty().filter(keep) == Seq::<Seq<char>>::empty());
    assert(seq![piece].filter(keep) == (if keep(piece) {
        Seq::<Seq<char>>::empty().push(piece)
    } else {
        Seq::<Seq<char>>::empty()
    }));
}

/// A path with a slash at its front starts at the root, one that is a dot or begins with a dot and
/// a slash at the current directory, and any other one with its first name.
pub proof fn paths_start_where_they_say(rel: Seq<char>, first: Seq<char>)
    requires
        !first.contains('/'),
        first.len() > 0,
        first != "."@,
    ensures
        anchor(seq!['/'] + rel) == seq!["/"@],
        anchor("."@) == seq!["."@],
        anchor("."@ + seq!['/'] + rel) == seq!["."@],
        anchor(first) == Seq::<Seq<char>>::empty(),
        anchor(first + seq!['/'] + rel) == Seq::<Seq<char>>::empty(),
        steps(rel) == anchor(rel) + names(rel),
{
    reveal_strlit(".");
    assert("."@ == seq!['.']);
    assert(!"."@.contains('/')) by {
        assert(forall|i: int| 0 <= i < "."@.len() ==> "."@[i] == '.');
    }
    crate::text::text_without_separator_is_one_piece("."@, '/');
    crate::text::text_without_separator_is_one_piece(first, '/');
    crate::text::split_of_joined("."@, '/', rel);
    crate::text::split_of_joined(first, '/', rel);
    assert(first.contains(first[0]));
    assert((first + seq!['/'] + rel)[0] == first[0]);
    assert(("."@ + seq!['/'] + rel)[0] == '.');
    assert((seq![first] + crate::text::split_on(rel, '/'))[0] == first);
    assert((seq!["."@] + crate::text::split_on(rel, '/'))[0] == "."@);
}

/// A path lies under another exactly where its steps are those of the other and then some more, or
/// none.
pub proof fn lying_under_is_going_on(path: Seq<char>, base: Seq<char>)
    ensures
        lies_under(path, base) <==> exists|more: Seq<Seq<char>>|
            steps(path) == #[trigger] (steps(base) + more),
{
    if lies_under(path, base) {
        let more = steps(path).skip(steps(base).len() as int);
        assert(steps(base) == steps(path).subrange(0, steps(base).len() as int));
        assert(steps(path) == steps(base) + more);
    }
    if exists|more: Seq<Seq<char>>| steps(path) == #[trigger] (steps(base) + more) {
        let more = choose|more: Seq<Seq<char>>| steps(path) == #[trigger] (steps(base) + more);
        assert(steps(base) == steps(path).subrange(0, steps(base).len() as int));
    }
}

/// Joining puts one slash between two paths, where the first does not end with one already; a path
/// from the root, and one joined to nothing, stands for itself.
pub proof fn one_slash_joins_paths(base: Seq<char>, rel: Seq<char>)
    ensures
        rel.len() > 0 && rel[0] == '/' ==> path_join(base, rel) == rel,
        base.len() == 0 ==> path_join(base, rel) == rel,
        (rel.len() == 0 || rel[0] != '/') && base.len() > 0 && base.last() != '/' ==> path_join(
            base,
            rel,
        ) == base + seq!['/'] + rel,
        (rel.len() == 0 || rel[0] != '/') && base.len() > 0 && base.last() == '/' ==> path_join(
            base,
            rel,
        ) == base + rel,
{
    reveal_strlit("/");
    assert("/"@ == seq!['/']);
}

/// The extension of a file is what follows the last dot in its name, where something stands before
/// that dot; a name without a dot, and one whose only dot is at its front, has none.
pub proof fn extension_follows_the_last_dot(
    dir: Seq<char>,
    stem: Seq<char>,
    extension: Seq<char>,
)
    requires
        !stem.contains('/'),
        !extension.contains('/'),
        !extension.contains('.'),
        stem.len() > 0,
    ensures
        extension_of(stem + seq!['.'] + extension) == extension,
        extension_of(dir + seq!['/'] + (stem + seq!['.'] + extension)) == extension,
        !stem.contains('.') ==> extension_of(stem).len() == 0 && extension_of(
            dir + seq!['/'] + stem,
        ).len() == 0,
        extension_of(dir + seq!['/'] + (seq!['.'] + extension)).len() == 0 || extension.len() == 0,
{
    reveal_strlit(".");
    reveal_strlit("..");
    assert("."@ == seq!['.']);
    assert(".."@ == seq!['.', '.']);
    let name = stem + seq!['.'] + extension;
    assert(name[stem.len() as int] == '.');
    no_slash_in(name, stem, extension);
    dot_is_last(name, stem.len() as int);
    slashes_part_the_names(dir, name, name);
    assert((names(dir) + seq![name]).last() == name);
    assert(seq![name].last() == name);
    assert(name.skip(stem.len() as int + 1) == extension);
    if name == ".."@ {
        assert(extension.len() == 0) by {
            assert(name.len() == stem.len() + 1 + extension.len());
        }
    }
    if !stem.contains('.') {
        no_dot_at_all(stem);
        slashes_part_the_names(dir, stem, stem);
        assert((names(dir) + seq![stem]).last() == stem);
        assert(seq![stem].last() == stem);
        if stem == "."@ {
            assert(stem[0] == '.');
        }
    }
    if extension.len() > 0 {
        let hidden = seq!['.'] + extension;
        no_slash_in(hidden, Seq::empty(), extension);
        dot_is_last(hidden, 0);
        assert(hidden.len() > 1);
        slashes_part_the_names(dir, hidden, hidden);
        assert((names(dir) + seq![hidden]).last() == hidden);
    }
}

proof fn no_slash_in(name: Seq<char>, stem: Seq<char>, extension: Seq<char>)
    requires
        !stem.contains('/'),
        !extension.contains('/'),
        !extension.contains('.'),
        name == stem + seq!['.'] + extension,
    ensures
        !name.contains('/'),
        forall|k: int| stem.len() < k < name.len() ==> #[trigger] name[k] != '.',
{
    assert forall|k: int| 0 <= k < name.len() implies name[k] != '/' by {
        if k < stem.len() {
            assert(name[k] == stem[k]);
            assert(stem.contains(stem[k]));
        } else if k > stem.len() {
            assert(name[k] == extension[k - stem.len() - 1]);
            assert(extension.contains(name[k]));
        }
    }
    assert forall|k: int| stem.len() < k < name.len() implies #[trigger] name[k] != '.' by {
        assert(name[k] == extension[k - stem.len() - 1]);
        assert(extension.contains(name[k]));
    }
}

proof fn dot_is_last(name: Seq<char>, at: int)
    requires
        0 <= at < name.len(),
        name[at] == '.',
        forall|k: int| at < k < name.len() ==> #[trigger] name[k] != '.',
    ensures
        last_index(name, '.') == at,
    decreases name.len(),
{
    if at < name.len() - 1 {
        dot_is_last(name.drop_last(), at);
    }
}

proof fn no_dot_at_all(name: Seq<char>)
    requires
        !name.contains('.'),
    ensures
        last_index(name, '.') == -1,
    decreases name.len(),
{
    if name.len() > 0 {
        assert(name.contains(name.last()));
        assert(!name.drop_last().contains('.')) by {
            if name.drop_last().contains('.') {
                let i = name.drop_last().index_of('.');
                assert(name[i] == '.');
            }
        }
        no_dot_at_all(name.drop_last());
    }
}

} // verus!

//! The contents of files.
use vstd::prelude::*;
use vstd::slice::slice_to_vec;
use vstd::string::*;

use crate::bytes::text_lossy;

verus! {

/// How a file at a revision is named to git.
pub open spec fn revision_path(ref_name: Seq<char>, path: Seq<char>) -> Seq<char> {
    ref_name + ":"@ + path
}

/// How a file at a revision is named to git.
pub fn blob_spec(ref_name: &str, path: &str) -> (r: String)
    ensures
        r@ == revision_path(ref_name@, path@),
{
    let mut out = ref_name.to_owned();
    out.append(":");
    out.append(path);
    out
}

/// What is shown of a file: all of it, or nothing, as if it were binary, where it has more bytes
/// than the limit.
pub fn read_blob_limited(size: u64, content: &[u8], is_binary: bool, limit: u64) -> (r: (
    Vec<u8>,
    bool,
))
    ensures
        size > limit ==> r.0@.len() == 0 && r.1,
        size <= limit ==> r.0@ == content@ && r.1 == is_binary,
{
    if size > limit {
        return (Vec::new(), true);
    }
    (slice_to_vec(content), is_binary)
}

/// The text of a file that is shown; none for a binary one.
pub fn blob_text(content: &[u8], is_binary: bool) -> (r: Option<String>)
    ensures
        is_binary ==> r is None,
        !is_binary ==> (r matches Some(t) && t@ == crate::bytes::utf8_lossy(content@)),
{
    if is_binary {
        None
    } else {
        Some(text_lossy(content))
    }
}

/// The files that can introduce a repository, the most wanted first.
pub open spec fn readme_names() -> Seq<Seq<char>> {
    seq!["README.md"@, "README.rst"@, "README.txt"@, "README"@]
}

/// What to do next in the search for the file that introduces a repository.
#[derive(Debug)]
pub enum ReadmeStep {
    /// This file is to be read, if it is there.
    Read(String),
    /// The search is over, with this text.
    Found(String),
    /// The search is over, and there is none.
    Absent,
}

/// A file that was read: its bytes, and whether they are binary.
pub type Blob = (Vec<u8>, bool);

/// What is read from the file that was tried last, if it can be shown as text.
pub open spec fn readable(last: Option<Blob>) -> Option<Seq<char>> {
    match last {
        Some((bytes, false)) => Some(crate::bytes::utf8_lossy(bytes@)),
        _ => None,
    }
}

/// The next step of the search, after `tried` files of which `last` is the last one.
pub open spec fn readme_next(tried: int, last: Option<Blob>, step: ReadmeStep) -> bool {
    if tried > 0 && readable(last) is Some {
        step matches ReadmeStep::Found(t) && Some(t@) == readable(last)
    } else if tried < readme_names().len() {
        step matches ReadmeStep::Read(n) && n@ == readme_names()[tried]
    } else {
        step is Absent
    }
}

/// The next step of the search for the file that introduces a repository, after `tried` files;
/// `last` is what came of the last one.
pub fn read_readme(tried: usize, last: Option<Blob>) -> (r: ReadmeStep)
    ensures
        readme_next(tried as int, last, r),
{
    if tried > 0 {
        if let Some((bytes, is_binary)) = &last {
            if !*is_binary {
                return ReadmeStep::Found(text_lossy(bytes.as_slice()));
            }
        }
    }
    if tried == 0 {
        ReadmeStep::Read("README.md".to_owned())
    } else if tried == 1 {
        ReadmeStep::Read("README.rst".to_owned())
    } else if tried == 2 {
        ReadmeStep::Read("README.txt".to_owned())
    } else if tried == 3 {
        ReadmeStep::Read("README".to_owned())
    } else {
        ReadmeStep::Absent
    }
}

/// The outcome of the whole search over what the four files hold: the text of the first one that
/// can be shown.
pub open spec fn readme_of(blobs: Seq<Option<Blob>>) -> Option<Seq<char>>
    decreases blobs.len(),
{
    if blobs.len() == 0 {
        None
    } else if readable(blobs[0]) is Some {
        readable(blobs[0])
    } else {
        readme_of(blobs.drop_first())
    }
}

/// A search that follows the steps ends with the first file that can be shown: it goes on past
/// every file that cannot, and stops with the text of one that can.
pub proof fn search_finds_the_first_readme(blobs: Seq<Option<Blob>>, at: int, step: ReadmeStep)
    requires
        blobs.len() == readme_names().len(),
        0 <= at < blobs.len(),
        forall|i: int| 0 <= i < at ==> readable(#[trigger] blobs[i]) is None,
        readme_next(at + 1, blobs[at], step),
    ensures
        step matches ReadmeStep::Found(t) ==> readme_of(blobs) == Some(t@),
        step is Read ==> readable(blobs[at]) is None && at + 1 < blobs.len(),
        step is Absent ==> readme_of(blobs) is None,
{
    readme_of_skips(blobs, at);
    if readable(blobs[at]) is None {
        if at + 1 == blobs.len() {
            readme_of_skips(blobs, at + 1);
        }
    }
}

proof fn readme_of_skips(blobs: Seq<Option<Blob>>, at: int)
    requires
        0 <= at <= blobs.len(),
        forall|i: int| 0 <= i < at ==> readable(#[trigger] blobs[i]) is None,
    ensures
        readme_of(blobs) == readme_of(blobs.skip(at)),
    decreases at,
{
    if at == 0 {
        assert(blobs.skip(0) == blobs);
    } else {
        let rest = blobs.drop_first();
        assert(readable(blobs[0]) is None);
        assert forall|i: int| 0 <= i < at - 1 implies readable(#[trigger] rest[i]) is None by {
            assert(rest[i] == blobs[i + 1]);
        }
        readme_of_skips(rest, at - 1);
        assert(rest.skip(at - 1) == blobs.skip(at));
    }
}

/// A file at a revision is named by the revision, a colon and the path, so a revision without a
/// colon and the path can be told from the name.
pub proof fn revision_and_path_are_told_apart(ref_name: Seq<char>, path: Seq<char>)
    requires
        !ref_name.contains(':'),
    ensures
        crate::text::cut_at_first(revision_path(ref_name, path), ':') == Some((ref_name, path)),
{
    reveal_strlit(":");
    assert(":"@ == seq![':']);
    crate::text::joined_parts_are_cut_apart(ref_name, ':', path);
}

/// The files that can introduce a repository are tried one after the other, `README.md` first, then
/// `README.rst`, `README.txt` and `README`, until one is there and not binary: its text is shown.
/// Behind the last one there is none.
pub proof fn readme_files_are_tried_in_order(tried: int, last: Option<Blob>, step: ReadmeStep)
    requires
        0 <= tried,
        readme_next(tried, last, step),
    ensures
        tried == 0 ==> (step matches ReadmeStep::Read(name) && name@ == "README.md"@),
        tried > 0 ==> (last matches Some((bytes, false)) ==> (step matches ReadmeStep::Found(text)
            && text@ == crate::bytes::utf8_lossy(bytes@))),
        last is None || (last matches Some((_, true))) ==> {
            &&& tried == 1 ==> (step matches ReadmeStep::Read(name) && name@ == "README.rst"@)
            &&& tried == 2 ==> (step matches ReadmeStep::Read(name) && name@ == "README.txt"@)
            &&& tried == 3 ==> (step matches ReadmeStep::Read(name) && name@ == "README"@)
            &&& tried >= 4 ==> step is Absent
        },
{
    let names = seq!["README.md"@, "README.rst"@, "README.txt"@, "README"@];
    assert(names[0] == "README.md"@);
    assert(names[1] == "README.rst"@);
    assert(names[2] == "README.txt"@);
    assert(names[3] == "README"@);
}

} // verus!

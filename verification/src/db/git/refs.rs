//! Branches and tags.
use vstd::prelude::*;
use vstd::string::*;

use crate::bytes::text_lossy;
use crate::text::{opt_view, same_text, trim_leading};

verus! {

/// A branch, as it is shown.
#[derive(Debug, Clone)]
pub struct BranchInfo {
    pub name: String,
    pub is_head: bool,
    pub sha: String,
}

/// A tag, as it is shown.
#[derive(Debug, Clone)]
pub struct TagInfo {
    pub name: String,
    /// The commit that the tag points at in the end.
    pub sha: String,
    /// Only an annotated tag has one.
    pub message: Option<String>,
}

/// A branch, as the repository gives it.
#[derive(Debug, Clone)]
pub struct RawBranch {
    /// `None` where the name is not UTF-8.
    pub name: Option<String>,
    /// The commit that it points at, where it does so directly.
    pub target: Option<String>,
}

/// A tag, as the repository gives it.
#[derive(Debug, Clone)]
pub struct RawTag {
    /// The full name of the reference.
    pub name: Vec<u8>,
    /// The object that the reference points at.
    pub oid: String,
    /// The commit behind that object, where there is one.
    pub commit: Option<String>,
    pub message: Option<String>,
}

/// The text, or an empty one where it is missing.
pub open spec fn or_empty(t: Option<String>) -> Seq<char> {
    match t {
        Some(s) => s@,
        None => Seq::empty(),
    }
}

/// Whether a branch is shown as the repository gives it: the head is the branch that points at
/// the commit of the head.
pub open spec fn shows_branch(b: BranchInfo, head: Option<Seq<char>>, raw: RawBranch) -> bool {
    &&& b.name@ == or_empty(raw.name)
    &&& b.sha@ == or_empty(raw.target)
    &&& b.is_head == (head == Some(or_empty(raw.target)))
}

/// Whether a tag is shown as the repository gives it: by its short name, and at the commit behind
/// it, or at its own object where there is none.
pub open spec fn shows_tag(t: TagInfo, raw: RawTag) -> bool {
    &&& t.name@ == crate::text::without_leading(
        crate::bytes::utf8_lossy(raw.name@),
        "refs/tags/"@,
    )
    &&& t.sha@ == (match raw.commit {
        Some(sha) => sha@,
        None => raw.oid@,
    })
    &&& opt_view(t.message) == opt_view(raw.message)
}

/// The text, or an empty one where it is missing.
fn or_empty_text(t: Option<String>) -> (r: String)
    ensures
        r@ == or_empty(t),
{
    match t {
        Some(s) => s,
        None => String::new(),
    }
}

/// The branches as they are shown, where the head is at the given commit.
pub fn list_branches(head: Option<String>, raw: Vec<RawBranch>) -> (r: Vec<BranchInfo>)
    ensures
        r@.len() == raw@.len(),
        forall|i: int|
            0 <= i < raw@.len() ==> shows_branch(#[trigger] r@[i], opt_view(head), raw@[i]),
{
    let mut out: Vec<BranchInfo> = Vec::new();
    for b in it: raw
        invariant
            it.seq() == raw@,
            out@.len() == it.index(),
            forall|i: int|
                0 <= i < it.index() ==> shows_branch(
                    #[trigger] out@[i],
                    opt_view(head),
                    raw@[i],
                ),
    {
        let name = or_empty_text(b.name);
        let sha = or_empty_text(b.target);
        let is_head = match &head {
            Some(h) => same_text(h.as_str(), sha.as_str()),
            None => false,
        };
        out.push(BranchInfo { name, is_head, sha });
    }
    out
}

/// The tags as they are shown.
pub fn list_tags(raw: Vec<RawTag>) -> (r: Vec<TagInfo>)
    ensures
        r@.len() == raw@.len(),
        forall|i: int| 0 <= i < raw@.len() ==> shows_tag(#[trigger] r@[i], raw@[i]),
{
    let mut out: Vec<TagInfo> = Vec::new();
    proof {
        reveal_strlit("refs/tags/");
    }
    for t in it: raw
        invariant
            it.seq() == raw@,
            out@.len() == it.index(),
            "refs/tags/"@.len() > 0,
            forall|i: int| 0 <= i < it.index() ==> shows_tag(#[trigger] out@[i], raw@[i]),
    {
        let full = text_lossy(t.name.as_slice());
        let name = trim_leading(full.as_str(), "refs/tags/");
        let sha = match t.commit {
            Some(c) => c,
            None => t.oid,
        };
        out.push(TagInfo { name, sha, message: t.message });
    }
    out
}

/// A branch is shown with its own name and commit, each empty where the repository gives none; it
/// is the head exactly where the head is at that commit.
pub proof fn branch_is_head_at_its_commit(
    b: BranchInfo,
    head: Option<Seq<char>>,
    raw: RawBranch,
)
    requires
        shows_branch(b, head, raw),
    ensures
        raw.name matches Some(name) ==> b.name@ == name@,
        raw.name is None ==> b.name@.len() == 0,
        raw.target matches Some(commit) ==> b.sha@ == commit@,
        raw.target is None ==> b.sha@.len() == 0,
        head is None ==> !b.is_head,
        head matches Some(commit) ==> (b.is_head <==> b.sha@ == commit),
{
}

/// A tag is shown by what stands behind `refs/tags/` in its full name, at the commit that it leads
/// to, or at its own object where it leads to none, and with its own message.
pub proof fn tag_is_shown_by_its_short_name(t: TagInfo, raw: RawTag, short: Seq<char>)
    requires
        shows_tag(t, raw),
        !"refs/tags/"@.is_prefix_of(short),
    ensures
        crate::bytes::utf8_lossy(raw.name@) == "refs/tags/"@ + short ==> t.name@ == short,
        crate::bytes::utf8_lossy(raw.name@) == short ==> t.name@ == short,
        raw.commit matches Some(commit) ==> t.sha@ == commit@,
        raw.commit is None ==> t.sha@ == raw.oid@,
        raw.message is None <==> t.message is None,
        raw.message matches Some(text) ==> t.message->0@ == text@,
{
    reveal_strlit("refs/tags/");
    crate::text::leading_copies_are_taken_off(short, "refs/tags/"@);
}

} // verus!

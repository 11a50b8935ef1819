//! The entries of a directory.
use vstd::prelude::*;
use vstd::string::*;

use crate::text::opt_view;

verus! {

/// An entry of a directory, as it is shown.
#[derive(Debug, Clone)]
pub struct TreeEntry {
    pub name: String,
    pub path: String,
    /// `tree` for a directory, `blob` for anything else.
    pub kind: String,
    pub size: Option<u64>,
    pub message: Option<String>,
    pub sha: Option<String>,
}

/// An entry of a directory, as the repository gives it.
#[derive(Debug, Clone)]
pub struct RawTreeEntry {
    /// `None` where the name is not UTF-8.
    pub name: Option<String>,
    pub is_tree: bool,
    /// The size of the file, where there is one to be had.
    pub size: Option<u64>,
    pub sha: String,
}

/// A [`TreeEntry`] with its texts as sequences of characters.
#[verifier::ext_equal]
pub struct EntryView {
    pub name: Seq<char>,
    pub path: Seq<char>,
    pub kind: Seq<char>,
    pub size: Option<u64>,
    pub message: Option<Seq<char>>,
    pub sha: Option<Seq<char>>,
}

impl View for TreeEntry {
    type V = EntryView;

    open spec fn view(&self) -> EntryView {
        EntryView {
            name: self.name@,
            path: self.path@,
            kind: self.kind@,
            size: self.size,
            message: opt_view(self.message),
            sha: opt_view(self.sha),
        }
    }
}

/// The views of a list of entries.
pub open spec fn entry_views(list: Seq<TreeEntry>) -> Seq<EntryView> {
    list.map_values(|e: TreeEntry| e@)
}

/// How an entry of the directory `path` is shown: its path leads through the directory, and only
/// a file has a size.
pub open spec fn shown_entry(path: Seq<char>, raw: RawTreeEntry) -> EntryView {
    let name = match raw.name {
        Some(n) => n@,
        None => Seq::empty(),
    };
    EntryView {
        name,
        path: if path.len() == 0 {
            name
        } else {
            path + "/"@ + name
        },
        kind: if raw.is_tree {
            "tree"@
        } else {
            "blob"@
        },
        size: if raw.is_tree {
            None
        } else {
            raw.size
        },
        message: None,
        sha: Some(raw.sha@),
    }
}

/// The entries of a directory as they are shown, before they are put in order.
pub open spec fn shown_entries(path: Seq<char>, raw: Seq<RawTreeEntry>) -> Seq<EntryView> {
    raw.map_values(|e: RawTreeEntry| shown_entry(path, e))
}

/// Whether `a` comes before `b` in the order of dictionaries.
pub open spec fn bytes_before(a: Seq<u8>, b: Seq<u8>) -> bool
    decreases b.len(),
{
    if b.len() == 0 {
        false
    } else if a.len() == 0 {
        true
    } else if a[0] != b[0] {
        a[0] < b[0]
    } else {
        bytes_before(a.drop_first(), b.drop_first())
    }
}

/// Whether `a` is listed before `b`: directories come first, and the names of each kind in the
/// order of their UTF-8 bytes.
pub open spec fn listed_before(a: EntryView, b: EntryView) -> bool {
    if a.kind == "tree"@ && b.kind == "blob"@ {
        true
    } else if a.kind == "blob"@ && b.kind == "tree"@ {
        false
    } else {
        bytes_before(vstd::utf8::encode_utf8(a.name), vstd::utf8::encode_utf8(b.name))
    }
}

/// Whether no entry stands behind one that it should be listed before.
pub open spec fn in_order(list: Seq<EntryView>) -> bool {
    forall|i: int, j: int|
        0 <= i < j < list.len() ==> !listed_before(#[trigger] list[j], #[trigger] list[i])
}

/// The entries of the list with the given kind and name, in the order of the list.
pub open spec fn entries_named(
    list: Seq<EntryView>,
    kind: Seq<char>,
    name: Seq<char>,
) -> Seq<EntryView> {
    list.filter(|e: EntryView| e.kind == kind && e.name == name)
}

/// Whether `sorted` holds the entries of `list` in their order, those with the same kind and
/// name as they stood in `list`.
pub open spec fn is_sorting_of(sorted: Seq<EntryView>, list: Seq<EntryView>) -> bool {
    &&& in_order(sorted)
    &&& forall|kind: Seq<char>, name: Seq<char>| #[trigger]
        entries_named(sorted, kind, name) == entries_named(list, kind, name)
}

/// Whether an entry is of one of the two kinds that are shown.
pub open spec fn has_kind(e: EntryView) -> bool {
    e.kind == "tree"@ || e.kind == "blob"@
}

proof fn bytes_before_not_both(a: Seq<u8>, b: Seq<u8>)
    ensures
        !(bytes_before(a, b) && bytes_before(b, a)),
        !bytes_before(a, a),
    decreases a.len(),
{
    if a.len() > 0 && b.len() > 0 {
        bytes_before_not_both(a.drop_first(), b.drop_first());
    }
    if a.len() > 0 {
        bytes_before_not_both(a.drop_first(), a.drop_first());
    }
}

proof fn bytes_before_through(a: Seq<u8>, b: Seq<u8>, c: Seq<u8>)
    requires
        bytes_before(c, a),
    ensures
        bytes_before(c, b) || bytes_before(b, a),
    decreases a.len(),
{
    if a.len() > 0 && b.len() > 0 && c.len() > 0 {
        if a[0] == c[0] && a[0] == b[0] {
            bytes_before_through(a.drop_first(), b.drop_first(), c.drop_first());
        }
    }
}

proof fn kinds_differ()
    ensures
        "tree"@ != "blob"@,
{
    reveal_strlit("tree");
    reveal_strlit("blob");
    assert("tree"@[0] != "blob"@[0]);
}

proof fn listed_not_both(a: EntryView, b: EntryView)
    ensures
        !(listed_before(a, b) && listed_before(b, a)),
        !listed_before(a, a),
{
    kinds_differ();
    bytes_before_not_both(
        vstd::utf8::encode_utf8(a.name),
        vstd::utf8::encode_utf8(b.name),
    );
}

proof fn listed_through(a: EntryView, b: EntryView, c: EntryView)
    requires
        has_kind(a),
        has_kind(b),
        has_kind(c),
        listed_before(c, a),
    ensures
        listed_before(c, b) || listed_before(b, a),
{
    kinds_differ();
    if a.kind == b.kind && b.kind == c.kind {
        bytes_before_through(
            vstd::utf8::encode_utf8(a.name),
            vstd::utf8::encode_utf8(b.name),
            vstd::utf8::encode_utf8(c.name),
        );
    }
}

/// Whether `a` comes before `b` in the order of dictionaries.
pub fn precedes(a: &[u8], b: &[u8]) -> (r: bool)
    ensures
        r == bytes_before(a@, b@),
{
    let mut i: usize = 0;
    assert(a@.skip(0) == a@);
    assert(b@.skip(0) == b@);
    while i < a.len() && i < b.len() && a[i] == b[i]
        invariant
            i <= a@.len(),
            i <= b@.len(),
            bytes_before(a@.skip(i as int), b@.skip(i as int)) == bytes_before(a@, b@),
        decreases a@.len() - i,
    {
        assert(a@.skip(i as int).drop_first() == a@.skip(i + 1));
        assert(b@.skip(i as int).drop_first() == b@.skip(i + 1));
        i = i + 1;
    }
    if i == b.len() {
        false
    } else if i == a.len() {
        true
    } else {
        a[i] < b[i]
    }
}

/// Whether `a` is listed before `b`.
fn goes_before(a: &TreeEntry, b: &TreeEntry) -> (r: bool)
    ensures
        r == listed_before(a@, b@),
{
    let a_tree = crate::text::same_text(a.kind.as_str(), "tree");
    let a_blob = crate::text::same_text(a.kind.as_str(), "blob");
    let b_tree = crate::text::same_text(b.kind.as_str(), "tree");
    let b_blob = crate::text::same_text(b.kind.as_str(), "blob");
    if a_tree && b_blob {
        true
    } else if a_blob && b_tree {
        false
    } else {
        precedes(a.name.as_str().as_bytes(), b.name.as_str().as_bytes())
    }
}

proof fn filter_of_one(e: EntryView, kind: Seq<char>, name: Seq<char>)
    ensures
        entries_named(seq![e], kind, name) == (if e.kind == kind && e.name == name {
            seq![e]
        } else {
            Seq::empty()
        }),
{
    reveal(Seq::filter);
    assert(seq![e].drop_last() == Seq::<EntryView>::empty());
    assert(seq![e].last() == e);
    assert(Seq::<EntryView>::empty().filter(
        |x: EntryView| x.kind == kind && x.name == name,
    ) == Seq::<EntryView>::empty());
}

proof fn filter_of_none(list: Seq<EntryView>, kind: Seq<char>, name: Seq<char>)
    requires
        forall|i: int|
            0 <= i < list.len() ==> !((#[trigger] list[i]).kind == kind && list[i].name == name),
    ensures
        entries_named(list, kind, name) == Seq::<EntryView>::empty(),
    decreases list.len(),
{
    reveal(Seq::filter);
    if list.len() > 0 {
        let rest = list.drop_last();
        assert forall|i: int| 0 <= i < rest.len() implies !((#[trigger] rest[i]).kind == kind
            && rest[i].name == name) by {
            assert(rest[i] == list[i]);
        }
        filter_of_none(rest, kind, name);
        assert(list[list.len() - 1] == list.last());
    }
}

/// Putting an entry behind the last one that is not listed after it keeps a sorted list sorted.
proof fn insertion_keeps_sorting(
    sorted: Seq<EntryView>,
    list: Seq<EntryView>,
    e: EntryView,
    at: int,
)
    requires
        is_sorting_of(sorted, list),
        0 <= at <= sorted.len(),
        has_kind(e),
        forall|i: int| 0 <= i < sorted.len() ==> has_kind(#[trigger] sorted[i]),
        forall|i: int| at <= i < sorted.len() ==> listed_before(e, #[trigger] sorted[i]),
        at > 0 ==> !listed_before(e, sorted[at - 1]),
    ensures
        is_sorting_of(sorted.insert(at, e), list.push(e)),
{
    let now = sorted.insert(at, e);
    let front = sorted.take(at);
    let back = sorted.skip(at);
    assert(now == front + seq![e] + back);
    assert forall|i: int, j: int| 0 <= i < j < now.len() implies !listed_before(
        #[trigger] now[j],
        #[trigger] now[i],
    ) by {
        let a = if i < at {
            i
        } else {
            i - 1
        };
        let b = if j < at {
            j
        } else {
            j - 1
        };
        if i != at && j != at {
            assert(now[i] == sorted[a]);
            assert(now[j] == sorted[b]);
        } else if j == at {
            assert(now[i] == sorted[i]);
            if listed_before(e, sorted[i]) {
                if i < at - 1 {
                    listed_through(sorted[i], sorted[at - 1], e);
                    assert(!listed_before(sorted[at - 1], sorted[i]));
                }
            }
        } else {
            assert(now[j] == sorted[b]);
            listed_not_both(e, sorted[b]);
        }
    }
    assert forall|kind: Seq<char>, name: Seq<char>| #[trigger]
        entries_named(now, kind, name) == entries_named(list.push(e), kind, name) by {
        let keep = |x: EntryView| x.kind == kind && x.name == name;
        Seq::filter_distributes_over_add(front + seq![e], back, keep);
        Seq::filter_distributes_over_add(front, seq![e], keep);
        Seq::filter_distributes_over_add(front, back, keep);
        Seq::filter_distributes_over_add(list, seq![e], keep);
        assert(front + back == sorted);
        assert(list + seq![e] == list.push(e));
        filter_of_one(e, kind, name);
        assert(entries_named(sorted, kind, name) == entries_named(list, kind, name));
        if keep(e) {
            assert forall|i: int| 0 <= i < back.len() implies !((#[trigger] back[i]).kind == kind
                && back[i].name == name) by {
                assert(back[i] == sorted[at + i]);
                assert(listed_before(e, sorted[at + i]));
                listed_not_both(e, e);
                if back[i].kind == kind && back[i].name == name {
                    assert(listed_before(e, back[i]) == listed_before(e, e));
                }
            }
            filter_of_none(back, kind, name);
        }
        assert(entries_named(front + seq![e], kind, name) + entries_named(back, kind, name)
            == entries_named(front, kind, name) + entries_named(back, kind, name) + entries_named(
            seq![e],
            kind,
            name,
        ));
    }
}

/// The entry as it is shown.
fn show(path: &str, raw: &RawTreeEntry) -> (r: TreeEntry)
    ensures
        r@ == shown_entry(path@, *raw),
{
    let name = match &raw.name {
        Some(n) => n.clone(),
        None => String::new(),
    };
    let full_path = if path.is_empty() {
        name.clone()
    } else {
        let mut p = path.to_owned();
        p.append("/");
        p.append(name.as_str());
        p
    };
    let size = if raw.is_tree {
        None
    } else {
        raw.size
    };
    let kind = if raw.is_tree {
        "tree".to_owned()
    } else {
        "blob".to_owned()
    };
    TreeEntry { name, path: full_path, kind, size, message: None, sha: Some(raw.sha.clone()) }
}

/// The entries of the directory `path` as they are shown: directories first, each kind by name.
pub fn list_tree(path: &str, raw: &[RawTreeEntry]) -> (r: Vec<TreeEntry>)
    ensures
        is_sorting_of(entry_views(r@), shown_entries(path@, raw@)),
{
    let mut out: Vec<TreeEntry> = Vec::new();
    let ghost all = shown_entries(path@, raw@);
    assert(entry_views(out@) == all.take(0));
    for n in 0..raw.len()
        invariant
            all == shown_entries(path@, raw@),
            is_sorting_of(entry_views(out@), all.take(n as int)),
            forall|i: int| 0 <= i < out@.len() ==> has_kind((#[trigger] out@[i])@),
    {
        let e = show(path, &raw[n]);
        let mut at: usize = out.len();
        while 0 < at && goes_before(&e, &out[at - 1])
            invariant
                0 <= at <= out@.len(),
                forall|i: int| at <= i < out@.len() ==> listed_before(e@, (#[trigger] out@[i])@),
            decreases at,
        {
            at = at - 1;
        }
        proof {
            let sorted = entry_views(out@);
            assert(all[n as int] == e@);
            assert(all.take(n + 1) == all.take(n as int).push(e@));
            assert forall|i: int| 0 <= i < sorted.len() implies has_kind(#[trigger] sorted[i]) by {
                assert(sorted[i] == out@[i]@);
            }
            assert forall|i: int| at <= i < sorted.len() implies listed_before(
                e@,
                #[trigger] sorted[i],
            ) by {
                assert(sorted[i] == out@[i]@);
            }
            insertion_keeps_sorting(sorted, all.take(n as int), e@, at as int);
            assert(entry_views(out@.insert(at as int, e)) == sorted.insert(at as int, e@));
        }
        out.insert(at, e);
    }
    assert(all.take(all.len() as int) == all);
    out
}

/// An entry is listed if and only if it is in the directory.
pub proof fn listing_is_complete(sorted: Seq<EntryView>, list: Seq<EntryView>, e: EntryView)
    requires
        is_sorting_of(sorted, list),
    ensures
        sorted.contains(e) <==> list.contains(e),
{
    let keep = |x: EntryView| x.kind == e.kind && x.name == e.name;
    assert(entries_named(sorted, e.kind, e.name) == entries_named(list, e.kind, e.name));
    if sorted.contains(e) {
        let i = sorted.index_of(e);
        sorted.lemma_filter_contains(keep, i);
        assert(list.filter(keep).contains(e));
        list.lemma_filter_contains_rev(keep, e);
    }
    if list.contains(e) {
        let i = list.index_of(e);
        list.lemma_filter_contains(keep, i);
        assert(sorted.filter(keep).contains(e));
        sorted.lemma_filter_contains_rev(keep, e);
    }
}

/// In a listing no directory stands behind a file.
pub proof fn directories_come_first(path: Seq<char>, raw: Seq<RawTreeEntry>, sorted: Seq<EntryView>)
    requires
        is_sorting_of(sorted, shown_entries(path, raw)),
    ensures
        forall|i: int, j: int|
            0 <= i < j < sorted.len() && (#[trigger] sorted[j]).kind == "tree"@ ==> (
            #[trigger] sorted[i]).kind == "tree"@,
{
    let list = shown_entries(path, raw);
    assert forall|i: int, j: int|
        0 <= i < j < sorted.len() && (#[trigger] sorted[j]).kind == "tree"@ implies (
    #[trigger] sorted[i]).kind == "tree"@ by {
        assert(sorted.contains(sorted[i]));
        listing_is_complete(sorted, list, sorted[i]);
        let k = list.index_of(sorted[i]);
        assert(list[k] == shown_entry(path, raw[k]));
        assert(!listed_before(sorted[j], sorted[i]));
    }
}

/// In a listing of a directory below the root, the path of each entry begins with the whole path
/// of the directory and a slash, and what stands behind them is the name of the entry. In a listing
/// of the root the path of an entry is its name.
pub proof fn paths_lead_through_the_directory(
    path: Seq<char>,
    raw: Seq<RawTreeEntry>,
    sorted: Seq<EntryView>,
    i: int,
)
    requires
        is_sorting_of(sorted, shown_entries(path, raw)),
        0 <= i < sorted.len(),
    ensures
        path.len() > 0 ==> {
            &&& path.is_prefix_of(sorted[i].path)
            &&& sorted[i].path.len() == path.len() + 1 + sorted[i].name.len()
            &&& sorted[i].path[path.len() as int] == '/'
            &&& sorted[i].path.skip(path.len() as int + 1) == sorted[i].name
        },
        path.len() == 0 ==> sorted[i].path == sorted[i].name,
{
    reveal_strlit("/");
    let k = position_of(path, raw, sorted, i);
    let full = path + "/"@ + sorted[i].name;
    assert(full.len() == path.len() + 1 + sorted[i].name.len());
    assert(path == full.subrange(0, path.len() as int));
    assert(full.skip(path.len() as int + 1) == sorted[i].name);
}

/// Where in the directory the entry stands that is listed at position `i`.
proof fn position_of(
    path: Seq<char>,
    raw: Seq<RawTreeEntry>,
    sorted: Seq<EntryView>,
    i: int,
) -> (k: int)
    requires
        is_sorting_of(sorted, shown_entries(path, raw)),
        0 <= i < sorted.len(),
    ensures
        0 <= k < raw.len(),
        sorted[i] == shown_entry(path, raw[k]),
{
    let list = shown_entries(path, raw);
    assert(sorted.contains(sorted[i]));
    listing_is_complete(sorted, list, sorted[i]);
    let k = list.index_of(sorted[i]);
    assert(list[k] == shown_entry(path, raw[k]));
    k
}

/// Whether an entry is shown with the name, the kind, the size and the object name that the
/// repository gives: a name that cannot be read is empty, a directory has no size, and no entry
/// comes with a message.
pub open spec fn tells_of(e: EntryView, raw: RawTreeEntry) -> bool {
    &&& e.name == (match raw.name {
        Some(n) => n@,
        None => Seq::<char>::empty(),
    })
    &&& raw.is_tree ==> e.kind == "tree"@ && e.size is None
    &&& !raw.is_tree ==> e.kind == "blob"@ && e.size == raw.size
    &&& e.message is None
    &&& e.sha == Some(raw.sha@)
}

/// A listing tells of every entry of the directory, and of nothing else.
pub proof fn listing_tells_of_every_entry(
    path: Seq<char>,
    raw: Seq<RawTreeEntry>,
    sorted: Seq<EntryView>,
    n: int,
)
    requires
        is_sorting_of(sorted, shown_entries(path, raw)),
        0 <= n < raw.len(),
    ensures
        sorted.len() == raw.len(),
        exists|i: int| 0 <= i < sorted.len() && tells_of(#[trigger] sorted[i], raw[n]),
        exists|k: int| 0 <= k < raw.len() && tells_of(sorted[n], #[trigger] raw[k]),
{
    let list = shown_entries(path, raw);
    entries_are_listed_as_often(sorted, list);
    assert(list[n] == shown_entry(path, raw[n]));
    assert(list.contains(list[n]));
    listing_is_complete(sorted, list, list[n]);
    let i = sorted.index_of(list[n]);
    assert(tells_of(sorted[i], raw[n]));
    let k = position_of(path, raw, sorted, n);
    assert(tells_of(sorted[n], raw[k]));
}

/// A listing holds each entry as often as the directory does.
pub proof fn entries_are_listed_as_often(sorted: Seq<EntryView>, list: Seq<EntryView>)
    requires
        is_sorting_of(sorted, list),
    ensures
        sorted.to_multiset() == list.to_multiset(),
        sorted.len() == list.len(),
{
    assert forall|e: EntryView| #[trigger] sorted.to_multiset().count(e)
        == list.to_multiset().count(e) by {
        named_entries_are_all(sorted, e);
        named_entries_are_all(list, e);
        assert(entries_named(sorted, e.kind, e.name) == entries_named(list, e.kind, e.name));
    }
    assert(sorted.to_multiset() =~= list.to_multiset());
    sorted.to_multiset_ensures();
    list.to_multiset_ensures();
}

/// An entry occurs as often in a list as among the entries with its kind and name.
proof fn named_entries_are_all(list: Seq<EntryView>, e: EntryView)
    ensures
        list.to_multiset().count(e) == entries_named(list, e.kind, e.name).to_multiset().count(e),
    decreases list.len(),
{
    reveal(Seq::filter);
    broadcast use vstd::seq_lib::group_to_multiset_ensures;

    if list.len() > 0 {
        named_entries_are_all(list.drop_last(), e);
        assert(list.drop_last().push(list.last()) == list);
    } else {
        assert(list == entries_named(list, e.kind, e.name));
    }
}

/// One word comes before another in the order of dictionaries exactly where, behind the letters
/// that they begin with alike, it ends first or goes on with the smaller letter.
pub proof fn words_differ_behind_what_they_share(shared: Seq<u8>, a: Seq<u8>, b: Seq<u8>)
    requires
        a.len() == 0 || b.len() == 0 || a[0] != b[0],
    ensures
        bytes_before(shared + a, shared + b) <==> b.len() > 0 && (a.len() == 0 || a[0] < b[0]),
    decreases shared.len(),
{
    if shared.len() > 0 {
        let rest = shared.drop_first();
        words_differ_behind_what_they_share(rest, a, b);
        assert((shared + a).drop_first() == rest + a);
        assert((shared + b).drop_first() == rest + b);
        assert((shared + a)[0] == shared[0]);
        assert((shared + b)[0] == shared[0]);
    } else {
        assert(shared + a == a);
        assert(shared + b == b);
    }
}

/// Among the directories of a listing, and among its files, no name stands behind one that comes
/// after it in the order of their bytes. Entries with the same kind and name stand as they stood
/// in the directory.
pub proof fn names_are_in_order(sorted: Seq<EntryView>, list: Seq<EntryView>, i: int, j: int)
    requires
        is_sorting_of(sorted, list),
        0 <= i < j < sorted.len(),
        sorted[i].kind == sorted[j].kind,
    ensures
        !bytes_before(
            vstd::utf8::encode_utf8(sorted[j].name),
            vstd::utf8::encode_utf8(sorted[i].name),
        ),
        sorted.filter(
            |e: EntryView| e.kind == sorted[i].kind && e.name == sorted[i].name,
        ) == list.filter(|e: EntryView| e.kind == sorted[i].kind && e.name == sorted[i].name),
{
    kinds_differ();
    assert(!listed_before(sorted[j], sorted[i]));
    assert(entries_named(sorted, sorted[i].kind, sorted[i].name) == entries_named(
        list,
        sorted[i].kind,
        sorted[i].name,
    ));
}

/// Entries are seen as they are, each with what it holds and in its place.
pub proof fn entries_are_seen_as_they_are(list: Seq<TreeEntry>, e: TreeEntry, i: int)
    ensures
        entry_views(list).len() == list.len(),
        0 <= i < list.len() ==> entry_views(list)[i] == list[i]@,
        e@.name == e.name@,
        e@.path == e.path@,
        e@.kind == e.kind@,
        e@.size == e.size,
        e.message is None <==> e@.message is None,
        e.message matches Some(text) ==> e@.message == Some(text@),
        e.sha is None <==> e@.sha is None,
        e.sha matches Some(sha) ==> e@.sha == Some(sha@),
{
}

} // verus!

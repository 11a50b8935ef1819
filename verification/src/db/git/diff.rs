//! The differences that a commit makes.
use vstd::prelude::*;
use vstd::string::*;

use crate::bytes::text_lossy;
use crate::text::copy_opt;

verus! {

/// A file that a commit changed.
#[derive(Debug, Clone)]
pub struct DiffFile {
    pub old_path: String,
    pub new_path: String,
    /// `added`, `deleted`, `renamed` or `modified`.
    pub status: String,
    pub hunks: Vec<DiffHunk>,
    pub is_binary: bool,
}

/// A group of neighbouring changed lines.
#[derive(Debug, Clone)]
pub struct DiffHunk {
    pub header: String,
    pub lines: Vec<DiffLine>,
}

/// A line of a hunk: `+` for an added one, `-` for a deleted one, a blank for one that stayed.
#[derive(Debug, Clone)]
pub struct DiffLine {
    pub origin: char,
    pub content: String,
}

/// A [`DiffLine`] with its text as a sequence of characters.
#[verifier::ext_equal]
pub struct LineView {
    pub origin: char,
    pub content: Seq<char>,
}

/// A [`DiffHunk`] with its texts as sequences of characters.
#[verifier::ext_equal]
pub struct HunkView {
    pub header: Seq<char>,
    pub lines: Seq<LineView>,
}

/// A [`DiffFile`] with its texts as sequences of characters.
#[verifier::ext_equal]
pub struct FileView {
    pub old_path: Seq<char>,
    pub new_path: Seq<char>,
    pub status: Seq<char>,
    pub hunks: Seq<HunkView>,
    pub is_binary: bool,
}

impl View for DiffLine {
    type V = LineView;

    open spec fn view(&self) -> LineView {
        LineView { origin: self.origin, content: self.content@ }
    }
}

impl View for DiffHunk {
    type V = HunkView;

    open spec fn view(&self) -> HunkView {
        HunkView { header: self.header@, lines: self.lines@.map_values(|l: DiffLine| l@) }
    }
}

impl View for DiffFile {
    type V = FileView;

    open spec fn view(&self) -> FileView {
        FileView {
            old_path: self.old_path@,
            new_path: self.new_path@,
            status: self.status@,
            hunks: self.hunks@.map_values(|h: DiffHunk| h@),
            is_binary: self.is_binary,
        }
    }
}

/// The views of a list of files.
pub open spec fn file_views(files: Seq<DiffFile>) -> Seq<FileView> {
    files.map_values(|f: DiffFile| f@)
}

/// What happened to a file.
#[derive(Debug, Clone, Copy, PartialEq, Eq)]
pub enum DeltaStatus {
    Added,
    Deleted,
    Renamed,
    Other,
}

/// One step of a patch being printed: the file that it is about, the hunk, where there is one,
/// and the line.
#[derive(Debug, Clone)]
pub struct DiffEvent {
    pub status: DeltaStatus,
    pub old_path: Option<String>,
    pub new_path: Option<String>,
    pub old_is_binary: bool,
    pub new_is_binary: bool,
    pub hunk_header: Option<Vec<u8>>,
    /// `F` for the header of a file.
    pub origin: char,
    pub content: Vec<u8>,
}

/// The word for what happened to a file.
pub open spec fn status_word(status: DeltaStatus) -> Seq<char> {
    match status {
        DeltaStatus::Added => "added"@,
        DeltaStatus::Deleted => "deleted"@,
        DeltaStatus::Renamed => "renamed"@,
        DeltaStatus::Other => "modified"@,
    }
}

/// The path, or an empty text where it is missing.
pub open spec fn path_or_empty(path: Option<String>) -> Seq<char> {
    match path {
        Some(p) => p@,
        None => Seq::empty(),
    }
}

/// Whether an event begins a file.
pub open spec fn begins_file(ev: DiffEvent) -> bool {
    ev.hunk_header is None && ev.origin == 'F'
}

/// The file that an event begins.
pub open spec fn file_begun(ev: DiffEvent) -> FileView {
    FileView {
        old_path: path_or_empty(ev.old_path),
        new_path: path_or_empty(ev.new_path),
        status: status_word(ev.status),
        hunks: Seq::empty(),
        is_binary: ev.old_is_binary || ev.new_is_binary,
    }
}

/// A file with one more hunk.
pub open spec fn with_hunk(file: FileView, header: Seq<char>) -> FileView {
    FileView { hunks: file.hunks.push(HunkView { header, lines: Seq::empty() }), ..file }
}

/// A hunk with one more line.
pub open spec fn with_line(hunk: HunkView, line: LineView) -> HunkView {
    HunkView { lines: hunk.lines.push(line), ..hunk }
}

/// A file whose last hunk has one more line.
pub open spec fn with_last_line(file: FileView, line: LineView) -> FileView {
    FileView {
        hunks: file.hunks.drop_last().push(with_line(file.hunks.last(), line)),
        ..file
    }
}

/// The files after one more event: the header of a file begins one; anything else goes to the
/// last file. An event that comes with a hunk begins a hunk without lines, whatever else it holds;
/// a line of text that comes without one goes to the last hunk.
pub open spec fn after_event(files: Seq<FileView>, ev: DiffEvent) -> Seq<FileView> {
    if begins_file(ev) {
        files.push(file_begun(ev))
    } else if files.len() == 0 {
        files
    } else if let Some(header) = ev.hunk_header {
        files.drop_last().push(
            with_hunk(files.last(), crate::bytes::utf8_lossy(header@)),
        )
    } else if (ev.origin == '+' || ev.origin == '-' || ev.origin == ' ') && files.last().hunks.len()
        > 0 {
        files.drop_last().push(
            with_last_line(
                files.last(),
                LineView {
                    origin: ev.origin,
                    content: crate::bytes::utf8_lossy(ev.content@),
                },
            ),
        )
    } else {
        files
    }
}

/// The files that a printed patch is about.
pub open spec fn files_of(events: Seq<DiffEvent>) -> Seq<FileView>
    decreases events.len(),
{
    if events.len() == 0 {
        Seq::empty()
    } else {
        after_event(files_of(events.drop_last()), events.last())
    }
}

/// The path, or an empty text where it is missing.
fn path_text(path: &Option<String>) -> (r: String)
    ensures
        r@ == path_or_empty(*path),
{
    match copy_opt(path) {
        Some(p) => p,
        None => String::new(),
    }
}

/// The word for what happened to a file.
fn word(status: DeltaStatus) -> (r: String)
    ensures
        r@ == status_word(status),
{
    match status {
        DeltaStatus::Added => "added".to_owned(),
        DeltaStatus::Deleted => "deleted".to_owned(),
        DeltaStatus::Renamed => "renamed".to_owned(),
        DeltaStatus::Other => "modified".to_owned(),
    }
}

/// Takes one more event into the files.
fn take_event(files: &mut Vec<DiffFile>, ev: &DiffEvent)
    ensures
        file_views(final(files)@) == after_event(file_views(old(files)@), *ev),
{
    let ghost before = file_views(files@);
    if ev.hunk_header.is_none() && ev.origin == 'F' {
        let file = DiffFile {
            old_path: path_text(&ev.old_path),
            new_path: path_text(&ev.new_path),
            status: word(ev.status),
            hunks: Vec::new(),
            is_binary: ev.old_is_binary || ev.new_is_binary,
        };
        assert(file@ == file_begun(*ev));
        files.push(file);
        assert(file_views(files@) == before.push(file@));
        return;
    }
    match files.pop() {
        None => {
            assert(before == Seq::<FileView>::empty());
        },
        Some(mut file) => {
            assert(file_views(files@) == before.drop_last());
            assert(file@ == before.last());
            let ghost file_before = file@;
            match &ev.hunk_header {
                Some(header) => {
                    let hunk = DiffHunk {
                        header: text_lossy(header.as_slice()),
                        lines: Vec::new(),
                    };
                    assert(hunk@ == (HunkView {
                        header: crate::bytes::utf8_lossy(header@),
                        lines: Seq::empty(),
                    }));
                    file.hunks.push(hunk);
                    assert(file@ == with_hunk(
                        file_before,
                        crate::bytes::utf8_lossy(header@),
                    ));
                },
                None => {
                    if ev.origin == '+' || ev.origin == '-' || ev.origin == ' ' {
                        match file.hunks.pop() {
                            None => {},
                            Some(mut hunk) => {
                                let ghost hunk_before = hunk@;
                                assert(hunk@ == file_before.hunks.last());
                                let line = DiffLine {
                                    origin: ev.origin,
                                    content: text_lossy(ev.content.as_slice()),
                                };
                                hunk.lines.push(line);
                                assert(hunk@ == with_line(hunk_before, line@));
                                file.hunks.push(hunk);
                                assert(file@ == with_last_line(file_before, line@));
                            },
                        }
                    }
                },
            }
            files.push(file);
            assert(file_views(files@) == before.drop_last().push(file@));
            assert(before.drop_last().push(before.last()) == before);
        },
    }
}

/// The files that a printed patch is about, with a hunk for each event that comes with one.
pub fn diff_to_files(events: &[DiffEvent]) -> (r: Vec<DiffFile>)
    ensures
        file_views(r@) == files_of(events@),
{
    let mut files: Vec<DiffFile> = Vec::new();
    assert(file_views(files@) == Seq::<FileView>::empty());
    for i in 0..events.len()
        invariant
            file_views(files@) == files_of(events@.take(i as int)),
    {
        take_event(&mut files, &events[i]);
        assert(events@.take(i + 1).drop_last() == events@.take(i as int));
        assert(events@.take(i + 1).last() == events@[i as int]);
    }
    assert(events@.take(events@.len() as int) == events@);
    files
}

/// There is one file for each header, in the order of the headers, and with what its header says
/// of it.
pub proof fn one_file_for_each_header(events: Seq<DiffEvent>)
    ensures
        files_of(events).len() == events.filter(|ev: DiffEvent| begins_file(ev)).len(),
        forall|i: int|
            0 <= i < files_of(events).len() ==> ({
                let file = #[trigger] files_of(events)[i];
                let header = file_begun(events.filter(|ev: DiffEvent| begins_file(ev))[i]);
                &&& file.old_path == header.old_path
                &&& file.new_path == header.new_path
                &&& file.status == header.status
                &&& file.is_binary == header.is_binary
            }),
    decreases events.len(),
{
    reveal(Seq::filter);
    if events.len() > 0 {
        one_file_for_each_header(events.drop_last());
    }
}

/// The lines of hunks, one hunk after the other.
pub open spec fn lines_of_hunks(hunks: Seq<HunkView>) -> Seq<LineView>
    decreases hunks.len(),
{
    if hunks.len() == 0 {
        Seq::empty()
    } else {
        lines_of_hunks(hunks.drop_last()) + hunks.last().lines
    }
}

/// The lines of files, one file after the other.
pub open spec fn lines_of_files(files: Seq<FileView>) -> Seq<LineView>
    decreases files.len(),
{
    if files.len() == 0 {
        Seq::empty()
    } else {
        lines_of_files(files.drop_last()) + lines_of_hunks(files.last().hunks)
    }
}

/// Whether an event is a line of text that comes without a hunk, and there is a hunk for it.
pub open spec fn is_kept_line(files: Seq<FileView>, ev: DiffEvent) -> bool {
    &&& ev.hunk_header is None
    &&& ev.origin == '+' || ev.origin == '-' || ev.origin == ' '
    &&& files.len() > 0
    &&& files.last().hunks.len() > 0
}

/// The lines of text that come without a hunk, behind one, in the order of the patch.
pub open spec fn kept_lines(events: Seq<DiffEvent>) -> Seq<LineView>
    decreases events.len(),
{
    if events.len() == 0 {
        Seq::empty()
    } else if is_kept_line(files_of(events.drop_last()), events.last()) {
        kept_lines(events.drop_last()).push(
            LineView {
                origin: events.last().origin,
                content: crate::bytes::utf8_lossy(events.last().content@),
            },
        )
    } else {
        kept_lines(events.drop_last())
    }
}

/// The lines that are kept are those that come without a hunk and have one before them in their
/// file: each of them once, and in the order of the patch. A line that comes together with its
/// hunk, as libgit2 hands over those inside of hunks, is not among them; it counts as a hunk.
pub proof fn lines_keep_their_order(events: Seq<DiffEvent>)
    ensures
        lines_of_files(files_of(events)) == kept_lines(events),
    decreases events.len(),
{
    if events.len() > 0 {
        let before = files_of(events.drop_last());
        let ev = events.last();
        let after = after_event(before, ev);
        lines_keep_their_order(events.drop_last());
        if begins_file(ev) {
            assert(after.drop_last() == before);
            assert(lines_of_hunks(after.last().hunks) == Seq::<LineView>::empty());
        } else if before.len() > 0 {
            let file = before.last();
            match ev.hunk_header {
                Some(header) => {
                    let grown = with_hunk(file, crate::bytes::utf8_lossy(header@));
                    assert(after.drop_last() == before.drop_last());
                    assert(after.last() == grown);
                    assert(grown.hunks.drop_last() == file.hunks);
                    assert(grown.hunks.last().lines == Seq::<LineView>::empty());
                },
                None => {
                    if is_kept_line(before, ev) {
                        let line = LineView {
                            origin: ev.origin,
                            content: crate::bytes::utf8_lossy(ev.content@),
                        };
                        let grown = with_last_line(file, line);
                        assert(after.drop_last() == before.drop_last());
                        assert(after.last() == grown);
                        assert(grown.hunks.drop_last() == file.hunks.drop_last());
                        assert(lines_of_hunks(grown.hunks) == lines_of_hunks(file.hunks).push(
                            line,
                        ));
                    }
                },
            }
        }
    }
}

/// The number of files that a patch begins: one with each event that has the mark of a header and
/// comes without a hunk.
pub open spec fn files_begun(events: Seq<DiffEvent>) -> int
    decreases events.len(),
{
    if events.len() == 0 {
        0
    } else {
        files_begun(events.drop_last()) + (if events.last().hunk_header is None
            && events.last().origin == 'F' {
            1int
        } else {
            0int
        })
    }
}

/// The hunks that a patch begins, in its order: the number of the file that each is in, and its
/// header. One begins with each event that comes with a hunk, once there is a file.
pub open spec fn hunks_begun(events: Seq<DiffEvent>) -> Seq<(int, Seq<char>)>
    decreases events.len(),
{
    if events.len() == 0 {
        Seq::empty()
    } else {
        let before = events.drop_last();
        match events.last().hunk_header {
            Some(header) => if files_begun(before) > 0 {
                hunks_begun(before).push(
                    (files_begun(before) - 1, crate::bytes::utf8_lossy(header@)),
                )
            } else {
                hunks_begun(before)
            },
            None => hunks_begun(before),
        }
    }
}

/// The lines that a patch has behind its hunks, in its order: the number of the hunk that began
/// last before each, and the line. A line counts where that hunk is in the file that began last.
pub open spec fn lines_behind_hunks(events: Seq<DiffEvent>) -> Seq<(int, LineView)>
    decreases events.len(),
{
    if events.len() == 0 {
        Seq::empty()
    } else {
        let before = events.drop_last();
        let ev = events.last();
        let hunks = hunks_begun(before);
        if ev.hunk_header is None && (ev.origin == '+' || ev.origin == '-' || ev.origin == ' ')
            && hunks.len() > 0 && hunks.last().0 == files_begun(before) - 1 {
            lines_behind_hunks(before).push(
                (
                    hunks.len() - 1,
                    LineView {
                        origin: ev.origin,
                        content: crate::bytes::utf8_lossy(ev.content@),
                    },
                ),
            )
        } else {
            lines_behind_hunks(before)
        }
    }
}

/// The hunks that files show, one file after the other: the number of the file, and the header.
pub open spec fn hunks_shown(files: Seq<FileView>) -> Seq<(int, Seq<char>)>
    decreases files.len(),
{
    if files.len() == 0 {
        Seq::empty()
    } else {
        hunks_shown(files.drop_last()) + Seq::new(
            files.last().hunks.len(),
            |i: int| (files.len() - 1, files.last().hunks[i].header),
        )
    }
}

/// The hunks of files, one file after the other.
pub open spec fn all_hunks(files: Seq<FileView>) -> Seq<HunkView>
    decreases files.len(),
{
    if files.len() == 0 {
        Seq::empty()
    } else {
        all_hunks(files.drop_last()) + files.last().hunks
    }
}

/// The lines that hunks show, one hunk after the other: the number of the hunk, and the line.
pub open spec fn lines_shown(hunks: Seq<HunkView>) -> Seq<(int, LineView)>
    decreases hunks.len(),
{
    if hunks.len() == 0 {
        Seq::empty()
    } else {
        lines_shown(hunks.drop_last()) + Seq::new(
            hunks.last().lines.len(),
            |i: int| (hunks.len() - 1, hunks.last().lines[i]),
        )
    }
}

/// Files show the hunks of the patch, each once, in its order and in the file that began last
/// before it; and the lines behind the hunks, each once, in their order and in the hunk that began
/// last before it.
pub proof fn hunks_and_lines_stand_where_the_patch_has_them(events: Seq<DiffEvent>)
    ensures
        files_of(events).len() == files_begun(events),
        hunks_shown(files_of(events)) == hunks_begun(events),
        lines_shown(all_hunks(files_of(events))) == lines_behind_hunks(events),
    decreases events.len(),
{
    if events.len() > 0 {
        let before = events.drop_last();
        let ev = events.last();
        let files = files_of(before);
        let after = files_of(events);
        hunks_and_lines_stand_where_the_patch_has_them(before);
        counts_agree(files);
        if begins_file(ev) {
            assert(after.drop_last() == files);
            assert(hunks_shown(after) == hunks_shown(files));
            assert(all_hunks(after) == all_hunks(files));
        } else if files.len() > 0 {
            let file = files.last();
            let rest = files.drop_last();
            counts_agree(rest);
            last_shown_hunk(files);
            match ev.hunk_header {
                Some(header) => {
                    let begun = HunkView {
                        header: crate::bytes::utf8_lossy(header@),
                        lines: Seq::empty(),
                    };
                    assert(after.drop_last() == rest);
                    assert(after.last().hunks == file.hunks.push(begun));
                    assert(hunks_shown(after) == hunks_shown(files).push(
                        (files.len() - 1, begun.header),
                    ));
                    assert(all_hunks(after) == all_hunks(files).push(begun));
                    assert(all_hunks(after).drop_last() == all_hunks(files));
                    assert(lines_shown(all_hunks(after)) == lines_shown(all_hunks(files)));
                },
                None => {
                    if is_kept_line(files, ev) {
                        let line = LineView {
                            origin: ev.origin,
                            content: crate::bytes::utf8_lossy(ev.content@),
                        };
                        let old_hunks = all_hunks(files);
                        let new_hunks = all_hunks(after);
                        let grown = with_line(file.hunks.last(), line);
                        assert(after.drop_last() == rest);
                        assert(after.last().hunks == file.hunks.drop_last().push(grown));
                        assert(hunks_shown(after) == hunks_shown(files));
                        assert(old_hunks.last() == file.hunks.last());
                        assert(new_hunks == old_hunks.drop_last().push(grown));
                        assert(new_hunks.drop_last() == old_hunks.drop_last());
                        assert(lines_shown(new_hunks) == lines_shown(old_hunks).push(
                            (old_hunks.len() - 1, line),
                        ));
                    }
                },
            }
        }
    }
}

proof fn counts_agree(files: Seq<FileView>)
    ensures
        hunks_shown(files).len() == all_hunks(files).len(),
        forall|i: int|
            0 <= i < hunks_shown(files).len() ==> (#[trigger] hunks_shown(files)[i]).0
                < files.len(),
    decreases files.len(),
{
    if files.len() > 0 {
        counts_agree(files.drop_last());
    }
}

/// The hunk that is shown last is in the last file exactly where that file has one.
proof fn last_shown_hunk(files: Seq<FileView>)
    requires
        files.len() > 0,
    ensures
        files.last().hunks.len() > 0 <==> hunks_shown(files).len() > 0 && hunks_shown(
            files,
        ).last().0 == files.len() - 1,
{
    counts_agree(files.drop_last());
    let rest = hunks_shown(files.drop_last());
    let own = Seq::new(
        files.last().hunks.len(),
        |i: int| (files.len() - 1, files.last().hunks[i].header),
    );
    assert(hunks_shown(files) == rest + own);
    if files.last().hunks.len() == 0 {
        assert(hunks_shown(files) == rest);
        if rest.len() > 0 {
            assert(rest[rest.len() - 1].0 < files.len() - 1);
        }
    }
}

/// A file is shown as its header says: with both its paths, an empty one where the header has
/// none, as binary where either side is, and with what happened to it.
pub proof fn file_is_as_its_header_says(events: Seq<DiffEvent>, ev: DiffEvent)
    requires
        ev.hunk_header is None,
        ev.origin == 'F',
    ensures
        ({
            let files = files_of(events.push(ev));
            let file = files.last();
            &&& files.drop_last() == files_of(events)
            &&& files.len() > 0
            &&& file.old_path == (match ev.old_path {
                Some(path) => path@,
                None => Seq::empty(),
            })
            &&& file.new_path == (match ev.new_path {
                Some(path) => path@,
                None => Seq::empty(),
            })
            &&& file.is_binary == (ev.old_is_binary || ev.new_is_binary)
            &&& file.hunks.len() == 0
            &&& file.status == (match ev.status {
                DeltaStatus::Added => "added"@,
                DeltaStatus::Deleted => "deleted"@,
                DeltaStatus::Renamed => "renamed"@,
                DeltaStatus::Other => "modified"@,
            })
        }),
{
    assert(events.push(ev).drop_last() == events);
    assert(files_of(events).push(file_begun(ev)).drop_last() == files_of(events));
}

/// What comes behind the header of a file changes neither its paths, nor its status, nor whether
/// it is binary, and changes no file before it.
pub proof fn later_events_leave_earlier_files_alone(events: Seq<DiffEvent>, ev: DiffEvent)
    requires
        !(ev.hunk_header is None && ev.origin == 'F'),
    ensures
        ({
            let before = files_of(events);
            let after = files_of(events.push(ev));
            &&& after.len() == before.len()
            &&& after.len() > 0 ==> {
                &&& after.drop_last() == before.drop_last()
                &&& after.last().old_path == before.last().old_path
                &&& after.last().new_path == before.last().new_path
                &&& after.last().status == before.last().status
                &&& after.last().is_binary == before.last().is_binary
            }
        }),
{
    let before = files_of(events);
    let after = files_of(events.push(ev));
    assert(events.push(ev).drop_last() == events);
    if before.len() > 0 {
        assert(after.drop_last() == before.drop_last());
    }
}

/// Files, hunks and lines are seen as they are, each with what it holds and in its place.
pub proof fn files_are_seen_as_they_are(
    files: Seq<DiffFile>,
    file: DiffFile,
    hunk: DiffHunk,
    line: DiffLine,
    i: int,
)
    ensures
        file_views(files).len() == files.len(),
        0 <= i < files.len() ==> file_views(files)[i] == files[i]@,
        file@.old_path == file.old_path@,
        file@.new_path == file.new_path@,
        file@.status == file.status@,
        file@.is_binary == file.is_binary,
        file@.hunks.len() == file.hunks@.len(),
        0 <= i < file.hunks@.len() ==> file@.hunks[i] == file.hunks@[i]@,
        hunk@.header == hunk.header@,
        hunk@.lines.len() == hunk.lines@.len(),
        0 <= i < hunk.lines@.len() ==> hunk@.lines[i] == hunk.lines@[i]@,
        line@.origin == line.origin,
        line@.content == line.content@,
{
}

} // verus!

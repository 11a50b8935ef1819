//! Commits: what is shown of one, and which of many are shown.
use vstd::prelude::*;
use vstd::string::*;

use crate::error::AppError;
use crate::numerals::decimal_u64;
use crate::rate_limiter::epoch_secs_now;
use crate::text::{joined, len_in_bytes, line_one};

verus! {

/// A commit, as it is shown.
#[derive(Debug, Clone)]
pub struct CommitInfo {
    pub sha: String,
    pub short_sha: String,
    pub message: String,
    pub subject: String,
    pub author: String,
    pub email: String,
    pub timestamp: i64,
    pub time_human: String,
}

/// A commit, as the repository gives it. A text that is not UTF-8 is missing.
#[derive(Debug, Clone)]
pub struct RawCommit {
    pub sha: String,
    pub message: Option<String>,
    pub author: Option<String>,
    pub email: Option<String>,
    pub seconds: i64,
}

/// A [`CommitInfo`] with its texts as sequences of characters.
#[verifier::ext_equal]
pub struct CommitView {
    pub sha: Seq<char>,
    pub short_sha: Seq<char>,
    pub message: Seq<char>,
    pub subject: Seq<char>,
    pub author: Seq<char>,
    pub email: Seq<char>,
    pub timestamp: i64,
    pub time_human: Seq<char>,
}

impl View for CommitInfo {
    type V = CommitView;

    open spec fn view(&self) -> CommitView {
        CommitView {
            sha: self.sha@,
            short_sha: self.short_sha@,
            message: self.message@,
            subject: self.subject@,
            author: self.author@,
            email: self.email@,
            timestamp: self.timestamp,
            time_human: self.time_human@,
        }
    }
}

/// The text whose encoding is the first eight bytes of that of `sha`, or `sha` itself where there
/// is none.
pub open spec fn first_eight(sha: Seq<char>) -> Seq<char> {
    let bytes = vstd::utf8::encode_utf8(sha);
    if bytes.len() >= 8 && vstd::utf8::is_char_boundary(bytes, 8) {
        vstd::utf8::decode_utf8(bytes.take(8))
    } else {
        sha
    }
}

/// The short form of an object name.
pub fn short_name(sha: &str) -> (r: String)
    ensures
        r@ == first_eight(sha@),
{
    if len_in_bytes(sha) >= 8 && sha.is_char_boundary(8) {
        let (front, _) = sha.split_at(8);
        proof {
            vstd::utf8::encode_utf8_decode_utf8(front@);
            assert(sha.spec_bytes().subrange(0, 8) == sha.spec_bytes().take(8));
        }
        front.to_owned()
    } else {
        sha.to_owned()
    }
}

/// The short form of a name in ASCII is its first eight characters.
pub proof fn short_form_of_ascii(sha: Seq<char>)
    requires
        vstd::utf8::is_ascii_chars(sha),
        sha.len() >= 8,
    ensures
        first_eight(sha) == sha.take(8),
{
    let bytes = vstd::utf8::encode_utf8(sha);
    let front = sha.take(8);
    vstd::utf8::is_ascii_chars_encode_utf8(sha);
    vstd::utf8::encode_utf8_valid_utf8(sha);
    assert forall|i: int| 0 <= i < front.len() implies '\0' <= #[trigger] front[i]
        <= '\u{7f}' by {
        assert(front[i] == sha[i]);
    }
    vstd::utf8::is_ascii_chars_encode_utf8(front);
    assert(vstd::utf8::encode_utf8(front) == bytes.take(8)) by {
        assert forall|i: int| 0 <= i < 8 implies vstd::utf8::encode_utf8(front)[i]
            == bytes.take(8)[i] by {
            assert(front[i] == sha[i]);
        }
    }
    vstd::utf8::encode_utf8_decode_utf8(front);
    if sha.len() == 8 {
        vstd::utf8::is_char_boundary_start_end_of_seq(bytes);
    } else {
        vstd::utf8::is_char_boundary_iff_not_is_continuation_byte(bytes, 8);
        assert(bytes[8] == sha[8] as u8);
        assert('\0' <= sha[8] <= '\u{7f}');
    }
}

/// The seconds that have passed from `unix` to `now`; none for a time to come.
pub open spec fn seconds_since(unix: int, now: int) -> int {
    if now > unix {
        now - unix
    } else {
        0
    }
}

/// How long ago something was, in the largest unit that has passed, up to days.
pub open spec fn ago(seconds: int) -> Seq<char> {
    if seconds < 60 {
        "just now"@
    } else if seconds < 3600 {
        crate::numerals::decimal((seconds / 60) as nat) + " minutes ago"@
    } else if seconds < 86400 {
        crate::numerals::decimal((seconds / 3600) as nat) + " hours ago"@
    } else {
        crate::numerals::decimal((seconds / 86400) as nat) + " days ago"@
    }
}

/// How long before `now` the time `unix` was. A time to come counts as now.
pub fn relative_time_at(unix: i64, now: i64) -> (r: String)
    ensures
        r@ == ago(seconds_since(unix as int, now as int)),
{
    let diff: u64 = if now > unix {
        (now as i128 - unix as i128) as u64
    } else {
        0
    };
    if diff < 60 {
        "just now".to_owned()
    } else if diff < 3600 {
        joined(decimal_u64(diff / 60).as_str(), " minutes ago")
    } else if diff < 86400 {
        joined(decimal_u64(diff / 3600).as_str(), " hours ago")
    } else {
        joined(decimal_u64(diff / 86400).as_str(), " days ago")
    }
}

/// How long ago the time `unix` was.
pub fn relative_time(unix: i64) -> (r: String)
    ensures
        exists|now: int|
            crate::clock::was_read(now) && r@ == ago(#[trigger] seconds_since(unix as int, now)),
{
    relative_time_at(unix, epoch_secs_now())
}

/// The text, or the default where it is missing.
pub open spec fn or_text(t: Option<String>, default: Seq<char>) -> Seq<char> {
    match t {
        Some(s) => s@,
        None => default,
    }
}

/// How a commit is shown at the time `now`.
pub open spec fn shown_commit(raw: RawCommit, now: int) -> CommitView {
    let message = or_text(raw.message, Seq::empty());
    CommitView {
        sha: raw.sha@,
        short_sha: first_eight(raw.sha@),
        message,
        subject: crate::text::first_line(message),
        author: or_text(raw.author, "Unknown"@),
        email: or_text(raw.email, Seq::empty()),
        timestamp: raw.seconds,
        time_human: ago(seconds_since(raw.seconds as int, now)),
    }
}

/// The text, or the default where it is missing.
fn text_or_default(t: Option<String>, default: &str) -> (r: String)
    ensures
        r@ == or_text(t, default@),
{
    match t {
        Some(s) => s,
        None => default.to_owned(),
    }
}

/// How a commit is shown at the time `now`.
pub fn commit_info_at(raw: RawCommit, now: i64) -> (r: CommitInfo)
    ensures
        r@ == shown_commit(raw, now as int),
{
    proof {
        reveal_strlit("");
        assert(""@ == Seq::<char>::empty());
    }
    let message = text_or_default(raw.message, "");
    let subject = line_one(message.as_str());
    CommitInfo {
        short_sha: short_name(raw.sha.as_str()),
        sha: raw.sha,
        message,
        subject,
        author: text_or_default(raw.author, "Unknown"),
        email: text_or_default(raw.email, ""),
        timestamp: raw.seconds,
        time_human: relative_time_at(raw.seconds, now),
    }
}

/// Whether a commit is shown as it is at a time that the clock gave.
pub open spec fn shown_by_the_clock(raw: RawCommit, shown: CommitView) -> bool {
    exists|now: int| crate::clock::was_read(now) && shown == #[trigger] shown_commit(raw, now)
}

/// How a commit is shown now.
pub fn commit_info(raw: RawCommit) -> (r: CommitInfo)
    ensures
        shown_by_the_clock(raw, r@),
{
    commit_info_at(raw, epoch_secs_now())
}

/// What is to be done with the next commit of a history.
#[derive(Debug, Clone, Copy, PartialEq, Eq)]
pub enum PageStep {
    /// It is before the page.
    Skip,
    /// It is on the page.
    Take,
    /// It is behind the page; the commits after it need not be looked at.
    Stop,
}

/// What is to be done with the commit at position `i`, counted from zero.
pub open spec fn page_step(skip: int, limit: int, i: int) -> PageStep {
    if i < skip {
        PageStep::Skip
    } else if i < skip + limit {
        PageStep::Take
    } else {
        PageStep::Stop
    }
}

/// A page of a history, while the history is walked.
#[derive(Debug, Clone)]
pub struct CommitPage {
    skip: u64,
    limit: u64,
    position: u64,
}

impl CommitPage {
    /// The commits before the page.
    pub closed spec fn skip(&self) -> int {
        self.skip as int
    }

    /// The commits on a full page.
    pub closed spec fn limit(&self) -> int {
        self.limit as int
    }

    /// The position of the next commit in the history, counted from zero, up to the one behind the
    /// page.
    pub closed spec fn position(&self) -> int {
        self.position as int
    }

    /// The walk is before the page, on it or right behind it.
    pub closed spec fn wf(&self) -> bool {
        self.position <= self.skip + self.limit <= u64::MAX
    }

    /// What is to be done with the next commit.
    pub fn on_commit(&mut self) -> (r: PageStep)
        requires
            old(self).wf(),
        ensures
            final(self).wf(),
            final(self).skip() == old(self).skip(),
            final(self).limit() == old(self).limit(),
            r == page_step(old(self).skip(), old(self).limit(), old(self).position()),
            final(self).position() == old(self).position() + (if r == PageStep::Stop {
                0int
            } else {
                1int
            }),
    {
        if self.position < self.skip {
            self.position = self.position + 1;
            PageStep::Skip
        } else if self.position < self.skip + self.limit {
            self.position = self.position + 1;
            PageStep::Take
        } else {
            PageStep::Stop
        }
    }
}

/// The page of the given number, pages being counted from one, with so many commits on each.
pub fn list_commits(page: u32, per_page: u32) -> (r: CommitPage)
    requires
        page >= 1,
    ensures
        r.wf(),
        r.skip() == (page - 1) * per_page,
        r.limit() == per_page,
        r.position() == 0,
{
    proof {
        assert(0 <= (page - 1) * per_page <= 0xffff_fffe * 0xffff_ffff) by (nonlinear_arith)
            requires
                0 <= page - 1 <= 0xffff_fffe,
                0 <= per_page <= 0xffff_ffff,
        ;
    }
    CommitPage {
        skip: (page as u64 - 1) * (per_page as u64),
        limit: per_page as u64,
        position: 0,
    }
}

/// Every commit of a history is on one page, and only on that one.
pub proof fn each_commit_is_on_one_page(i: int, page: int, per_page: int)
    requires
        i >= 0,
        page >= 1,
        per_page >= 1,
    ensures
        page_step((page - 1) * per_page, per_page, i) == PageStep::Take <==> page == i / per_page
            + 1,
{
    let q = i / per_page;
    assert(q * per_page <= i < q * per_page + per_page) by (nonlinear_arith)
        requires
            q == i / per_page,
            per_page >= 1,
    ;
    if (page - 1) * per_page <= i < (page - 1) * per_page + per_page {
        assert(page - 1 == q) by (nonlinear_arith)
            requires
                per_page >= 1,
                (page - 1) * per_page <= i < (page - 1) * per_page + per_page,
                q * per_page <= i < q * per_page + per_page,
        ;
    }
}

/// How the commits that touched a path are found.
#[derive(Debug, Clone, Copy, PartialEq, Eq)]
pub enum TreeLog {
    /// Every commit touches the whole tree: the first page of the history, this long.
    Latest(u32),
    /// The history is walked, and each commit looked at.
    Walk,
}

/// How the commits that touched `path` are found.
pub fn commits_for_tree(path: &str, limit: usize) -> (r: TreeLog)
    ensures
        path@.len() == 0 ==> r == TreeLog::Latest(limit as u32),
        path@.len() > 0 ==> r == TreeLog::Walk,
{
    if path.is_empty() {
        TreeLog::Latest(#[verifier::truncate] (limit as u32))
    } else {
        TreeLog::Walk
    }
}

/// What is known of a commit with regard to a path.
#[derive(Debug, Clone, Copy, PartialEq, Eq)]
pub enum TouchProbe {
    /// It has no parent; whether the path is in its tree.
    Root(bool),
    /// It has a parent; the number of changes under the path against the first one.
    Child(usize),
}

/// Whether the commit touched the path.
pub open spec fn is_touched(probe: TouchProbe) -> bool {
    match probe {
        TouchProbe::Root(present) => present,
        TouchProbe::Child(changes) => changes > 0,
    }
}

/// The commits that touched a path, while the history is walked.
#[derive(Debug, Clone)]
pub struct TreeWalk {
    limit: usize,
    taken: usize,
}

impl TreeWalk {
    /// The most commits that are taken.
    pub closed spec fn limit(&self) -> int {
        self.limit as int
    }

    /// The commits that were taken.
    pub closed spec fn taken(&self) -> int {
        self.taken as int
    }

    /// A walk that has taken nothing yet.
    pub fn new(limit: usize) -> (r: Self)
        ensures
            r.limit() == limit,
            r.taken() == 0,
    {
        TreeWalk { limit, taken: 0 }
    }

    /// Whether another commit is to be looked at.
    pub fn wants_more(&self) -> (r: bool)
        ensures
            r == (self.taken() < self.limit()),
    {
        self.taken < self.limit
    }

    /// Whether the commit is taken: those that touched the path are.
    pub fn on_commit(&mut self, probe: TouchProbe) -> (r: bool)
        requires
            old(self).taken() < old(self).limit(),
        ensures
            r == is_touched(probe),
            final(self).limit() == old(self).limit(),
            final(self).taken() == old(self).taken() + (if r {
                1int
            } else {
                0int
            }),
    {
        let touched = match probe {
            TouchProbe::Root(present) => present,
            TouchProbe::Child(changes) => changes > 0,
        };
        if touched {
            self.taken = self.taken + 1;
        }
        touched
    }
}

/// The positions of the commits that a walk takes: it looks at a commit as long as it has not
/// taken enough, and takes those that touched the path.
pub open spec fn walk_takes(limit: int, probes: Seq<TouchProbe>) -> Seq<int>
    decreases probes.len(),
{
    if probes.len() == 0 {
        Seq::empty()
    } else {
        let before = walk_takes(limit, probes.drop_last());
        if before.len() < limit && is_touched(probes.last()) {
            before.push(probes.len() - 1)
        } else {
            before
        }
    }
}

/// The positions of all the commits that touched the path, in the order of the history.
pub open spec fn touched_positions(probes: Seq<TouchProbe>) -> Seq<int>
    decreases probes.len(),
{
    if probes.len() == 0 {
        Seq::empty()
    } else if is_touched(probes.last()) {
        touched_positions(probes.drop_last()).push(probes.len() - 1)
    } else {
        touched_positions(probes.drop_last())
    }
}

/// The commits that a walk takes are the first ones that touched the path, up to the limit, in
/// the order of the history.
pub proof fn walk_takes_the_first_that_touched(limit: int, probes: Seq<TouchProbe>)
    requires
        limit >= 0,
    ensures
        walk_takes(limit, probes) == (if touched_positions(probes).len() <= limit {
            touched_positions(probes)
        } else {
            touched_positions(probes).take(limit)
        }),
    decreases probes.len(),
{
    if probes.len() > 0 {
        let rest = probes.drop_last();
        walk_takes_the_first_that_touched(limit, rest);
        let all = touched_positions(rest);
        if is_touched(probes.last()) && all.len() >= limit {
            assert(all.push(probes.len() - 1).take(limit) == all.take(limit));
            assert(all.take(all.len() as int) == all);
        }
    }
}

/// The value of a hexadecimal digit, in either case; -1 for anything else.
pub open spec fn hex_digit_value(c: char) -> int {
    if '0' <= c <= '9' {
        c as int - 48
    } else if 'a' <= c <= 'f' {
        c as int - 87
    } else if 'A' <= c <= 'F' {
        c as int - 55
    } else {
        -1
    }
}

/// Whether a text names an object: it has one to forty characters, all hexadecimal digits.
pub open spec fn is_object_name(sha: Seq<char>) -> bool {
    1 <= sha.len() <= 40 && forall|i: int|
        0 <= i < sha.len() ==> hex_digit_value(#[trigger] sha[i]) >= 0
}

/// The digit of an object name at position `i`, zero behind the last one.
pub open spec fn name_digit(sha: Seq<char>, i: int) -> int {
    if i < sha.len() {
        hex_digit_value(sha[i])
    } else {
        0
    }
}

/// The twenty bytes of an object name, each of two digits; a short name is filled up with zeros.
pub open spec fn object_bytes(sha: Seq<char>) -> Seq<u8> {
    Seq::new(20, |i: int| (name_digit(sha, 2 * i) * 16 + name_digit(sha, 2 * i + 1)) as u8)
}

/// What is said of a text that names no object.
pub uninterp spec fn object_name_error(sha: Seq<char>) -> Seq<char>;

/// `git2::Oid::from_str`, as the bytes of the object name or the text of the error. There are
/// bytes exactly for one to forty hexadecimal digits, which fill the bytes from the front. The
/// text of the error depends on the given text alone.
#[verifier::external_body]
fn oid_from_hex(sha: &str) -> (r: Result<Vec<u8>, String>)
    ensures
        r is Ok <==> is_object_name(sha@),
        r is Ok ==> r->Ok_0@ == object_bytes(sha@),
        r is Err ==> r->Err_0@ == object_name_error(sha@),
{
    git2::Oid::from_str(sha).map(|o| o.as_bytes().to_vec()).map_err(|e| e.to_string())
}

/// The name of the commit that is asked for.
pub fn commit_oid(sha: &str) -> (r: Result<Vec<u8>, AppError>)
    ensures
        if is_object_name(sha@) {
            r matches Ok(b) && b@ == object_bytes(sha@)
        } else {
            r matches Err(e) && e@ == crate::error::Fault::Internal(object_name_error(sha@))
        },
{
    match oid_from_hex(sha) {
        Ok(bytes) => Ok(bytes),
        Err(text) => Err(AppError::Internal(text)),
    }
}

/// How long ago something was is told in whole minutes below an hour, in whole hours below a day
/// and in whole days from there on; below a minute it is just now.
pub proof fn age_is_told_in_the_largest_unit(seconds: int, n: nat)
    ensures
        seconds < 60 ==> ago(seconds) == "just now"@,
        1 <= n < 60 && n * 60 <= seconds < (n + 1) * 60 ==> ago(seconds)
            == crate::numerals::decimal(n) + " minutes ago"@,
        1 <= n < 24 && n * 3600 <= seconds < (n + 1) * 3600 ==> ago(seconds)
            == crate::numerals::decimal(n) + " hours ago"@,
        1 <= n && n * 86400 <= seconds < (n + 1) * 86400 ==> ago(seconds)
            == crate::numerals::decimal(n) + " days ago"@,
{
}

/// Only the time between the two counts, and what is still to come is just now.
pub proof fn only_the_time_between_counts(unix: int, now: int, later: int)
    ensures
        seconds_since(unix + later, now + later) == seconds_since(unix, now),
        now <= unix ==> ago(seconds_since(unix, now)) == "just now"@,
        later >= 0 ==> seconds_since(unix, unix + later) == later,
{
}

/// Whether an age in words is right for something from the time `unix` at the time `now`.
pub open spec fn tells_the_age(words: Seq<char>, unix: int, now: int) -> bool {
    &&& now - unix < 60 ==> words == "just now"@
    &&& forall|n: nat|
        1 <= n < 60 && n * 60 <= now - unix < (n + 1) * 60 ==> words
            == #[trigger] crate::numerals::decimal(n) + " minutes ago"@
    &&& forall|n: nat|
        1 <= n < 24 && n * 3600 <= now - unix < (n + 1) * 3600 ==> words
            == #[trigger] crate::numerals::decimal(n) + " hours ago"@
    &&& forall|n: nat|
        1 <= n && n * 86400 <= now - unix < (n + 1) * 86400 ==> words
            == #[trigger] crate::numerals::decimal(n) + " days ago"@
}

/// The age that a commit is shown with is the one that it has at a time that the clock gave, and
/// the rest is what the repository gives, with a missing author unknown and other missing texts
/// empty.
pub proof fn commit_is_shown_by_the_clock(raw: RawCommit, shown: CommitView)
    requires
        shown_by_the_clock(raw, shown),
    ensures
        exists|now: int| #[trigger]
            crate::clock::was_read(now) && tells_the_age(
                shown.time_human,
                raw.seconds as int,
                now,
            ),
        shown.sha == raw.sha@,
        shown.timestamp == raw.seconds,
        shown.message == (match raw.message {
            Some(text) => text@,
            None => Seq::<char>::empty(),
        }),
        shown.subject == crate::text::first_line(shown.message),
        shown.author == (match raw.author {
            Some(text) => text@,
            None => "Unknown"@,
        }),
        shown.email == (match raw.email {
            Some(text) => text@,
            None => Seq::<char>::empty(),
        }),
        shown.short_sha == first_eight(raw.sha@),
{
    let now = choose|now: int|
        crate::clock::was_read(now) && shown == #[trigger] shown_commit(raw, now);
    commit_is_shown_at_a_time(raw, now);
    assert(crate::clock::was_read(now) && tells_the_age(
        shown.time_human,
        raw.seconds as int,
        now,
    ));
}

/// The age that a commit is shown with at a time is the one that it has then.
pub proof fn commit_is_shown_at_a_time(raw: RawCommit, now: int)
    ensures
        tells_the_age(shown_commit(raw, now).time_human, raw.seconds as int, now),
        raw.sha@ == shown_commit(raw, now).sha,
        shown_commit(raw, now).timestamp == raw.seconds,
{
    let seconds = seconds_since(raw.seconds as int, now);
    let words = shown_commit(raw, now).time_human;
    age_is_told_in_the_largest_unit(seconds, 0);
    assert forall|n: nat|
        1 <= n < 60 && n * 60 <= now - raw.seconds < (n + 1) * 60 implies words
        == #[trigger] crate::numerals::decimal(n) + " minutes ago"@ by {
        age_is_told_in_the_largest_unit(seconds, n);
    }
    assert forall|n: nat|
        1 <= n < 24 && n * 3600 <= now - raw.seconds < (n + 1) * 3600 implies words
        == #[trigger] crate::numerals::decimal(n) + " hours ago"@ by {
        age_is_told_in_the_largest_unit(seconds, n);
    }
    assert forall|n: nat|
        1 <= n && n * 86400 <= now - raw.seconds < (n + 1) * 86400 implies words
        == #[trigger] crate::numerals::decimal(n) + " days ago"@ by {
        age_is_told_in_the_largest_unit(seconds, n);
    }
}

/// The short form of an object name has the first eight bytes of the name, and is the name itself
/// where it has fewer or where they end within a character.
pub proof fn short_form_is_the_front(sha: Seq<char>)
    ensures
        ({
            let bytes = vstd::utf8::encode_utf8(sha);
            let short = vstd::utf8::encode_utf8(first_eight(sha));
            &&& bytes.len() >= 8 && vstd::utf8::is_char_boundary(bytes, 8) ==> short.len() == 8
                && short.is_prefix_of(bytes)
            &&& bytes.len() < 8 || !vstd::utf8::is_char_boundary(bytes, 8) ==> first_eight(sha)
                == sha
        }),
{
    let bytes = vstd::utf8::encode_utf8(sha);
    if bytes.len() >= 8 && vstd::utf8::is_char_boundary(bytes, 8) {
        vstd::utf8::encode_utf8_valid_utf8(sha);
        vstd::utf8::valid_utf8_split(bytes, 8);
        assert(bytes.take(8) == bytes.subrange(0, 8));
        vstd::utf8::decode_utf8_encode_utf8(bytes.take(8));
    }
}

/// The commits of the pages before come before a page, and those of the pages after behind it.
pub proof fn pages_follow_one_another(i: int, page: int, per_page: int)
    requires
        i >= 0,
        page >= 1,
        per_page >= 1,
    ensures
        page_step((page - 1) * per_page, per_page, i) == PageStep::Skip <==> i / per_page + 1
            < page,
        page_step((page - 1) * per_page, per_page, i) == PageStep::Stop <==> i / per_page + 1
            > page,
{
    let q = i / per_page;
    assert(q * per_page <= i < q * per_page + per_page) by (nonlinear_arith)
        requires
            q == i / per_page,
            per_page >= 1,
    ;
    if q + 1 < page {
        assert((q + 1) * per_page <= (page - 1) * per_page) by (nonlinear_arith)
            requires
                q + 1 <= page - 1,
                per_page >= 1,
        ;
        assert((q + 1) * per_page == q * per_page + per_page) by (nonlinear_arith);
    }
    if q + 1 > page {
        assert(page * per_page <= q * per_page) by (nonlinear_arith)
            requires
                page <= q,
                per_page >= 1,
        ;
        assert((page - 1) * per_page + per_page == page * per_page) by (nonlinear_arith);
    }
    each_commit_is_on_one_page(i, page, per_page);
}

/// The first commit of a history touched a path that is in its tree, and any other one a path
/// under which something changed; those are the commits that are taken.
pub proof fn commits_with_changes_are_taken(probes: Seq<TouchProbe>, changes: usize, present: bool)
    ensures
        is_touched(TouchProbe::Root(present)) <==> present,
        is_touched(TouchProbe::Child(changes)) <==> changes != 0,
        forall|i: int|
            0 <= i < probes.len() ==> (touched_positions(probes).contains(i) <==> match #[trigger] probes[i] {
                TouchProbe::Root(there) => there,
                TouchProbe::Child(n) => n != 0,
            }),
        forall|k: int|
            0 <= k < touched_positions(probes).len() ==> 0 <= #[trigger] touched_positions(
                probes,
            )[k] < probes.len(),
        forall|k: int, l: int|
            0 <= k < l < touched_positions(probes).len() ==> #[trigger] touched_positions(
                probes,
            )[k] < #[trigger] touched_positions(probes)[l],
    decreases probes.len(),
{
    if probes.len() > 0 {
        let rest = probes.drop_last();
        let before = touched_positions(rest);
        let after = touched_positions(probes);
        commits_with_changes_are_taken(rest, changes, present);
        assert forall|i: int| 0 <= i < probes.len() implies (after.contains(i)
            <==> match #[trigger] probes[i] {
            TouchProbe::Root(there) => there,
            TouchProbe::Child(n) => n != 0,
        }) by {
            if i < rest.len() {
                assert(rest[i] == probes[i]);
                if before.contains(i) {
                    let k = before.index_of(i);
                    assert(after[k] == i);
                }
                if after.contains(i) {
                    let k = after.index_of(i);
                    assert(before[k] == i);
                }
            } else if after.contains(i) {
                let k = after.index_of(i);
                assert(after[k] == i);
                if k < before.len() {
                    assert(before[k] == i);
                }
            } else if is_touched(probes.last()) {
                assert(after[before.len() as int] == i);
            }
        }
    }
}

/// The bytes of an object name are written with its digits: two for each byte, zeros where it has
/// no more.
pub proof fn object_bytes_are_the_digits(sha: Seq<char>, i: int)
    requires
        is_object_name(sha),
        0 <= i < 20,
    ensures
        object_bytes(sha).len() == 20,
        2 * i + 1 < sha.len() ==> object_bytes(sha)[i] == 16 * hex_digit_value(sha[2 * i])
            + hex_digit_value(sha[2 * i + 1]),
        2 * i + 1 == sha.len() ==> object_bytes(sha)[i] == 16 * hex_digit_value(sha[2 * i]),
        2 * i >= sha.len() ==> object_bytes(sha)[i] == 0,
{
    if 2 * i < sha.len() {
        assert(hex_digit_value(sha[2 * i]) >= 0);
    }
    if 2 * i + 1 < sha.len() {
        assert(hex_digit_value(sha[2 * i + 1]) >= 0);
    }
}

/// A commit that is shown is seen as it is.
pub proof fn shown_commits_are_seen_as_they_are(c: CommitInfo)
    ensures
        c@.sha == c.sha@,
        c@.short_sha == c.short_sha@,
        c@.message == c.message@,
        c@.subject == c.subject@,
        c@.author == c.author@,
        c@.email == c.email@,
        c@.timestamp == c.timestamp,
        c@.time_human == c.time_human@,
{
}

} // verus!

//! Text as sequences of characters: the searching, cutting and number formatting that the rest
//! of the library is stated over.
use vstd::prelude::*;
use vstd::slice::slice_subrange;
use vstd::string::*;

verus! {

/// `String::push`: the character becomes the last one of the string.
pub assume_specification[ String::push ](s: &mut String, c: char)
    ensures
        final(s)@ == old(s)@.push(c),
;

/// The views of a list of strings.
pub open spec fn views(list: Seq<String>) -> Seq<Seq<char>> {
    list.map_values(|s: String| s@)
}

/// The view of an optional string.
pub open spec fn opt_view(s: Option<String>) -> Option<Seq<char>> {
    match s {
        Some(t) => Some(t@),
        None => None,
    }
}

/// The view of an optional borrowed string.
pub open spec fn opt_str_view(s: Option<&str>) -> Option<Seq<char>> {
    match s {
        Some(t) => Some(t@),
        None => None,
    }
}

/// The characters of `s`, one by one.
pub fn chars_of(s: &str) -> (r: Vec<char>)
    ensures
        r@ == s@,
{
    let mut out: Vec<char> = Vec::new();
    for c in it: s.chars()
        invariant
            out@ == it.seq().take(it.index()),
            it.seq() == s@,
    {
        out.push(c);
    }
    out
}

/// The string made of the given characters.
pub fn string_of(chars: &[char]) -> (r: String)
    ensures
        r@ == chars@,
{
    let mut out = String::new();
    for i in 0..chars.len()
        invariant
            out@ == chars@.take(i as int),
    {
        out.push(chars[i]);
        assert(chars@.take(i + 1) == chars@.take(i as int).push(chars@[i as int]));
    }
    assert(chars@.take(chars@.len() as int) == chars@);
    out
}

/// Whether two texts hold the same characters.
pub fn same_text(a: &str, b: &str) -> (r: bool)
    ensures
        r == (a@ == b@),
{
    let x = chars_of(a);
    let y = chars_of(b);
    same_chars(x.as_slice(), y.as_slice())
}

/// Whether two character lists are equal.
pub fn same_chars(a: &[char], b: &[char]) -> (r: bool)
    ensures
        r == (a@ == b@),
{
    if a.len() != b.len() {
        return false;
    }
    for i in 0..a.len()
        invariant
            a@.len() == b@.len(),
            forall|j: int| 0 <= j < i ==> a@[j] == b@[j],
    {
        if a[i] != b[i] {
            return false;
        }
    }
    assert(a@ == b@);
    true
}

/// A copy of an optional string.
pub fn copy_opt(s: &Option<String>) -> (r: Option<String>)
    ensures
        opt_view(r) == opt_view(*s),
{
    match s {
        Some(t) => Some(t.clone()),
        None => None,
    }
}

/// Whether `part` stands in `s` at position `at`.
pub open spec fn occurs_at(s: Seq<char>, part: Seq<char>, at: int) -> bool {
    0 <= at <= s.len() - part.len() && s.subrange(at, at + part.len()) == part
}

/// Whether `part` occurs in `s` as a run of neighbouring characters.
pub open spec fn has_infix(s: Seq<char>, part: Seq<char>) -> bool {
    exists|i: int| occurs_at(s, part, i)
}

/// Whether `part` stands in `s` at position `at`.
pub fn stands_at(s: &[char], part: &[char], at: usize) -> (r: bool)
    requires
        at + part@.len() <= s@.len(),
    ensures
        r == occurs_at(s@, part@, at as int),
{
    let room: usize = s.len();
    assert(at + part@.len() <= room);
    let end: usize = at + part.len();
    same_chars(slice_subrange(s, at, end), part)
}

/// Whether `part` occurs in `s`.
pub fn contains_text(s: &str, part: &str) -> (r: bool)
    ensures
        r == has_infix(s@, part@),
{
    let text = chars_of(s);
    let wanted = chars_of(part);
    if wanted.len() > text.len() {
        return false;
    }
    let last: usize = text.len() - wanted.len();
    let mut at: usize = 0;
    while at <= last
        invariant
            text@ == s@,
            wanted@ == part@,
            last == text@.len() - wanted@.len(),
            0 <= at <= last + 1,
            last + 1 <= usize::MAX || at <= last,
            forall|j: int| 0 <= j < at ==> !occurs_at(s@, part@, j),
        decreases last + 1 - at,
    {
        if stands_at(text.as_slice(), wanted.as_slice(), at) {
            return true;
        }
        if at == last {
            return false;
        }
        at = at + 1;
    }
    false
}

/// Whether the character `c` occurs in `s`.
pub fn contains_char(s: &str, c: char) -> (r: bool)
    ensures
        r == s@.contains(c),
{
    for x in it: s.chars()
        invariant
            it.seq() == s@,
            forall|j: int| 0 <= j < it.index() ==> s@[j] != c,
    {
        if x == c {
            return true;
        }
    }
    false
}

/// Whether `s` begins with `part`.
pub fn begins_with(s: &str, part: &str) -> (r: bool)
    ensures
        r == part@.is_prefix_of(s@),
{
    let text = chars_of(s);
    let wanted = chars_of(part);
    if wanted.len() > text.len() {
        return false;
    }
    assert(text@.subrange(0, wanted@.len() as int) == text@.take(wanted@.len() as int));
    stands_at(text.as_slice(), wanted.as_slice(), 0)
}

/// Whether `s` ends with `part`.
pub fn finishes_with(s: &str, part: &str) -> (r: bool)
    ensures
        r == part@.is_suffix_of(s@),
{
    let text = chars_of(s);
    let wanted = chars_of(part);
    if wanted.len() > text.len() {
        return false;
    }
    stands_at(text.as_slice(), wanted.as_slice(), text.len() - wanted.len())
}

/// What follows `prefix` in `s`, where `s` begins with it.
pub open spec fn after_prefix(s: Seq<char>, prefix: Seq<char>) -> Option<Seq<char>> {
    if prefix.is_prefix_of(s) {
        Some(s.skip(prefix.len() as int))
    } else {
        None
    }
}

/// What follows `prefix` in `s`, where `s` begins with it.
pub fn strip_front(s: &str, prefix: &str) -> (r: Option<String>)
    ensures
        opt_view(r) == after_prefix(s@, prefix@),
{
    if !begins_with(s, prefix) {
        return None;
    }
    let text = chars_of(s);
    let n: usize = prefix.unicode_len();
    Some(string_of(slice_subrange(text.as_slice(), n, text.len())))
}

/// The position of the first `c` in `s`, or the length of `s` where there is none.
pub open spec fn first_index(s: Seq<char>, c: char) -> int
    decreases s.len(),
{
    if s.len() == 0 || s[0] == c {
        0
    } else {
        1 + first_index(s.drop_first(), c)
    }
}

/// `first_index` is the length of the longest front part without `c`.
pub proof fn first_index_bounds(s: Seq<char>, c: char)
    ensures
        0 <= first_index(s, c) <= s.len(),
        forall|j: int| 0 <= j < first_index(s, c) ==> s[j] != c,
        first_index(s, c) < s.len() ==> s[first_index(s, c)] == c,
        first_index(s, c) < s.len() <==> s.contains(c),
    decreases s.len(),
{
    if s.len() > 0 && s[0] != c {
        let rest = s.drop_first();
        first_index_bounds(rest, c);
        assert forall|j: int| 0 <= j < first_index(s, c) implies s[j] != c by {
            if j > 0 {
                assert(rest[j - 1] == s[j]);
            }
        }
        if first_index(s, c) < s.len() {
            assert(rest[first_index(rest, c)] == s[first_index(s, c)]);
        }
        if s.contains(c) {
            let k = choose|k: int| 0 <= k < s.len() && s[k] == c;
            assert(rest[k - 1] == c);
        }
    } else if s.len() > 0 {
        assert(s[0] == c);
    }
}

/// A position before which `c` does not occur and at which it does is the first one.
proof fn first_index_is(s: Seq<char>, c: char, at: int)
    requires
        0 <= at <= s.len(),
        forall|j: int| 0 <= j < at ==> s[j] != c,
        at < s.len() ==> s[at] == c,
    ensures
        first_index(s, c) == at,
{
    first_index_bounds(s, c);
    let f = first_index(s, c);
    if f < at {
        assert(s[f] != c);
    }
    if at < f {
        assert(s[at] != c);
    }
}

/// The position of the first `c` in `s`, or the length of `s`.
pub fn find_char(s: &[char], c: char) -> (r: usize)
    ensures
        r == first_index(s@, c),
{
    let mut i: usize = 0;
    while i < s.len() && s[i] != c
        invariant
            0 <= i <= s@.len(),
            forall|j: int| 0 <= j < i ==> s@[j] != c,
        decreases s@.len() - i,
    {
        i = i + 1;
    }
    proof {
        first_index_is(s@, c, i as int);
    }
    i
}

/// The texts before and after the first `c` in `s`.
pub open spec fn cut_at_first(s: Seq<char>, c: char) -> Option<(Seq<char>, Seq<char>)> {
    let i = first_index(s, c);
    if i < s.len() {
        Some((s.take(i), s.skip(i + 1)))
    } else {
        None
    }
}

/// The view of an optional pair of strings.
pub open spec fn opt_pair_view(p: Option<(String, String)>) -> Option<(Seq<char>, Seq<char>)> {
    match p {
        Some((a, b)) => Some((a@, b@)),
        None => None,
    }
}

/// The texts before and after the first `c` in `s`.
pub fn split_first(s: &str, c: char) -> (r: Option<(String, String)>)
    ensures
        opt_pair_view(r) == cut_at_first(s@, c),
{
    let text = chars_of(s);
    let i = find_char(text.as_slice(), c);
    proof {
        first_index_bounds(s@, c);
    }
    if i == text.len() {
        return None;
    }
    let before = string_of(slice_subrange(text.as_slice(), 0, i));
    let after = string_of(slice_subrange(text.as_slice(), i + 1, text.len()));
    assert(before@ == s@.take(first_index(s@, c)));
    assert(after@ == s@.skip(first_index(s@, c) + 1));
    Some((before, after))
}

/// The texts between the occurrences of `sep` in `s`: one more of them than there are
/// separators.
pub open spec fn split_on(s: Seq<char>, sep: char) -> Seq<Seq<char>>
    decreases s.len(),
{
    let i = first_index(s, sep);
    if 0 <= i < s.len() {
        seq![s.take(i)] + split_on(s.skip(i + 1), sep)
    } else {
        seq![s]
    }
}

/// Splitting two texts joined by the separator gives the pieces of the first, then those of the
/// second.
pub proof fn split_of_joined(a: Seq<char>, sep: char, b: Seq<char>)
    ensures
        split_on(a + seq![sep] + b, sep) == split_on(a, sep)
            + split_on(b, sep),
    decreases a.len(),
{
    let whole = a + seq![sep] + b;
    first_index_bounds(whole, sep);
    first_index_bounds(a, sep);
    let i = first_index(whole, sep);
    assert(whole[a.len() as int] == sep);
    let j = first_index(a, sep);
    if j < a.len() {
        assert(whole[j] == a[j]);
        if i < j {
            assert(a[i] == whole[i]);
        }
        assert(i == j);
        assert(whole.take(i) == a.take(j));
        assert(whole.skip(i + 1) == a.skip(j + 1) + seq![sep] + b);
        split_of_joined(a.skip(j + 1), sep, b);
        assert(split_on(whole, sep) == seq![a.take(j)] + (split_on(
            a.skip(j + 1),
            sep,
        ) + split_on(b, sep)));
    } else {
        if i < a.len() {
            assert(a[i] == whole[i]);
        }
        assert(i == a.len());
        assert(whole.take(i) == a);
        assert(whole.skip(i + 1) == b);
    }
}

/// A split text has at least one piece.
pub proof fn split_is_not_empty(s: Seq<char>, sep: char)
    ensures
        split_on(s, sep).len() > 0,
{
}

/// The texts between the occurrences of `sep` in `s`.
pub fn split_text(s: &str, sep: char) -> (r: Vec<String>)
    ensures
        views(r@) == split_on(s@, sep),
{
    let text = chars_of(s);
    let mut out: Vec<String> = Vec::new();
    let mut start: usize = 0;
    assert(text@.skip(0) == text@);
    assert(views(out@) + split_on(text@.skip(0), sep) == split_on(s@, sep));
    loop
        invariant
            text@ == s@,
            0 <= start <= text@.len(),
            views(out@) + split_on(text@.skip(start as int), sep) == split_on(s@, sep),
        decreases text@.len() - start,
    {
        let rest = slice_subrange(text.as_slice(), start, text.len());
        let i = find_char(rest, sep);
        proof {
            assert(rest@ == text@.skip(start as int));
            first_index_bounds(rest@, sep);
        }
        let ghost before = out@;
        let piece = string_of(slice_subrange(rest, 0, i));
        out.push(piece);
        assert(views(out@) == views(before).push(piece@));
        assert(piece@ == rest@.take(i as int));
        if i == rest.len() {
            assert(piece@ == rest@);
            assert(views(out@) == views(before) + split_on(rest@, sep));
            return out;
        }
        proof {
            assert(rest@.skip(i + 1) == text@.skip(start + i + 1));
            let tail = split_on(rest@.skip(i + 1), sep);
            assert(views(out@) + tail == views(before) + (seq![piece@] + tail));
        }
        start = start + i + 1;
    }
}

/// The characters with the Unicode property White_Space.
pub open spec fn is_white_space(c: char) -> bool {
    let u = c as u32;
    ||| 0x09 <= u <= 0x0d
    ||| u == 0x20
    ||| u == 0x85
    ||| u == 0xa0
    ||| u == 0x1680
    ||| 0x2000 <= u <= 0x200a
    ||| u == 0x2028
    ||| u == 0x2029
    ||| u == 0x202f
    ||| u == 0x205f
    ||| u == 0x3000
}

/// Whether `c` has the Unicode property White_Space.
pub fn white_space(c: char) -> (r: bool)
    ensures
        r == is_white_space(c),
{
    let u: u32 = c as u32;
    (0x09 <= u && u <= 0x0d) || u == 0x20 || u == 0x85 || u == 0xa0 || u == 0x1680 || (0x2000 <= u
        && u <= 0x200a) || u == 0x2028 || u == 0x2029 || u == 0x202f || u == 0x205f || u == 0x3000
}

/// `s` without the white space at its front.
pub open spec fn trim_front(s: Seq<char>) -> Seq<char>
    decreases s.len(),
{
    if s.len() > 0 && is_white_space(s[0]) {
        trim_front(s.drop_first())
    } else {
        s
    }
}

/// `s` without the white space at its back.
pub open spec fn trim_back(s: Seq<char>) -> Seq<char>
    decreases s.len(),
{
    if s.len() > 0 && is_white_space(s.last()) {
        trim_back(s.drop_last())
    } else {
        s
    }
}

/// `s` without the white space at both ends.
pub open spec fn trimmed(s: Seq<char>) -> Seq<char> {
    trim_back(trim_front(s))
}

/// `s` without the white space at both ends.
pub fn trim_text(s: &str) -> (r: String)
    ensures
        r@ == trimmed(s@),
{
    let text = chars_of(s);
    let mut from: usize = 0;
    assert(text@.skip(0) == text@);
    while from < text.len() && white_space(text[from])
        invariant
            0 <= from <= text@.len(),
            trim_front(text@.skip(from as int)) == trim_front(s@),
        decreases text@.len() - from,
    {
        assert(text@.skip(from as int).drop_first() == text@.skip(from + 1));
        from = from + 1;
    }
    assert(trim_front(s@) == text@.skip(from as int));
    let mut to: usize = text.len();
    assert(text@.subrange(from as int, to as int) == text@.skip(from as int));
    while from < to && white_space(text[to - 1])
        invariant
            0 <= from <= to <= text@.len(),
            trim_back(text@.subrange(from as int, to as int)) == trimmed(s@),
        decreases to - from,
    {
        assert(text@.subrange(from as int, to as int).drop_last() == text@.subrange(
            from as int,
            to - 1,
        ));
        to = to - 1;
    }
    string_of(slice_subrange(text.as_slice(), from, to))
}

/// A text without the white space at its ends has none there.
pub proof fn trimmed_has_bare_ends(s: Seq<char>)
    ensures
        trimmed(s).len() > 0 ==> !is_white_space(trimmed(s)[0]) && !is_white_space(
            trimmed(s).last(),
        ),
{
    bare_front(s);
    bare_back(trim_front(s));
}

proof fn bare_front(s: Seq<char>)
    ensures
        trim_front(s).len() > 0 ==> !is_white_space(trim_front(s)[0]),
    decreases s.len(),
{
    if s.len() > 0 && is_white_space(s[0]) {
        bare_front(s.drop_first());
    }
}

proof fn bare_back(s: Seq<char>)
    ensures
        trim_back(s).len() > 0 ==> !is_white_space(trim_back(s).last()) && trim_back(s)[0]
            == s[0],
    decreases s.len(),
{
    if s.len() > 0 && is_white_space(s.last()) {
        bare_back(s.drop_last());
    }
}

/// `s` without the run of `c` at its back.
pub open spec fn without_trailing(s: Seq<char>, c: char) -> Seq<char>
    decreases s.len(),
{
    if s.len() > 0 && s.last() == c {
        without_trailing(s.drop_last(), c)
    } else {
        s
    }
}

/// `s` without the run of `c` at its back.
pub fn trim_trailing(s: &str, c: char) -> (r: String)
    ensures
        r@ == without_trailing(s@, c),
{
    let text = chars_of(s);
    let mut to: usize = text.len();
    assert(text@.take(to as int) == text@);
    while 0 < to && text[to - 1] == c
        invariant
            0 <= to <= text@.len(),
            without_trailing(text@.take(to as int), c) == without_trailing(s@, c),
        decreases to,
    {
        assert(text@.take(to as int).drop_last() == text@.take(to - 1));
        to = to - 1;
    }
    string_of(slice_subrange(text.as_slice(), 0, to))
}

/// `s` without the copies of `prefix` at its front, however many there are.
pub open spec fn without_leading(s: Seq<char>, prefix: Seq<char>) -> Seq<char>
    decreases s.len(),
{
    if 0 < prefix.len() && prefix.is_prefix_of(s) {
        without_leading(s.skip(prefix.len() as int), prefix)
    } else {
        s
    }
}

/// `s` without the copies of `prefix` at its front.
pub fn trim_leading(s: &str, prefix: &str) -> (r: String)
    requires
        prefix@.len() > 0,
    ensures
        r@ == without_leading(s@, prefix@),
{
    let text = chars_of(s);
    let wanted = chars_of(prefix);
    let mut from: usize = 0;
    assert(text@.skip(0) == text@);
    while wanted.len() <= text.len() - from && stands_at(text.as_slice(), wanted.as_slice(), from)
        invariant
            0 <= from <= text@.len(),
            wanted@ == prefix@,
            prefix@.len() > 0,
            without_leading(text@.skip(from as int), prefix@) == without_leading(s@, prefix@),
        decreases text@.len() - from,
    {
        proof {
            let rest = text@.skip(from as int);
            assert(rest.take(wanted@.len() as int) == text@.subrange(
                from as int,
                from + wanted@.len(),
            ));
            assert(wanted@.is_prefix_of(rest));
            assert(rest.skip(wanted@.len() as int) == text@.skip(from + wanted@.len()));
        }
        from = from + wanted.len();
    }
    proof {
        let rest = text@.skip(from as int);
        if wanted@.is_prefix_of(rest) {
            assert(rest.take(wanted@.len() as int) == text@.subrange(
                from as int,
                from + wanted@.len(),
            ));
        }
    }
    string_of(slice_subrange(text.as_slice(), from, text.len()))
}

/// The first line of `s`: up to the first line feed, and without a carriage return just before
/// that line feed.
pub open spec fn first_line(s: Seq<char>) -> Seq<char> {
    let i = first_index(s, '\n');
    if i < s.len() && 0 < i && s[i - 1] == '\r' {
        s.take(i - 1)
    } else {
        s.take(i)
    }
}

/// The first line of `s`, empty where `s` is.
pub fn line_one(s: &str) -> (r: String)
    ensures
        r@ == first_line(s@),
{
    let text = chars_of(s);
    let i: usize = find_char(text.as_slice(), '\n');
    proof {
        first_index_bounds(s@, '\n');
    }
    if i < text.len() && 0 < i && text[i - 1] == '\r' {
        string_of(slice_subrange(text.as_slice(), 0, i - 1))
    } else {
        string_of(slice_subrange(text.as_slice(), 0, i))
    }
}

/// The ASCII lower case of `c`; every other character is its own.
pub open spec fn ascii_lower(c: char) -> char {
    if 'A' <= c <= 'Z' {
        (c as u32 + 32) as char
    } else {
        c
    }
}

/// Whether two texts are the same but for the case of ASCII letters.
pub open spec fn same_but_case(a: Seq<char>, b: Seq<char>) -> bool {
    a.map_values(|c: char| ascii_lower(c)) == b.map_values(|c: char| ascii_lower(c))
}

/// The ASCII lower case of `c`.
fn lower(c: char) -> (r: char)
    ensures
        r == ascii_lower(c),
{
    if 'A' <= c && c <= 'Z' {
        ((c as u8) + 32u8) as char
    } else {
        c
    }
}

/// Whether two texts are the same but for the case of ASCII letters.
pub fn same_ignoring_case(a: &str, b: &str) -> (r: bool)
    ensures
        r == same_but_case(a@, b@),
{
    let x = chars_of(a);
    let y = chars_of(b);
    let ghost lx = a@.map_values(|c: char| ascii_lower(c));
    let ghost ly = b@.map_values(|c: char| ascii_lower(c));
    if x.len() != y.len() {
        assert(lx.len() != ly.len());
        return false;
    }
    for i in 0..x.len()
        invariant
            x@ == a@,
            y@ == b@,
            x@.len() == y@.len(),
            lx == a@.map_values(|c: char| ascii_lower(c)),
            ly == b@.map_values(|c: char| ascii_lower(c)),
            forall|j: int| 0 <= j < i ==> lx[j] == ly[j],
    {
        if lower(x[i]) != lower(y[i]) {
            assert(lx[i as int] != ly[i as int]);
            return false;
        }
    }
    assert(lx == ly);
    true
}

/// The number of bytes that the UTF-8 form of a text has.
pub open spec fn byte_len(s: Seq<char>) -> nat {
    vstd::utf8::encode_utf8(s).len()
}

/// The number of bytes of `s`.
pub fn len_in_bytes(s: &str) -> (r: usize)
    ensures
        r == byte_len(s@),
{
    s.as_bytes().len()
}

/// `a` followed by `b`.
pub fn joined(a: &str, b: &str) -> (r: String)
    ensures
        r@ == a@ + b@,
{
    let mut out = a.to_owned();
    out.append(b);
    out
}

/// What is taken off the front of a text is the prefix and nothing else, and it is taken off
/// exactly where the text begins with it.
pub proof fn prefix_is_taken_off(s: Seq<char>, prefix: Seq<char>, rest: Seq<char>)
    ensures
        after_prefix(s, prefix) == Some(rest) <==> s == prefix + rest,
        after_prefix(s, prefix) is None ==> s != prefix + rest,
{
    if s == prefix + rest {
        assert(prefix == s.subrange(0, prefix.len() as int));
        assert(s.skip(prefix.len() as int) == rest);
    }
    if after_prefix(s, prefix) == Some(rest) {
        assert(prefix == s.subrange(0, prefix.len() as int));
        assert(prefix + rest == s);
    }
}

/// A part is found in a text exactly where the text is the part with something before and
/// something behind it, either of which may be empty.
pub proof fn part_is_found_where_it_stands(s: Seq<char>, part: Seq<char>)
    ensures
        has_infix(s, part) <==> exists|before: Seq<char>, behind: Seq<char>|
            s == #[trigger] (before + part + behind),
{
    if has_infix(s, part) {
        let at = choose|at: int| occurs_at(s, part, at);
        let before = s.take(at);
        let behind = s.skip(at + part.len());
        assert(s == before + part + behind);
    }
    if exists|before: Seq<char>, behind: Seq<char>| s == #[trigger] (before + part + behind) {
        let (before, behind) = choose|before: Seq<char>, behind: Seq<char>|
            s == #[trigger] (before + part + behind);
        let at = before.len() as int;
        assert(s.subrange(at, at + part.len()) == part);
        assert(occurs_at(s, part, at));
    }
}

/// A text is cut at the first separator: the two parts with the separator between them make up the
/// text, and the first part has no separator. A text without a separator is not cut.
pub proof fn cut_is_at_the_first(s: Seq<char>, c: char)
    ensures
        match cut_at_first(s, c) {
            Some((front, back)) => s == front + seq![c] + back && !front.contains(c),
            None => !s.contains(c),
        },
{
    first_index_bounds(s, c);
    let i = first_index(s, c);
    if i < s.len() {
        assert(s == s.take(i) + seq![c] + s.skip(i + 1));
        assert forall|j: int| 0 <= j < i implies s.take(i)[j] != c by {}
    }
}

/// A front without the separator is what a text is cut behind.
pub proof fn joined_parts_are_cut_apart(front: Seq<char>, c: char, back: Seq<char>)
    requires
        !front.contains(c),
    ensures
        cut_at_first(front + seq![c] + back, c) == Some((front, back)),
{
    let s = front + seq![c] + back;
    assert forall|j: int| 0 <= j < front.len() implies s[j] != c by {
        assert(s[j] == front[j]);
        assert(front.contains(front[j]));
    }
    first_index_is(s, c, front.len() as int);
    assert(s.take(front.len() as int) == front);
    assert(s.skip(front.len() as int + 1) == back);
}

/// A text without a separator is one piece.
pub proof fn text_without_separator_is_one_piece(s: Seq<char>, sep: char)
    requires
        !s.contains(sep),
    ensures
        split_on(s, sep) == seq![s],
{
    first_index_bounds(s, sep);
}

/// Trimming takes white space off both ends, and nothing else: what is left is a run of the text
/// with only white space before it and behind it.
pub proof fn trimming_takes_white_space_only(s: Seq<char>)
    ensures
        exists|from: int, to: int|
            0 <= from <= to <= s.len() && trimmed(s) == #[trigger] s.subrange(from, to) && (forall|
                k: int,
            |
                0 <= k < from || to <= k < s.len() ==> is_white_space(#[trigger] s[k])),
{
    front_is_white_space(s);
    let left = trim_front(s);
    let from = s.len() - left.len();
    back_is_white_space(left);
    let to = from + trim_back(left).len();
    assert(trimmed(s) == s.subrange(from, to)) by {
        assert(left == s.skip(from));
        assert(trim_back(left) == left.take(trim_back(left).len() as int));
    }
    assert forall|k: int| 0 <= k < from || to <= k < s.len() implies is_white_space(
        #[trigger] s[k],
    ) by {
        if k >= to {
            assert(left[k - from] == s[k]);
        }
    }
}

proof fn front_is_white_space(s: Seq<char>)
    ensures
        trim_front(s).len() <= s.len(),
        trim_front(s) == s.skip(s.len() - trim_front(s).len()),
        forall|k: int|
            0 <= k < s.len() - trim_front(s).len() ==> is_white_space(#[trigger] s[k]),
    decreases s.len(),
{
    if s.len() > 0 && is_white_space(s[0]) {
        let rest = s.drop_first();
        front_is_white_space(rest);
        assert forall|k: int| 0 <= k < s.len() - trim_front(s).len() implies is_white_space(
            #[trigger] s[k],
        ) by {
            if k > 0 {
                assert(rest[k - 1] == s[k]);
            }
        }
    }
}

proof fn back_is_white_space(s: Seq<char>)
    ensures
        trim_back(s).len() <= s.len(),
        trim_back(s) == s.take(trim_back(s).len() as int),
        forall|k: int| trim_back(s).len() <= k < s.len() ==> is_white_space(#[trigger] s[k]),
    decreases s.len(),
{
    if s.len() > 0 && is_white_space(s.last()) {
        let rest = s.drop_last();
        back_is_white_space(rest);
        assert forall|k: int| trim_back(s).len() <= k < s.len() implies is_white_space(
            #[trigger] s[k],
        ) by {
            if k < rest.len() {
                assert(rest[k] == s[k]);
            }
        }
    } else {
        assert(s.take(s.len() as int) == s);
    }
}

/// Only copies of the character are taken off the back of a text, and all of them.
pub proof fn only_the_trailing_run_is_taken_off(s: Seq<char>, c: char)
    ensures
        without_trailing(s, c).is_prefix_of(s),
        forall|k: int| without_trailing(s, c).len() <= k < s.len() ==> #[trigger] s[k] == c,
        without_trailing(s, c).len() > 0 ==> without_trailing(s, c).last() != c,
    decreases s.len(),
{
    if s.len() > 0 && s.last() == c {
        let rest = s.drop_last();
        only_the_trailing_run_is_taken_off(rest, c);
        let w = without_trailing(s, c);
        assert(w == rest.subrange(0, w.len() as int));
        assert(w == s.subrange(0, w.len() as int));
        assert forall|k: int| w.len() <= k < s.len() implies #[trigger] s[k] == c by {
            if k < rest.len() {
                assert(rest[k] == s[k]);
            }
        }
    } else {
        assert(s == s.subrange(0, s.len() as int));
    }
}

/// A copy of the prefix at the front of a text makes no difference to what is left, and a text
/// without one is left as it is.
pub proof fn leading_copies_are_taken_off(s: Seq<char>, prefix: Seq<char>)
    requires
        prefix.len() > 0,
    ensures
        without_leading(prefix + s, prefix) == without_leading(s, prefix),
        !prefix.is_prefix_of(s) ==> without_leading(s, prefix) == s,
{
    let t = prefix + s;
    assert(prefix == t.subrange(0, prefix.len() as int));
    assert(t.skip(prefix.len() as int) == s);
}

/// The first line of a text is what stands before its first line feed, without the carriage return
/// that may stand right before that; a text without a line feed is a line.
pub proof fn first_line_ends_at_the_first_line_feed(line: Seq<char>, rest: Seq<char>)
    requires
        !line.contains('\n'),
    ensures
        first_line(line) == line,
        first_line(line + seq!['\r', '\n'] + rest) == line,
        (line.len() == 0 || line.last() != '\r') ==> first_line(line + seq!['\n'] + rest) == line,
{
    assert forall|j: int| 0 <= j < line.len() implies line[j] != '\n' by {
        assert(line.contains(line[j]));
    }
    first_index_is(line, '\n', line.len() as int);
    assert(line.take(line.len() as int) == line);
    let a = line + seq!['\r', '\n'] + rest;
    assert(a[line.len() as int] == '\r');
    assert(a[line.len() as int + 1] == '\n');
    assert forall|j: int| 0 <= j < line.len() + 1 implies a[j] != '\n' by {
        if j < line.len() {
            assert(a[j] == line[j]);
        }
    }
    first_index_is(a, '\n', line.len() as int + 1);
    assert(a.take(line.len() as int) == line);
    let b = line + seq!['\n'] + rest;
    assert forall|j: int| 0 <= j < line.len() implies b[j] != '\n' by {
        assert(b[j] == line[j]);
    }
    assert(b[line.len() as int] == '\n');
    first_index_is(b, '\n', line.len() as int);
    assert(b.take(line.len() as int) == line);
}

/// Two texts are the same but for case where they have as many characters, and at each place either
/// the same character or the two cases of one ASCII letter.
pub proof fn case_is_that_of_ascii_letters(a: Seq<char>, b: Seq<char>)
    ensures
        same_but_case(a, b) <==> a.len() == b.len() && forall|i: int|
            0 <= i < a.len() ==> {
                let x = #[trigger] a[i] as int;
                let y = b[i] as int;
                x == y || (65 <= x <= 90 && y == x + 32) || (65 <= y <= 90 && x == y + 32)
            },
{
    let la = a.map_values(|c: char| ascii_lower(c));
    let lb = b.map_values(|c: char| ascii_lower(c));
    assert forall|i: int| 0 <= i < a.len() && i < b.len() implies (la[i] == lb[i] <==> {
        let x = #[trigger] a[i] as int;
        let y = b[i] as int;
        x == y || (65 <= x <= 90 && y == x + 32) || (65 <= y <= 90 && x == y + 32)
    }) by {
        lower_of_two(a[i], b[i]);
    }
    if same_but_case(a, b) {
        assert(la.len() == lb.len());
        assert forall|i: int| 0 <= i < a.len() implies {
            let x = #[trigger] a[i] as int;
            let y = b[i] as int;
            x == y || (65 <= x <= 90 && y == x + 32) || (65 <= y <= 90 && x == y + 32)
        } by {
            assert(la[i] == lb[i]);
        }
    } else if a.len() == b.len() {
        if forall|i: int| 0 <= i < a.len() ==> la[i] == lb[i] {
            assert(la == lb);
        }
    }
}

proof fn lower_of_two(x: char, y: char)
    ensures
        ascii_lower(x) == ascii_lower(y) <==> (x as int == y as int || (65 <= x as int <= 90
            && y as int == x as int + 32) || (65 <= y as int <= 90 && x as int == y as int
            + 32)),
{
}

/// White space is what Unicode says it is: tab, line feed, vertical tab, form feed, carriage
/// return, the blank, next line, and the blanks and separators of other scripts.
pub proof fn white_space_is_that_of_unicode(c: char)
    ensures
        is_white_space(c) <==> {
            let u = c as int;
            u == 9 || u == 10 || u == 11 || u == 12 || u == 13 || u == 32 || u == 133 || u == 160
                || u == 5760 || 8192 <= u <= 8202 || u == 8232 || u == 8233 || u == 8239 || u
                == 8287 || u == 12288
        },
{
}

/// Optional texts, and lists of texts, are seen text by text.
pub proof fn texts_are_seen_one_by_one(
    text: String,
    slice: &str,
    pair: (String, String),
    list: Seq<String>,
    i: int,
)
    requires
        0 <= i < list.len(),
    ensures
        opt_str_view(Some(slice)) == Some(slice@),
        opt_str_view(None) is None,
        opt_pair_view(Some(pair)) == Some((pair.0@, pair.1@)),
        opt_pair_view(None) is None,
        opt_view(Some(text)) == Some(text@),
        opt_view(None::<String>) is None,
        views(list).len() == list.len(),
        views(list)[i] == list[i]@,
        byte_len(text@) == vstd::utf8::encode_utf8(text@).len(),
{
}

} // verus!

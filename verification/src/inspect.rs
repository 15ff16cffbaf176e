//! Reading the kernel's mount list.
//!
//! The list is line-oriented text. Each row holds columns separated by white
//! space: the device, the mount point, the filesystem type, and further columns
//! that are of no interest here. A path counts as mounted when some row names it,
//! letter for letter, as its mount point and names the wanted filesystem type.

use vstd::prelude::*;

verus! {

/// White space in the sense of Unicode's `White_Space` property.
pub open spec fn is_space(c: char) -> bool {
    let n = c as u32;
    ||| 0x0009 <= n <= 0x000D
    ||| n == 0x0020
    ||| n == 0x0085
    ||| n == 0x00A0
    ||| n == 0x1680
    ||| 0x2000 <= n <= 0x200A
    ||| n == 0x2028
    ||| n == 0x2029
    ||| n == 0x202F
    ||| n == 0x205F
    ||| n == 0x3000
}

/// The length of the run of characters other than white space that `s` starts
/// with.
pub open spec fn word_len(s: Seq<char>) -> nat
    decreases s.len(),
{
    if s.len() == 0 || is_space(s[0]) {
        0
    } else {
        1 + word_len(s.drop_first())
    }
}

/// The columns of a row: its maximal runs of characters other than white space,
/// from left to right.
pub open spec fn fields(s: Seq<char>) -> Seq<Seq<char>>
    decreases s.len(),
    via fields_decreases
{
    if s.len() == 0 {
        Seq::empty()
    } else if is_space(s[0]) {
        fields(s.drop_first())
    } else {
        seq![s.take(word_len(s) as int)] + fields(s.skip(word_len(s) as int))
    }
}

#[via_fn]
proof fn fields_decreases(s: Seq<char>) {
    lemma_word_len_bound(s);
}

/// A word is never longer than the text it starts.
pub proof fn lemma_word_len_bound(s: Seq<char>)
    ensures
        word_len(s) <= s.len(),
        s.len() > 0 && !is_space(s[0]) ==> word_len(s) >= 1,
    decreases s.len(),
{
    if s.len() > 0 && !is_space(s[0]) {
        lemma_word_len_bound(s.drop_first());
    }
}

/// Tells whether `c` is white space.
pub fn is_whitespace(c: char) -> (b: bool)
    ensures
        b == is_space(c),
{
    let n: u32 = c as u32;
    if n < 0x0080 {
        (0x0009 <= n && n <= 0x000D) || n == 0x0020
    } else if n < 0x2000 {
        n == 0x0085 || n == 0x00A0 || n == 0x1680
    } else {
        n <= 0x200A || n == 0x2028 || n == 0x2029 || n == 0x202F || n == 0x205F || n == 0x3000
    }
}

/// The characters of `s`, one by one.
fn to_chars(s: &str) -> (v: Vec<char>)
    ensures
        v@ == s@,
{
    let mut v: Vec<char> = Vec::new();
    for c in it: s.chars()
        invariant
            v@ == it.seq().take(it.index()),
            it.seq() == s@,
    {
        v.push(c);
    }
    v
}

/// Whether a row names `path` as its mount point and `fs_type` as its filesystem
/// type: it has at least three columns, the second is `path` and the third is
/// `fs_type`, each letter for letter.
pub open spec fn row_matches(row: Seq<char>, path: Seq<char>, fs_type: Seq<char>) -> bool {
    let cols = fields(row);
    cols.len() >= 3 && cols[1] == path && cols[2] == fs_type
}

/// Whether the characters of `text` from `start` up to `end` form one of its
/// lines: the line begins the text or follows a line feed, ends the text or
/// stands before a line feed, and holds no line feed itself.
pub open spec fn is_line(text: Seq<char>, start: int, end: int) -> bool {
    &&& 0 <= start <= end <= text.len()
    &&& start == 0 || text[start - 1] == '\n'
    &&& end == text.len() || text[end] == '\n'
    &&& forall|k: int| start <= k < end ==> text[k] != '\n'
}

/// Whether the mount list `text` shows `path` mounted with the type `fs_type`:
/// one of its lines is a row that matches.
pub open spec fn is_mounted(text: Seq<char>, path: Seq<char>, fs_type: Seq<char>) -> bool {
    exists|start: int, end: int|
        is_line(text, start, end) && #[trigger] row_matches(
            text.subrange(start, end),
            path,
            fs_type,
        )
}

/// Leading white space separates nothing: the columns are those of what
/// follows it.
pub proof fn lemma_fields_skip_spaces(s: Seq<char>, k: int)
    requires
        0 <= k <= s.len(),
        forall|i: int| 0 <= i < k ==> is_space(#[trigger] s[i]),
    ensures
        fields(s) == fields(s.skip(k)),
    decreases k,
{
    if k == 0 {
        assert(s.skip(0) =~= s);
    } else {
        let t = s.drop_first();
        assert forall|i: int| 0 <= i < k - 1 implies is_space(#[trigger] t[i]) by {
            assert(t[i] == s[i + 1]);
        }
        lemma_fields_skip_spaces(t, k - 1);
        assert(t.skip(k - 1) =~= s.skip(k));
    }
}

/// A run of `k` characters other than white space, followed by white space or
/// by the end, is the first word.
pub proof fn lemma_word_len_is(s: Seq<char>, k: int)
    requires
        0 <= k <= s.len(),
        forall|i: int| 0 <= i < k ==> !is_space(#[trigger] s[i]),
        k == s.len() || is_space(s[k]),
    ensures
        word_len(s) == k,
    decreases k,
{
    if k > 0 {
        let t = s.drop_first();
        assert forall|i: int| 0 <= i < k - 1 implies !is_space(#[trigger] t[i]) by {
            assert(t[i] == s[i + 1]);
        }
        if k - 1 < t.len() {
            assert(t[k - 1] == s[k]);
        }
        lemma_word_len_is(t, k - 1);
    }
}

/// Finds the first column of the part of `text` between `pos` and `end`.
/// Returns where it begins and where it ends; the two are equal when the part
/// holds white space only.
fn next_word(text: &Vec<char>, pos: usize, end: usize) -> (word: (usize, usize))
    requires
        pos <= end <= text.len(),
    ensures
        pos <= word.0 <= word.1 <= end,
        word.0 == word.1 ==> fields(text@.subrange(pos as int, end as int)).len() == 0,
        word.0 < word.1 ==> fields(text@.subrange(pos as int, end as int)) == seq![
            text@.subrange(word.0 as int, word.1 as int),
        ] + fields(text@.subrange(word.1 as int, end as int)),
{
    let ghost part = text@.subrange(pos as int, end as int);
    let mut a: usize = pos;
    while a < end && is_whitespace(text[a])
        invariant
            pos <= a <= end <= text.len(),
            forall|i: int| pos <= i < a ==> is_space(#[trigger] text@[i]),
        decreases end - a,
    {
        a += 1;
    }
    let mut b: usize = a;
    while b < end && !is_whitespace(text[b])
        invariant
            a <= b <= end <= text.len(),
            forall|i: int| a <= i < b ==> !is_space(#[trigger] text@[i]),
        decreases end - b,
    {
        b += 1;
    }
    proof {
        let rest = text@.subrange(a as int, end as int);
        assert forall|i: int| 0 <= i < a - pos implies is_space(#[trigger] part[i]) by {
            assert(part[i] == text@[pos + i]);
        }
        lemma_fields_skip_spaces(part, a - pos);
        assert(part.skip(a - pos) =~= rest);
        if a < b {
            assert forall|i: int| 0 <= i < b - a implies !is_space(#[trigger] rest[i]) by {
                assert(rest[i] == text@[a + i]);
            }
            if b < end {
                assert(rest[b - a] == text@[b as int]);
            }
            lemma_word_len_is(rest, b - a);
            assert(rest[0] == text@[a as int]);
            assert(rest.take(b - a) =~= text@.subrange(a as int, b as int));
            assert(rest.skip(b - a) =~= text@.subrange(b as int, end as int));
        } else {
            assert(a == end || is_space(text@[a as int]));
            if a < end {
                assert(false);
            }
            assert(rest.len() == 0);
        }
    }
    (a, b)
}

/// Tells whether the characters of `text` between `from` and `to` are those of
/// `word`.
fn range_equals(text: &Vec<char>, from: usize, to: usize, word: &Vec<char>) -> (same: bool)
    requires
        from <= to <= text.len(),
    ensures
        same == (text@.subrange(from as int, to as int) == word@),
{
    let ghost part = text@.subrange(from as int, to as int);
    if to - from != word.len() {
        return false;
    }
    let mut i: usize = 0;
    while i < word.len()
        invariant
            from <= to <= text.len(),
            to - from == word.len(),
            i <= word.len(),
            part == text@.subrange(from as int, to as int),
            forall|k: int| 0 <= k < i ==> part[k] == word@[k],
        decreases word.len() - i,
    {
        if text[from + i] != word[i] {
            assert(part[i as int] != word@[i as int]);
            return false;
        }
        i += 1;
    }
    assert(part =~= word@);
    true
}

/// Tells whether the row that `text` holds between `start` and `end` matches.
fn row_matches_at(
    text: &Vec<char>,
    start: usize,
    end: usize,
    path: &Vec<char>,
    fs_type: &Vec<char>,
) -> (hit: bool)
    requires
        start <= end <= text.len(),
    ensures
        hit == row_matches(text@.subrange(start as int, end as int), path@, fs_type@),
{
    let device = next_word(text, start, end);
    if device.0 == device.1 {
        return false;
    }
    let point = next_word(text, device.1, end);
    if point.0 == point.1 {
        return false;
    }
    let kind = next_word(text, point.1, end);
    if kind.0 == kind.1 {
        return false;
    }
    range_equals(text, point.0, point.1, path) && range_equals(text, kind.0, kind.1, fs_type)
}

/// The name of the filesystem type that the required directories must have.
pub open spec fn tmpfs_name() -> Seq<char> {
    seq!['t', 'm', 'p', 'f', 's']
}

/// Tells whether the mount list `text` shows `path` mounted with the type
/// `fs_type`. Rows with fewer than three columns are passed over. Nothing is
/// normalised: a row that names the path with a trailing slash, in another case
/// or through a link does not match.
pub fn is_mounted_as(text: &str, path: &str, fs_type: &str) -> (found: bool)
    ensures
        found == is_mounted(text@, path@, fs_type@),
{
    let chars = to_chars(text);
    let want_path = to_chars(path);
    let want_type = to_chars(fs_type);
    let n = chars.len();
    let mut start: usize = 0;
    loop
        invariant
            n == chars.len(),
            chars@ == text@,
            want_path@ == path@,
            want_type@ == fs_type@,
            start <= n,
            start == 0 || chars@[start - 1] == '\n',
            forall|a: int, b: int|
                is_line(chars@, a, b) && a < start ==> !#[trigger] row_matches(
                    chars@.subrange(a, b),
                    path@,
                    fs_type@,
                ),
        decreases n - start,
    {
        let mut end: usize = start;
        while end < n && chars[end] != '\n'
            invariant
                n == chars.len(),
                start <= end <= n,
                forall|k: int| start <= k < end ==> chars@[k] != '\n',
            decreases n - end,
        {
            end += 1;
        }
        assert(is_line(chars@, start as int, end as int));
        if row_matches_at(&chars, start, end, &want_path, &want_type) {
            return true;
        }
        assert forall|a: int, b: int| is_line(chars@, a, b) && a <= end implies !#[trigger] row_matches(
            chars@.subrange(a, b),
            path@,
            fs_type@,
        ) by {
            if a >= start {
                // A line that begins in this one is this one.
                if a > start {
                    assert(chars@[a - 1] == '\n');
                }
                assert(a == start);
                if b < end {
                    assert(chars@[b] == '\n');
                }
                if b > end {
                    assert(chars@[end as int] == '\n');
                }
                assert(b == end);
            }
        }
        if end == n {
            assert forall|a: int, b: int| is_line(chars@, a, b) implies !#[trigger] row_matches(
                chars@.subrange(a, b),
                path@,
                fs_type@,
            ) by {}
            return false;
        }
        start = end + 1;
    }
}

/// Tells whether `path` is already backed by tmpfs, given what could be read of
/// the kernel's mount list. A list that could not be read at all (`None`) shows
/// nothing mounted.
pub fn is_tmpfs(mounts: Option<&str>, path: &str) -> (found: bool)
    ensures
        found == match mounts {
            Some(text) => is_mounted(text@, path@, tmpfs_name()),
            None => false,
        },
{
    match mounts {
        Some(text) => {
            proof {
                reveal_strlit("tmpfs");
                assert("tmpfs"@ =~= tmpfs_name());
            }
            is_mounted_as(text, path, "tmpfs")
        },
        None => false,
    }
}

} // verus!

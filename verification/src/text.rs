//! Character-level scanning primitives over `Seq<char>` views of strings.
//!
//! Every specification function here has an executable mirror proved to
//! compute exactly the specified value.

use vstd::prelude::*;

verus! {

/// Characters that may form an identifier: ASCII letters, digits, underscore.
pub open spec fn is_word_char(c: char) -> bool {
    ('a' <= c && c <= 'z') || ('A' <= c && c <= 'Z') || ('0' <= c && c <= '9') || c == '_'
}

/// ASCII whitespace.
pub open spec fn is_space_char(c: char) -> bool {
    c == ' ' || c == '\t' || c == '\n' || c == '\r' || c == '\u{b}' || c == '\u{c}'
}

/// Characters allowed inside an import's name list: whitespace, word
/// characters and the comma separator.
pub open spec fn is_name_list_char(c: char) -> bool {
    is_space_char(c) || is_word_char(c) || c == ','
}

/// Characters allowed in a module path: word characters, `.` and `/`.
pub open spec fn is_path_char(c: char) -> bool {
    is_word_char(c) || c == '.' || c == '/'
}

/// Executable test for [`is_word_char`].
pub fn word_char(c: char) -> (r: bool)
    ensures
        r == is_word_char(c),
{
    ('a' <= c && c <= 'z') || ('A' <= c && c <= 'Z') || ('0' <= c && c <= '9') || c == '_'
}

/// Executable test for [`is_space_char`].
pub fn space_char(c: char) -> (r: bool)
    ensures
        r == is_space_char(c),
{
    c == ' ' || c == '\t' || c == '\n' || c == '\r' || c == '\u{b}' || c == '\u{c}'
}

/// Executable test for [`is_name_list_char`].
pub fn name_list_char(c: char) -> (r: bool)
    ensures
        r == is_name_list_char(c),
{
    space_char(c) || word_char(c) || c == ','
}

/// Executable test for [`is_path_char`].
pub fn path_char(c: char) -> (r: bool)
    ensures
        r == is_path_char(c),
{
    word_char(c) || c == '.' || c == '/'
}

/// First position at or after `i` whose character is not whitespace
/// (or the end of `s`).
pub open spec fn space_run_end(s: Seq<char>, i: int) -> int
    decreases s.len() - i,
{
    if i < 0 || i >= s.len() {
        i
    } else if is_space_char(s[i]) {
        space_run_end(s, i + 1)
    } else {
        i
    }
}

/// First position at or after `i` whose character is not a word character.
pub open spec fn word_run_end(s: Seq<char>, i: int) -> int
    decreases s.len() - i,
{
    if i < 0 || i >= s.len() {
        i
    } else if is_word_char(s[i]) {
        word_run_end(s, i + 1)
    } else {
        i
    }
}

/// First position at or after `i` whose character is not a name-list character.
pub open spec fn name_list_run_end(s: Seq<char>, i: int) -> int
    decreases s.len() - i,
{
    if i < 0 || i >= s.len() {
        i
    } else if is_name_list_char(s[i]) {
        name_list_run_end(s, i + 1)
    } else {
        i
    }
}

/// First position at or after `i` whose character is not a path character.
pub open spec fn path_run_end(s: Seq<char>, i: int) -> int
    decreases s.len() - i,
{
    if i < 0 || i >= s.len() {
        i
    } else if is_path_char(s[i]) {
        path_run_end(s, i + 1)
    } else {
        i
    }
}

pub proof fn lemma_space_run_end(s: Seq<char>, i: int)
    requires
        0 <= i <= s.len(),
    ensures
        i <= space_run_end(s, i) <= s.len(),
    decreases s.len() - i,
{
    if i < s.len() && is_space_char(s[i]) {
        lemma_space_run_end(s, i + 1);
    }
}

pub proof fn lemma_word_run_end(s: Seq<char>, i: int)
    requires
        0 <= i <= s.len(),
    ensures
        i <= word_run_end(s, i) <= s.len(),
    decreases s.len() - i,
{
    if i < s.len() && is_word_char(s[i]) {
        lemma_word_run_end(s, i + 1);
    }
}

pub proof fn lemma_name_list_run_end(s: Seq<char>, i: int)
    requires
        0 <= i <= s.len(),
    ensures
        i <= name_list_run_end(s, i) <= s.len(),
    decreases s.len() - i,
{
    if i < s.len() && is_name_list_char(s[i]) {
        lemma_name_list_run_end(s, i + 1);
    }
}

pub proof fn lemma_path_run_end(s: Seq<char>, i: int)
    requires
        0 <= i <= s.len(),
    ensures
        i <= path_run_end(s, i) <= s.len(),
    decreases s.len() - i,
{
    if i < s.len() && is_path_char(s[i]) {
        lemma_path_run_end(s, i + 1);
    }
}

/// Executable mirror of [`space_run_end`].
pub fn space_run_end_x(s: &str, i: usize) -> (r: usize)
    requires
        i <= s@.len(),
    ensures
        r == space_run_end(s@, i as int),
        i <= r <= s@.len(),
{
    let l: usize = s.unicode_len();
    let mut j: usize = i;
    loop
        invariant
            i <= j <= l,
            l == s@.len(),
            space_run_end(s@, i as int) == space_run_end(s@, j as int),
        decreases l - j,
    {
        if j >= l {
            return j;
        }
        let c = s.get_char(j);
        if !space_char(c) {
            return j;
        }
        j += 1;
    }
}

/// Executable mirror of [`word_run_end`].
pub fn word_run_end_x(s: &str, i: usize) -> (r: usize)
    requires
        i <= s@.len(),
    ensures
        r == word_run_end(s@, i as int),
        i <= r <= s@.len(),
{
    let l: usize = s.unicode_len();
    let mut j: usize = i;
    loop
        invariant
            i <= j <= l,
            l == s@.len(),
            word_run_end(s@, i as int) == word_run_end(s@, j as int),
        decreases l - j,
    {
        if j >= l {
            return j;
        }
        let c = s.get_char(j);
        if !word_char(c) {
            return j;
        }
        j += 1;
    }
}

/// Executable mirror of [`name_list_run_end`].
pub fn name_list_run_end_x(s: &str, i: usize) -> (r: usize)
    requires
        i <= s@.len(),
    ensures
        r == name_list_run_end(s@, i as int),
        i <= r <= s@.len(),
{
    let l: usize = s.unicode_len();
    let mut j: usize = i;
    loop
        invariant
            i <= j <= l,
            l == s@.len(),
            name_list_run_end(s@, i as int) == name_list_run_end(s@, j as int),
        decreases l - j,
    {
        if j >= l {
            return j;
        }
        let c = s.get_char(j);
        if !name_list_char(c) {
            return j;
        }
        j += 1;
    }
}

/// Executable mirror of [`path_run_end`].
pub fn path_run_end_x(s: &str, i: usize) -> (r: usize)
    requires
        i <= s@.len(),
    ensures
        r == path_run_end(s@, i as int),
        i <= r <= s@.len(),
{
    let l: usize = s.unicode_len();
    let mut j: usize = i;
    loop
        invariant
            i <= j <= l,
            l == s@.len(),
            path_run_end(s@, i as int) == path_run_end(s@, j as int),
        decreases l - j,
    {
        if j >= l {
            return j;
        }
        let c = s.get_char(j);
        if !path_char(c) {
            return j;
        }
        j += 1;
    }
}

/// `lit` occurs in `s` starting exactly at position `i`.
pub open spec fn lit_at(s: Seq<char>, lit: Seq<char>, i: int) -> bool {
    &&& 0 <= i
    &&& i + lit.len() <= s.len()
    &&& forall|t: int| 0 <= t < lit.len() ==> s[i + t] == lit[t]
}

/// Executable mirror of [`lit_at`].
pub fn lit_at_x(s: &str, lit: &str, i: usize) -> (r: bool)
    ensures
        r == lit_at(s@, lit@, i as int),
{
    let sl: usize = s.unicode_len();
    let ll: usize = lit.unicode_len();
    if ll > sl || i > sl - ll {
        return false;
    }
    let mut t: usize = 0;
    loop
        invariant
            t <= ll,
            i + ll <= sl,
            sl == s@.len(),
            ll == lit@.len(),
            forall|u: int| 0 <= u < t ==> s@[i + u] == lit@[u],
        decreases ll - t,
    {
        if t >= ll {
            return true;
        }
        let a = s.get_char(i + t);
        let b = lit.get_char(t);
        if a != b {
            assert(s@[i + t] != lit@[t as int]);
            return false;
        }
        t += 1;
    }
}

/// Position of the first occurrence of `c` at or after `i`, or the length
/// of `s` if there is none.
pub open spec fn find_char(s: Seq<char>, i: int, c: char) -> int
    decreases s.len() - i,
{
    if i < 0 || i >= s.len() {
        s.len() as int
    } else if s[i] == c {
        i
    } else {
        find_char(s, i + 1, c)
    }
}

pub proof fn lemma_find_char(s: Seq<char>, i: int, c: char)
    requires
        0 <= i <= s.len(),
    ensures
        i <= find_char(s, i, c) <= s.len(),
    decreases s.len() - i,
{
    if i < s.len() && s[i] != c {
        lemma_find_char(s, i + 1, c);
    }
}

/// Executable mirror of [`find_char`].
pub fn find_char_x(s: &str, i: usize, c: char) -> (r: usize)
    requires
        i <= s@.len(),
    ensures
        r == find_char(s@, i as int, c),
        i <= r <= s@.len(),
{
    let l: usize = s.unicode_len();
    let mut j: usize = i;
    loop
        invariant
            i <= j <= l,
            l == s@.len(),
            find_char(s@, i as int, c) == find_char(s@, j as int, c),
        decreases l - j,
    {
        if j >= l {
            return j;
        }
        let d = s.get_char(j);
        if d == c {
            return j;
        }
        j += 1;
    }
}

/// Position of the last occurrence of `c` strictly before `i`, or `-1` if
/// there is none.
pub open spec fn rfind_char(s: Seq<char>, i: int, c: char) -> int
    decreases i,
{
    if i <= 0 || i > s.len() {
        -1
    } else if s[i - 1] == c {
        i - 1
    } else {
        rfind_char(s, i - 1, c)
    }
}

pub proof fn lemma_rfind_char(s: Seq<char>, i: int, c: char)
    requires
        0 <= i <= s.len(),
    ensures
        -1 <= rfind_char(s, i, c) < i || (i == 0 && rfind_char(s, i, c) == -1),
        -1 <= rfind_char(s, i, c) <= s.len(),
    decreases i,
{
    if i > 0 && s[i - 1] != c {
        lemma_rfind_char(s, i - 1, c);
    }
}

/// Executable mirror of [`rfind_char`], searching the whole of `s`; the
/// result is `None` where the specification yields `-1`.
pub fn rfind_char_x(s: &str, c: char) -> (r: Option<usize>)
    ensures
        match r {
            Some(k) => k == rfind_char(s@, s@.len() as int, c),
            None => rfind_char(s@, s@.len() as int, c) == -1,
        },
{
    let l: usize = s.unicode_len();
    let mut j: usize = l;
    loop
        invariant
            j <= l,
            l == s@.len(),
            rfind_char(s@, l as int, c) == rfind_char(s@, j as int, c),
        decreases j,
    {
        if j == 0 {
            return None;
        }
        let d = s.get_char(j - 1);
        if d == c {
            return Some(j - 1);
        }
        j -= 1;
    }
}

/// The end (exclusive) of `s[..i]` once trailing whitespace is removed.
pub open spec fn trim_right_end(s: Seq<char>, i: int) -> int
    decreases i,
{
    if i <= 0 || i > s.len() {
        0
    } else if is_space_char(s[i - 1]) {
        trim_right_end(s, i - 1)
    } else {
        i
    }
}

/// `s` with leading and trailing whitespace removed.
pub open spec fn trim_spec(s: Seq<char>) -> Seq<char> {
    let a = space_run_end(s, 0);
    let b = trim_right_end(s, s.len() as int);
    if a <= b {
        s.subrange(a, b)
    } else {
        Seq::empty()
    }
}

fn trim_right_end_x(s: &str) -> (r: usize)
    ensures
        r == trim_right_end(s@, s@.len() as int),
        r <= s@.len(),
{
    let l: usize = s.unicode_len();
    let mut j: usize = l;
    loop
        invariant
            j <= l,
            l == s@.len(),
            trim_right_end(s@, l as int) == trim_right_end(s@, j as int),
        decreases j,
    {
        if j == 0 {
            return 0;
        }
        let c = s.get_char(j - 1);
        if !space_char(c) {
            return j;
        }
        j -= 1;
    }
}

/// A copy of `s` with leading and trailing whitespace removed.
pub fn trim_x(s: &str) -> (r: String)
    ensures
        r@ == trim_spec(s@),
{
    let a = space_run_end_x(s, 0);
    let b = trim_right_end_x(s);
    if a <= b {
        s.substring_char(a, b).to_owned()
    } else {
        String::new()
    }
}

/// The trimmed lines of `s` from position `start` on: the text is split at
/// each newline, every piece is trimmed of surrounding whitespace, and a
/// final empty piece (a trailing newline's) is dropped.
pub open spec fn content_from(s: Seq<char>, start: int) -> Seq<Seq<char>>
    decreases s.len() - start,
    when 0 <= start <= s.len()
    via content_from_dec
{
    let k = find_char(s, start, '\n');
    if k == s.len() {
        if start < s.len() {
            seq![trim_spec(s.subrange(start, s.len() as int))]
        } else {
            Seq::empty()
        }
    } else {
        seq![trim_spec(s.subrange(start, k))] + content_from(s, k + 1)
    }
}

#[via_fn]
proof fn content_from_dec(s: Seq<char>, start: int) {
    lemma_find_char(s, start, '\n');
}

/// The lines of a source file: split at newlines, each line trimmed.
pub open spec fn content_of(raw: Seq<char>) -> Seq<Seq<char>> {
    content_from(raw, 0)
}

/// Executable mirror of [`content_of`]: the trimmed lines of `raw`.
pub fn split_content(raw: &str) -> (r: Vec<String>)
    ensures
        r.deep_view() == content_of(raw@),
{
    let l: usize = raw.unicode_len();
    let mut out: Vec<String> = Vec::new();
    let mut start: usize = 0;
    loop
        invariant
            start <= l,
            l == raw@.len(),
            out.deep_view() + content_from(raw@, start as int) == content_of(raw@),
        decreases l - start,
    {
        let k = find_char_x(raw, start, '\n');
        if k == l {
            if start < l {
                let piece = raw.substring_char(start, l);
                let t = trim_x(piece);
                out.push(t);
            }
            assert(out.deep_view() =~= content_of(raw@));
            return out;
        }
        let piece = raw.substring_char(start, k);
        let t = trim_x(piece);
        out.push(t);
        assert(out.deep_view() + content_from(raw@, k + 1) =~= content_of(raw@));
        start = k + 1;
    }
}

/// The lines joined back into one text with a newline between consecutive
/// lines (no trailing newline).
pub open spec fn join_lines(content: Seq<Seq<char>>) -> Seq<char>
    decreases content.len(),
{
    if content.len() == 0 {
        Seq::empty()
    } else if content.len() == 1 {
        content[0]
    } else {
        join_lines(content.drop_last()) + seq!['\n'] + content.last()
    }
}

/// Executable mirror of [`join_lines`].
pub fn join_lines_x(content: &Vec<String>) -> (r: String)
    ensures
        r@ == join_lines(content.deep_view()),
{
    let mut out = String::new();
    let mut i: usize = 0;
    assert(content.deep_view().subrange(0, 0) =~= Seq::<Seq<char>>::empty());
    while i < content.len()
        invariant
            i <= content.len(),
            out@ == join_lines(content.deep_view().subrange(0, i as int)),
        decreases content.len() - i,
    {
        if i > 0 {
            out.append("\n");
            proof {
                reveal_strlit("\n");
            }
        }
        out.append(content[i].as_str());
        proof {
            let cv = content.deep_view();
            assert(cv.subrange(0, i + 1).drop_last() =~= cv.subrange(0, i as int));
            assert(cv.subrange(0, i + 1).last() == cv[i as int]);
            if i == 0 {
                assert(join_lines(cv.subrange(0, 1)) == cv[0]);
            }
        }
        i += 1;
    }
    proof {
        assert(content.deep_view().subrange(0, content.deep_view().len() as int) =~= content
            .deep_view());
    }
    out
}

/// A copy of the lines vector, proved to keep the same view.
pub fn clone_lines(v: &Vec<String>) -> (r: Vec<String>)
    ensures
        r.deep_view() == v.deep_view(),
{
    let mut out: Vec<String> = Vec::new();
    let mut i: usize = 0;
    while i < v.len()
        invariant
            i <= v.len(),
            out@.len() == i,
            forall|j: int| 0 <= j < i ==> out@[j]@ == v@[j]@,
        decreases v.len() - i,
    {
        let s = v[i].clone();
        out.push(s);
        i += 1;
    }
    proof {
        assert forall|j: int| 0 <= j < v@.len() implies out.deep_view()[j] == v.deep_view()[j] by {
            assert(out@[j]@ == v@[j]@);
        }
        assert(out.deep_view() =~= v.deep_view());
    }
    out
}

} // verus!

//! The three declaration patterns recognized in script sources.
//!
//! A line can declare a function (`function name(`), bind one to a variable
//! (`const name = (`, also `let`/`var`), or import names from another module
//! (`const { a, b } = require('./mod')`). Each pattern is defined as a
//! specification function over the character sequence and matched by a
//! verified executable scanner. The grammar is single-line oriented; imports
//! are recognized anywhere in the joined text of a file, so a name list may
//! span what were separate lines.

use vstd::prelude::*;

use crate::text::{
    find_char, find_char_x, lit_at, lit_at_x, name_list_run_end, name_list_run_end_x,
    path_run_end, path_run_end_x, space_run_end, space_run_end_x, trim_spec, trim_x, word_run_end,
    word_run_end_x, lemma_space_run_end, lemma_name_list_run_end, lemma_path_run_end,
};

verus! {

/// The captured identifier of a `function name(` declaration line, if the
/// line matches: optional leading whitespace, the keyword `function`, at
/// least one whitespace character, a possibly empty identifier, optional
/// whitespace, and an opening parenthesis.
pub open spec fn fn_decl_capture(s: Seq<char>) -> Option<Seq<char>> {
    let i = space_run_end(s, 0);
    if !lit_at(s, "function"@, i) {
        None
    } else {
        let j = i + "function"@.len();
        let k = space_run_end(s, j);
        if k == j {
            None
        } else {
            let m = word_run_end(s, k);
            let p = space_run_end(s, m);
            if p < s.len() && s[p] == '(' {
                Some(s.subrange(k, m))
            } else {
                None
            }
        }
    }
}

/// Where a declaration keyword (`const`, `let` or `var`) stands at `i`,
/// the position just past it.
pub open spec fn keyword_end(s: Seq<char>, i: int) -> Option<int> {
    if lit_at(s, "const"@, i) {
        Some(i + "const"@.len())
    } else if lit_at(s, "let"@, i) {
        Some(i + "let"@.len())
    } else if lit_at(s, "var"@, i) {
        Some(i + "var"@.len())
    } else {
        None
    }
}

/// The tail of an assignment declaration from position `p` on: an equals
/// sign, at least one whitespace character, and an opening parenthesis.
/// On success the capture is `s[k..m]`.
pub open spec fn eq_paren_capture(s: Seq<char>, p: int, k: int, m: int) -> Option<Seq<char>> {
    if p < s.len() && s[p] == '=' {
        let q = space_run_end(s, p + 1);
        if q > p + 1 && q < s.len() && s[q] == '(' {
            Some(s.subrange(k, m))
        } else {
            None
        }
    } else {
        None
    }
}

/// The captured identifier of a variable-bound declaration line, if the
/// line matches: optional leading whitespace, `const`/`let`/`var`, at least
/// one whitespace character, a possibly empty identifier, at least one
/// whitespace character, `=`, at least one whitespace character, and an
/// opening parenthesis. An empty identifier needs two whitespace characters
/// between the keyword and the equals sign, one on each side of it.
pub open spec fn assign_decl_capture(s: Seq<char>) -> Option<Seq<char>> {
    let i = space_run_end(s, 0);
    match keyword_end(s, i) {
        None => None,
        Some(j) => {
            let k = space_run_end(s, j);
            if k == j {
                None
            } else {
                let m = word_run_end(s, k);
                if m > k {
                    let p = space_run_end(s, m);
                    if p == m {
                        None
                    } else {
                        eq_paren_capture(s, p, k, m)
                    }
                } else {
                    if k - j >= 2 {
                        eq_paren_capture(s, k, k, m)
                    } else {
                        None
                    }
                }
            }
        },
    }
}

/// The identifier a line defines, if any: the function-declaration pattern
/// is tried first, then the assignment pattern. A line registers at most
/// one definition.
pub open spec fn line_capture(s: Seq<char>) -> Option<Seq<char>> {
    if fn_decl_capture(s) is Some {
        fn_decl_capture(s)
    } else {
        assign_decl_capture(s)
    }
}

/// Executable mirror of [`fn_decl_capture`].
pub fn fn_decl_capture_x(line: &str) -> (r: Option<String>)
    ensures
        match r {
            Some(name) => fn_decl_capture(line@) == Some(name@),
            None => fn_decl_capture(line@) is None,
        },
{
    proof {
        reveal_strlit("function");
    }
    let l: usize = line.unicode_len();
    let i = space_run_end_x(line, 0);
    if !lit_at_x(line, "function", i) {
        return None;
    }
    let j = i + 8;
    let k = space_run_end_x(line, j);
    if k == j {
        return None;
    }
    let m = word_run_end_x(line, k);
    let p = space_run_end_x(line, m);
    if p < l {
        let c = line.get_char(p);
        if c == '(' {
            return Some(line.substring_char(k, m).to_owned());
        }
    }
    None
}

/// Executable mirror of [`keyword_end`].
pub fn keyword_end_x(line: &str, i: usize) -> (r: Option<usize>)
    ensures
        match r {
            Some(j) => keyword_end(line@, i as int) == Some(j as int) && i < j <= line@.len(),
            None => keyword_end(line@, i as int) is None,
        },
{
    proof {
        reveal_strlit("const");
        reveal_strlit("let");
        reveal_strlit("var");
    }
    let _l: usize = line.unicode_len();
    if lit_at_x(line, "const", i) {
        Some(i + 5)
    } else if lit_at_x(line, "let", i) {
        Some(i + 3)
    } else if lit_at_x(line, "var", i) {
        Some(i + 3)
    } else {
        None
    }
}

/// Executable mirror of [`assign_decl_capture`].
pub fn assign_decl_capture_x(line: &str) -> (r: Option<String>)
    ensures
        match r {
            Some(name) => assign_decl_capture(line@) == Some(name@),
            None => assign_decl_capture(line@) is None,
        },
{
    let i = space_run_end_x(line, 0);
    let j = match keyword_end_x(line, i) {
        Some(j) => j,
        None => {
            return None;
        },
    };
    let k = space_run_end_x(line, j);
    if k == j {
        return None;
    }
    let m = word_run_end_x(line, k);
    if m > k {
        let p = space_run_end_x(line, m);
        if p == m {
            return None;
        }
        eq_paren_capture_x(line, p, k, m)
    } else {
        if k - j >= 2 {
            eq_paren_capture_x(line, k, k, m)
        } else {
            None
        }
    }
}

/// Executable mirror of [`eq_paren_capture`].
fn eq_paren_capture_x(line: &str, p: usize, k: usize, m: usize) -> (r: Option<String>)
    requires
        k <= m <= line@.len(),
        p <= line@.len(),
    ensures
        match r {
            Some(name) => eq_paren_capture(line@, p as int, k as int, m as int) == Some(name@),
            None => eq_paren_capture(line@, p as int, k as int, m as int) is None,
        },
{
    let l: usize = line.unicode_len();
    if p >= l {
        return None;
    }
    let c = line.get_char(p);
    if c != '=' {
        return None;
    }
    let q = space_run_end_x(line, p + 1);
    if q > p + 1 && q < l {
        let d = line.get_char(q);
        if d == '(' {
            return Some(line.substring_char(k, m).to_owned());
        }
    }
    None
}

/// Executable mirror of [`line_capture`].
pub fn line_capture_x(line: &str) -> (r: Option<String>)
    ensures
        match r {
            Some(name) => line_capture(line@) == Some(name@),
            None => line_capture(line@) is None,
        },
{
    match fn_decl_capture_x(line) {
        Some(name) => Some(name),
        None => assign_decl_capture_x(line),
    }
}

/// A single-quote or double-quote character.
pub open spec fn is_quote(c: char) -> bool {
    c == '\'' || c == '"'
}

/// A recognized import statement: the raw name-list capture, the quoted
/// module path, and the position just past the closing parenthesis.
pub struct ImportMatch {
    pub names: Seq<char>,
    pub path: Seq<char>,
    pub end: int,
}

/// The tail of an import statement: an optional closing brace after the
/// name list `s[r0..r1]`, optional whitespace, `=`, optional whitespace,
/// the literal `require(`, a quote, a non-empty module path, a quote and a
/// closing parenthesis.
pub open spec fn import_tail(s: Seq<char>, r0: int, r1: int) -> Option<ImportMatch> {
    let b = if r1 < s.len() && s[r1] == '}' {
        r1 + 1
    } else {
        r1
    };
    let e = space_run_end(s, b);
    if e < s.len() && s[e] == '=' {
        let f = space_run_end(s, e + 1);
        if !lit_at(s, "require("@, f) {
            None
        } else {
            let g = f + "require("@.len();
            if g < s.len() && is_quote(s[g]) {
                let h = path_run_end(s, g + 1);
                if h == g + 1 {
                    None
                } else if h + 1 < s.len() && is_quote(s[h]) && s[h + 1] == ')' {
                    Some(
                        ImportMatch {
                            names: s.subrange(r0, r1),
                            path: s.subrange(g + 1, h),
                            end: h + 2,
                        },
                    )
                } else {
                    None
                }
            } else {
                None
            }
        }
    } else {
        None
    }
}

/// An import statement starting exactly at position `i`: a declaration
/// keyword, optional whitespace, then either a braced name list or a bare
/// one, then [`import_tail`]. The name list takes whitespace, word
/// characters and commas and must be non-empty.
pub open spec fn import_at(s: Seq<char>, i: int) -> Option<ImportMatch> {
    match keyword_end(s, i) {
        None => None,
        Some(j) => {
            let k = space_run_end(s, j);
            if k < s.len() && s[k] == '{' {
                let r1 = name_list_run_end(s, k + 1);
                if r1 == k + 1 {
                    None
                } else {
                    import_tail(s, k + 1, r1)
                }
            } else {
                let r1 = name_list_run_end(s, j);
                if r1 == j {
                    None
                } else {
                    import_tail(s, j, r1)
                }
            }
        },
    }
}

pub proof fn lemma_import_at_bounds(s: Seq<char>, i: int)
    requires
        0 <= i <= s.len(),
    ensures
        import_at(s, i) is Some ==> i < import_at(s, i)->Some_0.end <= s.len(),
{
    if import_at(s, i) is Some {
        let j = keyword_end(s, i)->Some_0;
        lemma_space_run_end(s, j);
        let k = space_run_end(s, j);
        if k < s.len() && s[k] == '{' {
            lemma_name_list_run_end(s, k + 1);
            lemma_import_tail_bounds(s, k + 1, name_list_run_end(s, k + 1));
        } else {
            lemma_name_list_run_end(s, j);
            lemma_import_tail_bounds(s, j, name_list_run_end(s, j));
        }
    }
}

proof fn lemma_import_tail_bounds(s: Seq<char>, r0: int, r1: int)
    requires
        0 <= r0 <= r1 <= s.len(),
    ensures
        import_tail(s, r0, r1) is Some ==> r1 < import_tail(s, r0, r1)->Some_0.end <= s.len(),
{
    if import_tail(s, r0, r1) is Some {
        let b = if r1 < s.len() && s[r1] == '}' {
            r1 + 1
        } else {
            r1
        };
        lemma_space_run_end(s, b);
        let e = space_run_end(s, b);
        let f = space_run_end(s, e + 1);
        lemma_space_run_end(s, e + 1);
        let g = f + "require("@.len();
        lemma_path_run_end(s, g + 1);
    }
}

/// Executable mirror of [`import_at`]: on a match, the captured name list,
/// the captured module path, and the position just past the statement.
pub fn import_at_x(s: &str, i: usize) -> (r: Option<(String, String, usize)>)
    requires
        i <= s@.len(),
    ensures
        match r {
            Some(m) => {
                &&& import_at(s@, i as int) == Some(
                    ImportMatch { names: m.0@, path: m.1@, end: m.2 as int },
                )
                &&& i < m.2 <= s@.len()
            },
            None => import_at(s@, i as int) is None,
        },
{
    proof {
        reveal_strlit("require(");
    }
    let l: usize = s.unicode_len();
    let j = match keyword_end_x(s, i) {
        Some(j) => j,
        None => {
            return None;
        },
    };
    let k = space_run_end_x(s, j);
    let mut r0: usize = j;
    let mut r1: usize = j;
    if k < l && s.get_char(k) == '{' {
        r0 = k + 1;
        r1 = name_list_run_end_x(s, k + 1);
        if r1 == k + 1 {
            return None;
        }
    } else {
        r0 = j;
        r1 = name_list_run_end_x(s, j);
        if r1 == j {
            return None;
        }
    }
    let b = if r1 < l && s.get_char(r1) == '}' {
        r1 + 1
    } else {
        r1
    };
    let e = space_run_end_x(s, b);
    if e >= l {
        return None;
    }
    if s.get_char(e) != '=' {
        return None;
    }
    let f = space_run_end_x(s, e + 1);
    if !lit_at_x(s, "require(", f) {
        return None;
    }
    let g = f + 8;
    if g >= l {
        return None;
    }
    let qc = s.get_char(g);
    if !(qc == '\'' || qc == '"') {
        return None;
    }
    let h = path_run_end_x(s, g + 1);
    if h == g + 1 {
        return None;
    }
    if l - h <= 1 {
        return None;
    }
    let hq = s.get_char(h);
    if !(hq == '\'' || hq == '"') {
        return None;
    }
    if s.get_char(h + 1) != ')' {
        return None;
    }
    let names = s.substring_char(r0, r1).to_owned();
    let path = s.substring_char(g + 1, h).to_owned();
    Some((names, path, h + 2))
}

/// All import statements recognized in `s` from position `i` on, scanning
/// left to right without overlap: after a match the scan resumes just past
/// it, otherwise it advances one character.
pub open spec fn import_matches(s: Seq<char>, i: int) -> Seq<ImportMatch>
    decreases s.len() - i,
    when 0 <= i <= s.len()
    via import_matches_dec
{
    if i >= s.len() {
        Seq::empty()
    } else {
        match import_at(s, i) {
            Some(m) => seq![m] + import_matches(s, m.end),
            None => import_matches(s, i + 1),
        }
    }
}

#[via_fn]
proof fn import_matches_dec(s: Seq<char>, i: int) {
    if i < s.len() {
        lemma_import_at_bounds(s, i);
    }
}

/// The pieces of a name-list capture: split at commas, each piece trimmed
/// of surrounding whitespace. A trailing comma yields a final empty name.
pub open spec fn split_names_from(s: Seq<char>, start: int) -> Seq<Seq<char>>
    decreases s.len() - start,
    when 0 <= start <= s.len()
    via split_names_dec
{
    let k = find_char(s, start, ',');
    if k == s.len() {
        seq![trim_spec(s.subrange(start, s.len() as int))]
    } else {
        seq![trim_spec(s.subrange(start, k))] + split_names_from(s, k + 1)
    }
}

#[via_fn]
proof fn split_names_dec(s: Seq<char>, start: int) {
    crate::text::lemma_find_char(s, start, ',');
}

/// Executable mirror of [`split_names_from`] over a whole capture.
pub fn split_names_x(run: &str) -> (r: Vec<String>)
    ensures
        r.deep_view() == split_names_from(run@, 0),
{
    let l: usize = run.unicode_len();
    let mut out: Vec<String> = Vec::new();
    let mut start: usize = 0;
    loop
        invariant
            start <= l,
            l == run@.len(),
            out.deep_view() + split_names_from(run@, start as int) == split_names_from(run@, 0),
        decreases l - start,
    {
        let k = find_char_x(run, start, ',');
        if k == l {
            let piece = run.substring_char(start, l);
            let t = trim_x(piece);
            out.push(t);
            assert(out.deep_view() =~= split_names_from(run@, 0));
            return out;
        }
        let piece = run.substring_char(start, k);
        let t = trim_x(piece);
        out.push(t);
        assert(out.deep_view() + split_names_from(run@, k + 1) =~= split_names_from(run@, 0));
        start = k + 1;
    }
}

/// The `(name, module path)` pairs of one import statement: one pair per
/// name in the list, every pair carrying the statement's module path.
pub open spec fn match_pairs(m: ImportMatch) -> Seq<(Seq<char>, Seq<char>)> {
    split_names_from(m.names, 0).map_values(|n: Seq<char>| (n, m.path))
}

/// The pairs of a sequence of import statements, in statement order.
pub open spec fn matches_pairs(ms: Seq<ImportMatch>) -> Seq<(Seq<char>, Seq<char>)>
    decreases ms.len(),
{
    if ms.len() == 0 {
        Seq::empty()
    } else {
        match_pairs(ms[0]) + matches_pairs(ms.drop_first())
    }
}

/// Every `(name, module path)` pair recognized in a file's joined text.
pub open spec fn import_pairs(s: Seq<char>) -> Seq<(Seq<char>, Seq<char>)> {
    matches_pairs(import_matches(s, 0))
}

/// Executable mirror of [`import_pairs`].
pub fn import_pairs_x(blob: &str) -> (r: Vec<(String, String)>)
    ensures
        r.deep_view() == import_pairs(blob@),
{
    let l: usize = blob.unicode_len();
    let mut out: Vec<(String, String)> = Vec::new();
    let mut i: usize = 0;
    loop
        invariant
            i <= l,
            l == blob@.len(),
            out.deep_view() + matches_pairs(import_matches(blob@, i as int)) == import_pairs(
                blob@,
            ),
        decreases l - i,
    {
        if i >= l {
            assert(out.deep_view() =~= import_pairs(blob@));
            return out;
        }
        match import_at_x(blob, i) {
            Some(m) => {
                let names = split_names_x(m.0.as_str());
                let mut t: usize = 0;
                proof {
                    let ms = import_matches(blob@, i as int);
                    assert(ms == seq![
                        ImportMatch { names: m.0@, path: m.1@, end: m.2 as int },
                    ] + import_matches(blob@, m.2 as int));
                    assert(ms.drop_first() =~= import_matches(blob@, m.2 as int));
                    assert(matches_pairs(ms) == match_pairs(ms[0]) + matches_pairs(
                        import_matches(blob@, m.2 as int),
                    ));
                }
                while t < names.len()
                    invariant
                        t <= names.len(),
                        l == blob@.len(),
                        names.deep_view() == split_names_from(m.0@, 0),
                        out.deep_view() + match_pairs(
                            ImportMatch { names: m.0@, path: m.1@, end: m.2 as int },
                        ).skip(t as int) + matches_pairs(import_matches(blob@, m.2 as int))
                            == import_pairs(blob@),
                    decreases names.len() - t,
                {
                    let name = names[t].clone();
                    let path = m.1.clone();
                    out.push((name, path));
                    proof {
                        let im = ImportMatch { names: m.0@, path: m.1@, end: m.2 as int };
                        assert(match_pairs(im)[t as int] == (names.deep_view()[t as int], m.1@));
                        assert(match_pairs(im).skip(t as int).drop_first() =~= match_pairs(
                            im,
                        ).skip(t + 1));
                        assert(out.deep_view() + match_pairs(im).skip(t + 1) + matches_pairs(
                            import_matches(blob@, m.2 as int),
                        ) =~= import_pairs(blob@));
                    }
                    t += 1;
                }
                proof {
                    let im = ImportMatch { names: m.0@, path: m.1@, end: m.2 as int };
                    assert(match_pairs(im).skip(names.len() as int) =~= Seq::empty());
                    assert(out.deep_view() + matches_pairs(import_matches(blob@, m.2 as int))
                        =~= import_pairs(blob@));
                }
                i = m.2;
            },
            None => {
                assert(import_matches(blob@, i as int) == import_matches(blob@, i + 1));
                i += 1;
            },
        }
    }
}

} // verus!

//! Static resolution of module paths.
//!
//! An import's module path is resolved without touching the file system:
//! the importing file's parent directory, a slash, the module path and a
//! literal `.js` suffix are concatenated, and the result is normalized
//! lexically — empty and `.` segments vanish, `..` removes the segment
//! before it. Whether the resulting file exists is discovered only at
//! query time.

use vstd::prelude::*;

use crate::text::{find_char, find_char_x, rfind_char, rfind_char_x};

verus! {

/// The parent directory of a path: everything before the last `/`, or the
/// empty sequence where there is no slash.
pub open spec fn parent_dir(path: Seq<char>) -> Seq<char> {
    let k = rfind_char(path, path.len() as int, '/');
    if k < 0 {
        Seq::empty()
    } else {
        path.subrange(0, k)
    }
}

/// Executable mirror of [`parent_dir`].
pub fn parent_dir_x(path: &str) -> (r: String)
    ensures
        r@ == parent_dir(path@),
{
    match rfind_char_x(path, '/') {
        Some(k) => {
            proof {
                crate::text::lemma_rfind_char(path@, path@.len() as int, '/');
            }
            path.substring_char(0, k).to_owned()
        },
        None => String::new(),
    }
}

/// The `/`-separated segments of `s` from position `start` on.
pub open spec fn segments_from(s: Seq<char>, start: int) -> Seq<Seq<char>>
    decreases s.len() - start,
    when 0 <= start <= s.len()
    via segments_from_dec
{
    let k = find_char(s, start, '/');
    if k == s.len() {
        seq![s.subrange(start, s.len() as int)]
    } else {
        seq![s.subrange(start, k)] + segments_from(s, k + 1)
    }
}

#[via_fn]
proof fn segments_from_dec(s: Seq<char>, start: int) {
    crate::text::lemma_find_char(s, start, '/');
}

/// One step of lexical normalization: push a plain segment on the stack,
/// ignore empty and `.` segments, and let `..` pop the last plain segment
/// (at the root it is ignored).
pub open spec fn norm_step(stack: Seq<Seq<char>>, seg: Seq<char>) -> Seq<Seq<char>> {
    if seg.len() == 0 || seg == seq!['.'] {
        stack
    } else if seg == seq!['.', '.'] {
        if stack.len() > 0 {
            stack.drop_last()
        } else {
            stack
        }
    } else {
        stack.push(seg)
    }
}

/// The stack of plain segments left after normalizing the first `n`
/// segments.
pub open spec fn norm_stack(segs: Seq<Seq<char>>, n: int) -> Seq<Seq<char>>
    decreases n,
{
    if n <= 0 {
        Seq::empty()
    } else {
        norm_step(norm_stack(segs, n - 1), segs[n - 1])
    }
}

/// An absolute path from its plain segments: a leading `/` before each
/// segment; the bare root `/` where there are none.
pub open spec fn join_segments(segs: Seq<Seq<char>>, n: int) -> Seq<char>
    decreases n,
{
    if n <= 0 {
        Seq::empty()
    } else {
        join_segments(segs, n - 1) + seq!['/'] + segs[n - 1]
    }
}

/// The lexical normalization of an absolute path.
pub open spec fn normalize_abs(s: Seq<char>) -> Seq<char> {
    let segs = segments_from(s, 0);
    let stack = norm_stack(segs, segs.len() as int);
    if stack.len() == 0 {
        seq!['/']
    } else {
        join_segments(stack, stack.len() as int)
    }
}

/// The resolved target of an import: the importing file's directory, a
/// slash, the module path and a literal `.js` suffix, normalized.
pub open spec fn resolve_import_spec(dir: Seq<char>, modpath: Seq<char>) -> Seq<char> {
    normalize_abs(dir + seq!['/'] + modpath + ".js"@)
}

/// Executable mirror of [`segments_from`] over the whole of `s`.
fn split_segments(s: &str) -> (r: Vec<String>)
    ensures
        r.deep_view() == segments_from(s@, 0),
{
    let l: usize = s.unicode_len();
    let mut out: Vec<String> = Vec::new();
    let mut start: usize = 0;
    loop
        invariant
            start <= l,
            l == s@.len(),
            out.deep_view() + segments_from(s@, start as int) == segments_from(s@, 0),
        decreases l - start,
    {
        let k = find_char_x(s, start, '/');
        if k == l {
            let piece = s.substring_char(start, l).to_owned();
            out.push(piece);
            assert(out.deep_view() =~= segments_from(s@, 0));
            return out;
        }
        let piece = s.substring_char(start, k).to_owned();
        out.push(piece);
        assert(out.deep_view() + segments_from(s@, k + 1) =~= segments_from(s@, 0));
        start = k + 1;
    }
}

/// Whether a segment is the no-op `.` (or empty) or the popping `..`.
fn segment_kind(seg: &String) -> (r: u8)
    ensures
        r == 0 <==> (seg@.len() == 0 || seg@ == seq!['.']),
        r == 1 <==> seg@ == seq!['.', '.'],
        r == 0 || r == 1 || r == 2,
{
    let l: usize = seg.as_str().unicode_len();
    if l == 0 {
        return 0;
    }
    if l == 1 {
        if seg.as_str().get_char(0) == '.' {
            assert(seg@ =~= seq!['.']);
            return 0;
        }
        assert(seg@ != seq!['.'] && seg@ != seq!['.', '.']);
        return 2;
    }
    if l == 2 {
        if seg.as_str().get_char(0) == '.' && seg.as_str().get_char(1) == '.' {
            assert(seg@ =~= seq!['.', '.']);
            return 1;
        }
        assert(seg@ != seq!['.'] && seg@ != seq!['.', '.']);
        return 2;
    }
    assert(seg@ != seq!['.'] && seg@ != seq!['.', '.']);
    2
}

/// Executable mirror of [`normalize_abs`].
pub fn normalize_abs_x(s: &str) -> (r: String)
    ensures
        r@ == normalize_abs(s@),
{
    let segs = split_segments(s);
    let mut stack: Vec<String> = Vec::new();
    let mut i: usize = 0;
    while i < segs.len()
        invariant
            i <= segs.len(),
            segs.deep_view() == segments_from(s@, 0),
            stack.deep_view() == norm_stack(segs.deep_view(), i as int),
        decreases segs.len() - i,
    {
        let kind = segment_kind(&segs[i]);
        if kind == 0 {
            // empty or `.`: nothing to do
        } else if kind == 1 {
            if stack.len() > 0 {
                stack.pop();
                assert(stack.deep_view() =~= norm_stack(segs.deep_view(), i + 1));
            }
        } else {
            let seg = segs[i].clone();
            stack.push(seg);
            assert(stack.deep_view() =~= norm_stack(segs.deep_view(), i + 1));
        }
        assert(stack.deep_view() =~= norm_stack(segs.deep_view(), i + 1));
        i += 1;
    }
    if stack.len() == 0 {
        proof {
            reveal_strlit("/");
        }
        assert("/"@ =~= seq!['/']);
        return "/".to_owned();
    }
    let mut out = String::new();
    let mut t: usize = 0;
    while t < stack.len()
        invariant
            t <= stack.len(),
            stack.deep_view() == norm_stack(segs.deep_view(), segs.deep_view().len() as int),
            stack.deep_view().len() > 0,
            out@ == join_segments(stack.deep_view(), t as int),
        decreases stack.len() - t,
    {
        out.append("/");
        proof {
            reveal_strlit("/");
            assert("/"@ =~= seq!['/']);
        }
        out.append(stack[t].as_str());
        t += 1;
    }
    out
}

/// Executable mirror of [`resolve_import_spec`].
pub fn resolve_import(dir: &str, modpath: &str) -> (r: String)
    ensures
        r@ == resolve_import_spec(dir@, modpath@),
{
    proof {
        reveal_strlit("/");
        reveal_strlit(".js");
    }
    let mut joined = dir.to_owned();
    joined.append("/");
    joined.append(modpath);
    joined.append(".js");
    assert(joined@ =~= dir@ + seq!['/'] + modpath@ + ".js"@);
    normalize_abs_x(joined.as_str())
}

} // verus!

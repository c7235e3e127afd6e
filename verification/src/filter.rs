//! The traversal filter: which directory entries are visited and which
//! files are eligible for indexing.

use vstd::prelude::*;

use crate::text::{lit_at, lit_at_x};

verus! {

/// `pat` occurs somewhere in `s`.
pub open spec fn contains_sub(s: Seq<char>, pat: Seq<char>) -> bool {
    exists|i: int| #[trigger] lit_at(s, pat, i)
}

/// Executable mirror of [`contains_sub`].
pub fn contains_sub_x(s: &str, pat: &str) -> (r: bool)
    ensures
        r == contains_sub(s@, pat@),
{
    let sl: usize = s.unicode_len();
    let pl: usize = pat.unicode_len();
    if pl > sl {
        assert(forall|i: int| !lit_at(s@, pat@, i));
        return false;
    }
    let mut i: usize = 0;
    loop
        invariant
            i <= sl - pl + 1,
            pl <= sl,
            sl == s@.len(),
            pl == pat@.len(),
            forall|j: int| 0 <= j < i ==> !lit_at(s@, pat@, j),
        decreases sl - pl + 1 - i,
    {
        if i > sl - pl {
            assert forall|j: int| !lit_at(s@, pat@, j) by {
                if 0 <= j < i {
                } else if j >= i {
                    assert(j + pat@.len() > s@.len());
                }
            }
            return false;
        }
        if lit_at_x(s, pat, i) {
            return true;
        }
        i += 1;
    }
}

/// A file name is an eligible script: it ends in `.js`, does not start
/// with `.`, and does not contain `test`.
pub open spec fn eligible_file_name(name: Seq<char>) -> bool {
    &&& name.len() >= ".js"@.len() && lit_at(name, ".js"@, name.len() - ".js"@.len())
    &&& !(name.len() > 0 && name[0] == '.')
    &&& !contains_sub(name, "test"@)
}

/// A directory entry survives traversal: its name must not contain
/// `node_modules` (this prunes whole subtrees), and a file entry must
/// moreover carry an eligible script-file name. Directories are never held
/// to the script-file rule.
pub open spec fn entry_visible_spec(name: Seq<char>, is_file: bool) -> bool {
    &&& !contains_sub(name, "node_modules"@)
    &&& (is_file ==> eligible_file_name(name))
}

/// Executable mirror of [`eligible_file_name`].
pub fn eligible_file_name_x(name: &str) -> (r: bool)
    ensures
        r == eligible_file_name(name@),
{
    proof {
        reveal_strlit(".js");
        reveal_strlit("test");
    }
    let l: usize = name.unicode_len();
    if l < 3 {
        assert(!(name@.len() >= ".js"@.len() && lit_at(name@, ".js"@, name@.len() - ".js"@.len())));
        return false;
    }
    if !lit_at_x(name, ".js", l - 3) {
        return false;
    }
    if name.get_char(0) == '.' {
        return false;
    }
    if contains_sub_x(name, "test") {
        return false;
    }
    true
}

/// Executable mirror of [`entry_visible_spec`]; this is the predicate the
/// directory walk consults for every entry it reaches.
pub fn entry_visible(name: &str, is_file: bool) -> (r: bool)
    ensures
        r == entry_visible_spec(name@, is_file),
{
    proof {
        reveal_strlit("node_modules");
    }
    if contains_sub_x(name, "node_modules") {
        return false;
    }
    if is_file {
        return eligible_file_name_x(name);
    }
    true
}

} // verus!

//! Pure path-string helpers: base name (final component), parent directory,
//! and joining a directory with a child name.
//!
//! Paths are treated as plain character strings; both `/` and `\` act as
//! component separators.  As the standard path routines do, trailing
//! separators and trailing `.` components are ignored, so `/data/` has base
//! name `data`; a path whose final component is `..` (or that has none at
//! all) yields no base name.

use vstd::prelude::*;
use crate::error::LinkError;

verus! {

/// A character that separates path components.
pub open spec fn is_sep(c: char) -> bool {
    c == '/' || c == '\\'
}

/// Executable twin of `is_sep`.
pub fn is_sep_char(c: char) -> (b: bool)
    ensures
        b == is_sep(c),
{
    c == '/' || c == '\\'
}

/// `s` with trailing separators and trailing `.` components removed.
pub open spec fn spec_strip_trailing(s: Seq<char>) -> Seq<char>
    decreases s.len(),
{
    if s.len() == 0 {
        s
    } else if is_sep(s.last()) {
        spec_strip_trailing(s.drop_last())
    } else if s.last() == '.' && (s.len() == 1 || is_sep(s[s.len() - 2])) {
        spec_strip_trailing(s.drop_last())
    } else {
        s
    }
}

/// Everything after the last separator of `s`, as it stands.
pub open spec fn spec_raw_base(s: Seq<char>) -> Seq<char>
    decreases s.len(),
{
    if s.len() == 0 {
        s
    } else if is_sep(s.last()) {
        Seq::empty()
    } else {
        spec_raw_base(s.drop_last()).push(s.last())
    }
}

/// Everything before the last separator of `s`, as it stands.
pub open spec fn spec_raw_parent(s: Seq<char>) -> Seq<char>
    decreases s.len(),
{
    if s.len() == 0 {
        s
    } else if is_sep(s.last()) {
        s.drop_last()
    } else {
        spec_raw_parent(s.drop_last())
    }
}

/// The final component of a path: what stands after the last separator once
/// trailing separators and `.` components are ignored.
pub open spec fn spec_base_name(s: Seq<char>) -> Seq<char> {
    spec_raw_base(spec_strip_trailing(s))
}

/// The parent of a path: what stands before the separator in front of its
/// final component (empty when there is none).
pub open spec fn spec_parent(s: Seq<char>) -> Seq<char> {
    spec_raw_parent(spec_strip_trailing(s))
}

/// `dir` and `name` joined with a `/` separator.
pub open spec fn spec_join(dir: Seq<char>, name: Seq<char>) -> Seq<char> {
    dir + "/"@ + name
}

/// A base name that can actually name a link: non-empty and not one of the
/// relative-reference components.
pub open spec fn is_valid_base(b: Seq<char>) -> bool {
    b.len() > 0 && b != "."@ && b != ".."@
}

/// When position `i` sits right after the last separator, the raw base name
/// is exactly the suffix starting at `i`.
proof fn lemma_base_name_suffix(s: Seq<char>, i: int)
    requires
        0 <= i <= s.len(),
        forall|j: int| i <= j < s.len() ==> !is_sep(s[j]),
        i == 0 || is_sep(s[i - 1]),
    ensures
        spec_raw_base(s) == s.subrange(i, s.len() as int),
    decreases s.len(),
{
    if i == s.len() {
        if s.len() == 0 {
            assert(spec_raw_base(s) =~= s.subrange(i, s.len() as int));
        } else {
            assert(is_sep(s.last()));
            assert(spec_raw_base(s) =~= s.subrange(i, s.len() as int));
        }
    } else {
        assert(!is_sep(s[s.len() - 1]));
        lemma_base_name_suffix(s.drop_last(), i);
        assert(s.drop_last().subrange(i, s.len() - 1).push(s.last()) =~= s.subrange(
            i,
            s.len() as int,
        ));
    }
}

/// When no separator stands at or after `i`, the raw parent of `s` is the
/// raw parent of the prefix ending at `i`.
proof fn lemma_parent_prefix(s: Seq<char>, i: int)
    requires
        0 <= i <= s.len(),
        forall|j: int| i <= j < s.len() ==> !is_sep(s[j]),
    ensures
        spec_raw_parent(s) == spec_raw_parent(s.subrange(0, i)),
    decreases s.len(),
{
    if i == s.len() {
        assert(s.subrange(0, i) =~= s);
    } else {
        assert(!is_sep(s[s.len() - 1]));
        assert(s.drop_last() =~= s.subrange(0, s.len() - 1));
        lemma_parent_prefix(s.drop_last(), i);
        assert(s.drop_last().subrange(0, i) =~= s.subrange(0, i));
    }
}

/// Base name of a join: joining a directory with a separator-free name that
/// is not empty and not `.` gives a path whose base name is that name.
pub proof fn lemma_join_base_name(dir: Seq<char>, name: Seq<char>)
    requires
        forall|j: int| 0 <= j < name.len() ==> !is_sep(name[j]),
        name.len() > 0,
        name != "."@,
    ensures
        spec_base_name(spec_join(dir, name)) == name,
{
    reveal_strlit("/");
    reveal_strlit(".");
    let joined = spec_join(dir, name);
    assert(joined.last() == name.last());
    assert(!is_sep(joined.last()));
    if name.len() == 1 && name[0] == '.' {
        assert(name =~= "."@);
    }
    if name.len() >= 2 {
        assert(joined[joined.len() - 2] == name[name.len() - 2]);
    }
    assert(spec_strip_trailing(joined) == joined);
    assert(forall|j: int| dir.len() + 1 <= j < joined.len() ==> !is_sep(#[trigger] joined[j]));
    assert(is_sep(joined[dir.len() as int]));
    lemma_base_name_suffix(joined, dir.len() + 1 as int);
    assert(joined.subrange(dir.len() + 1 as int, joined.len() as int) =~= name);
}

/// Whether the path ends, at `end`, in a separator or a `.` component.
fn is_trailing_trim(path: &str, end: usize) -> (b: bool)
    requires
        1 <= end <= path@.len(),
    ensures
        b == (is_sep(path@[end - 1]) || (path@[end - 1] == '.' && (end == 1 || is_sep(
            path@[end - 2],
        )))),
{
    let c = path.get_char(end - 1);
    if is_sep_char(c) {
        true
    } else if c == '.' {
        end == 1 || is_sep_char(path.get_char(end - 2))
    } else {
        false
    }
}

/// Position just past the last character that survives trailing-component
/// stripping: `path`'s first `r` characters are its stripped form.
fn strip_trailing_end(path: &str) -> (r: usize)
    ensures
        r <= path@.len(),
        spec_strip_trailing(path@) == path@.subrange(0, r as int),
        r > 0 ==> !is_sep(path@[r - 1]),
{
    let len = path.unicode_len();
    proof {
        assert(path@.subrange(0, len as int) =~= path@);
    }
    let mut end: usize = len;
    while end > 0 && is_trailing_trim(path, end)
        invariant
            end <= len,
            len == path@.len(),
            spec_strip_trailing(path@) == spec_strip_trailing(path@.subrange(0, end as int)),
        decreases end,
    {
        proof {
            let sub = path@.subrange(0, end as int);
            assert(sub.last() == path@[end - 1]);
            if end >= 2 {
                assert(sub[end - 2] == path@[end - 2]);
            }
            assert(sub.drop_last() =~= path@.subrange(0, end - 1));
        }
        end = end - 1;
    }
    proof {
        let sub = path@.subrange(0, end as int);
        if end == 0 {
            assert(spec_strip_trailing(sub) =~= sub);
        } else {
            assert(sub.last() == path@[end - 1]);
            if end >= 2 {
                assert(sub[end - 2] == path@[end - 2]);
            }
            assert(spec_strip_trailing(sub) == sub);
        }
    }
    end
}

/// Final path component (the engine's name lookup): `Ok` with the base name
/// exactly when that base name could name a link, `InvalidPath` otherwise.
pub fn get_path_last(path: &str) -> (r: Result<String, LinkError>)
    ensures
        match r {
            Ok(b) => b@ == spec_base_name(path@) && is_valid_base(b@),
            Err(e) => e == LinkError::InvalidPath && !is_valid_base(spec_base_name(path@)),
        },
{
    let end = strip_trailing_end(path);
    let mut i: usize = end;
    while i > 0 && !is_sep_char(path.get_char(i - 1))
        invariant
            i <= end,
            end <= path@.len(),
            forall|j: int| i <= j < end ==> !is_sep(path@[j]),
        decreases i,
    {
        i = i - 1;
    }
    proof {
        let sub = path@.subrange(0, end as int);
        assert(forall|j: int| i <= j < end ==> !is_sep(#[trigger] sub[j]));
        if i > 0 {
            assert(sub[i - 1] == path@[i as int - 1]);
        }
        lemma_base_name_suffix(sub, i as int);
        assert(sub.subrange(i as int, end as int) =~= path@.subrange(i as int, end as int));
    }
    let base = path.substring_char(i, end);
    let blen = end - i;
    if blen == 0 {
        return Err(LinkError::InvalidPath);
    }
    if blen == 1 && base.get_char(0) == '.' {
        proof {
            reveal_strlit(".");
            assert(base@ =~= "."@);
        }
        return Err(LinkError::InvalidPath);
    }
    if blen == 2 && base.get_char(0) == '.' && base.get_char(1) == '.' {
        proof {
            reveal_strlit("..");
            assert(base@ =~= ".."@);
        }
        return Err(LinkError::InvalidPath);
    }
    proof {
        reveal_strlit(".");
        reveal_strlit("..");
    }
    Ok(base.to_owned())
}

/// Parent directory of a path: everything before the separator in front of
/// its final component, the empty string when there is none.
pub fn parent_of(path: &str) -> (r: String)
    ensures
        r@ == spec_parent(path@),
{
    let end = strip_trailing_end(path);
    let mut i: usize = end;
    while i > 0 && !is_sep_char(path.get_char(i - 1))
        invariant
            i <= end,
            end <= path@.len(),
            forall|j: int| i <= j < end ==> !is_sep(path@[j]),
        decreases i,
    {
        i = i - 1;
    }
    proof {
        let sub = path@.subrange(0, end as int);
        assert(forall|j: int| i <= j < end ==> !is_sep(#[trigger] sub[j]));
        if i > 0 {
            assert(sub[i - 1] == path@[i as int - 1]);
        }
        lemma_parent_prefix(sub, i as int);
        assert(sub.subrange(0, i as int) =~= path@.subrange(0, i as int));
    }
    if i == 0 {
        proof {
            assert(path@.subrange(0, 0) =~= Seq::<char>::empty());
        }
        String::new()
    } else {
        let p = path.substring_char(0, i - 1);
        proof {
            assert(path@.subrange(0, i as int).drop_last() =~= path@.subrange(0, i - 1));
        }
        p.to_owned()
    }
}

/// `dir` and `name` joined with a `/`.
pub fn join_path(dir: &str, name: &str) -> (r: String)
    ensures
        r@ == spec_join(dir@, name@),
{
    let mut r = dir.to_owned();
    r.append("/");
    r.append(name);
    r
}

} // verus!

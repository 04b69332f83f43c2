//! Unix paths held as strings: joining and the final component.
//!
//! A path is a sequence of characters in which `/` separates components.
//! The functions here follow `std::path::Path` on Unix: `join` adjoins a
//! relative path with one separator and lets an absolute path replace the
//! base, and `file_name` gives the last normal component, skipping `.`
//! components and trailing separators, and gives nothing for `..`.
use vstd::prelude::*;
use vstd::string::*;

verus! {

/// The separator between path components.
pub open spec fn is_sep(c: char) -> bool {
    c == '/'
}

/// A path is absolute when it starts at the root.
pub open spec fn spec_is_absolute(p: Seq<char>) -> bool {
    p.len() > 0 && is_sep(p[0])
}

/// `base` with `path` adjoined: an absolute `path` replaces `base`;
/// otherwise a separator is put between them unless `base` is empty or
/// already ends with one.
pub open spec fn spec_join(base: Seq<char>, path: Seq<char>) -> Seq<char> {
    if spec_is_absolute(path) {
        path
    } else if base.len() == 0 || is_sep(base.last()) {
        base + path
    } else {
        base + seq!['/'] + path
    }
}

/// Index just past the last separator of `p`, or 0 where `p` holds none.
pub open spec fn segment_start(p: Seq<char>) -> int
    decreases p.len(),
{
    if p.len() == 0 {
        0
    } else if is_sep(p.last()) {
        p.len() as int
    } else {
        segment_start(p.drop_last())
    }
}

/// The last component of `p` that is neither empty nor `.`, if any.
pub open spec fn last_component(p: Seq<char>) -> Option<Seq<char>>
    decreases p.len(),
{
    if p.len() == 0 {
        None
    } else if is_sep(p.last()) {
        last_component(p.drop_last())
    } else {
        let start = segment_start(p);
        proof {
            lemma_segment_start_bounds(p);
        }
        let seg = p.subrange(start, p.len() as int);
        if seg == seq!['.'] {
            last_component(p.subrange(0, start))
        } else {
            Some(seg)
        }
    }
}

/// The final component of `p`: its last component, unless that is `..`.
pub open spec fn spec_file_name(p: Seq<char>) -> Option<Seq<char>> {
    match last_component(p) {
        Some(c) => if c == seq!['.', '.'] {
            None
        } else {
            Some(c)
        },
        None => None,
    }
}

pub proof fn lemma_segment_start_bounds(p: Seq<char>)
    ensures
        0 <= segment_start(p) <= p.len(),
        p.len() > 0 && !is_sep(p.last()) ==> segment_start(p) < p.len(),
    decreases p.len(),
{
    if p.len() > 0 && !is_sep(p.last()) {
        lemma_segment_start_bounds(p.drop_last());
    }
}

/// Where `[start, end)` of `p` holds no separator and `start` follows a
/// separator or the beginning, the last segment of `p[..end]` starts at `start`.
proof fn lemma_segment_start_is(p: Seq<char>, start: int, end: int)
    requires
        0 <= start <= end <= p.len(),
        forall|i: int| start <= i < end ==> !is_sep(#[trigger] p[i]),
        start == 0 || is_sep(p[start - 1]),
    ensures
        segment_start(p.subrange(0, end)) == start,
    decreases end - start,
{
    let q = p.subrange(0, end);
    if end == start {
        if start > 0 {
            assert(q.last() == p[start - 1]);
        }
    } else {
        assert(q.last() == p[end - 1]);
        assert(q.drop_last() =~= p.subrange(0, end - 1));
        lemma_segment_start_is(p, start, end - 1);
    }
}

/// A plain name: one component, neither `.` nor `..`.
pub open spec fn is_plain_name(name: Seq<char>) -> bool {
    &&& name.len() > 0
    &&& forall|i: int| 0 <= i < name.len() ==> !is_sep(#[trigger] name[i])
    &&& name != seq!['.']
    &&& name != seq!['.', '.']
}

/// The final component of a directory joined with a plain name is that name.
pub proof fn lemma_file_name_of_join(dir: Seq<char>, name: Seq<char>)
    requires
        is_plain_name(name),
    ensures
        spec_file_name(spec_join(dir, name)) == Some(name),
{
    let p = spec_join(dir, name);
    assert(!is_sep(name[0]));
    let start = p.len() - name.len();
    assert(p.subrange(start, p.len() as int) =~= name);
    assert forall|i: int| start <= i < p.len() implies !is_sep(#[trigger] p[i]) by {
        assert(p[i] == name[i - start]);
    }
    if start > 0 {
        if dir.len() == 0 || is_sep(dir.last()) {
            assert(p[start - 1] == dir.last());
        } else {
            assert(p[start - 1] == '/');
        }
    }
    lemma_segment_start_is(p, start, p.len() as int);
    assert(p.subrange(0, p.len() as int) =~= p);
    assert(p.last() == name.last());
}

/// Joining anything to an absolute path gives an absolute path.
pub proof fn lemma_join_keeps_absolute(base: Seq<char>, path: Seq<char>)
    requires
        spec_is_absolute(base),
    ensures
        spec_is_absolute(spec_join(base, path)),
{
    if !spec_is_absolute(path) {
        assert(spec_join(base, path)[0] == base[0]);
    }
}

/// `base` with `path` adjoined, as `Path::join` does it on Unix.
pub fn join(base: &str, path: &str) -> (res: String)
    ensures
        res@ == spec_join(base@, path@),
{
    let plen = path.unicode_len();
    if plen > 0 && path.get_char(0) == '/' {
        return path.to_owned();
    }
    let blen = base.unicode_len();
    let mut res = base.to_owned();
    if blen > 0 && base.get_char(blen - 1) != '/' {
        let sep = "/";
        proof {
            reveal_strlit("/");
        }
        res.append(sep);
    }
    res.append(path);
    res
}

/// Whether `path` starts at the root.
pub fn is_absolute(path: &str) -> (res: bool)
    ensures
        res == spec_is_absolute(path@),
{
    path.unicode_len() > 0 && path.get_char(0) == '/'
}

/// The final component of `path`, as `Path::file_name` gives it on Unix.
pub fn file_name(path: &str) -> (res: Option<String>)
    ensures
        res is None <==> spec_file_name(path@) is None,
        res matches Some(n) ==> spec_file_name(path@) == Some(n@),
{
    let ghost p = path@;
    let len = path.unicode_len();
    let mut end = len;
    assert(p.subrange(0, len as int) =~= p);
    loop
        invariant
            len == p.len(),
            p == path@,
            end <= len,
            last_component(p.subrange(0, end as int)) == last_component(p),
        decreases end,
    {
        let ghost end0 = end;
        // Skip trailing separators.
        while end > 0 && path.get_char(end - 1) == '/'
            invariant
                end <= end0,
                len == p.len(),
                p == path@,
                end <= len,
                last_component(p.subrange(0, end as int)) == last_component(p),
            decreases end,
        {
            let ghost q = p.subrange(0, end as int);
            assert(q.last() == p[end - 1]);
            assert(q.drop_last() =~= p.subrange(0, end - 1));
            end = end - 1;
        }
        if end == 0 {
            return None;
        }
        // Find the start of the last segment.
        let mut start = end;
        while start > 0 && path.get_char(start - 1) != '/'
            invariant
                end <= end0,
                len == p.len(),
                p == path@,
                0 < end <= len,
                start <= end,
                forall|i: int| start <= i < end ==> !is_sep(#[trigger] p[i]),
            decreases start,
        {
            start = start - 1;
        }
        proof {
            let q = p.subrange(0, end as int);
            lemma_segment_start_is(p, start as int, end as int);
            assert(q.last() == p[end - 1]);
            assert(q.subrange(start as int, end as int) =~= p.subrange(start as int, end as int));
            assert(q.subrange(0, start as int) =~= p.subrange(0, start as int));
        }
        let seg_len = end - start;
        if seg_len == 1 && path.get_char(start) == '.' {
            assert(p.subrange(start as int, end as int) =~= seq!['.']);
            end = start;
        } else {
            let ghost seg = p.subrange(start as int, end as int);
            assert(seg != seq!['.']) by {
                if seg_len == 1 {
                    assert(seg[0] == p[start as int]);
                }
            }
            let is_parent = seg_len == 2 && path.get_char(start) == '.' && path.get_char(start + 1)
                == '.';
            if is_parent {
                assert(seg =~= seq!['.', '.']);
                return None;
            } else {
                assert(seg != seq!['.', '.']) by {
                    if seg_len == 2 {
                        assert(seg[0] == p[start as int]);
                        assert(seg[1] == p[start + 1]);
                    }
                }
                let name = path.substring_char(start, end);
                return Some(name.to_owned());
            }
        }
    }
}

} // verus!

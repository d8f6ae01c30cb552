//! Slash-separated path strings: joined the way `PathBuf::join` joins them
//! on Unix, and their file names the way `Path::file_name` finds them.

use vstd::prelude::*;

use crate::text::{chars_of, push_char};

verus! {

/// `base` joined with `seg`: an absolute `seg` replaces `base`; otherwise a
/// `/` is inserted unless `base` is empty or already ends with one.
pub open spec fn path_join(base: Seq<char>, seg: Seq<char>) -> Seq<char> {
    if seg.len() > 0 && seg[0] == '/' {
        seg
    } else if base.len() == 0 || base.last() == '/' {
        base + seg
    } else {
        base.push('/') + seg
    }
}

/// Joins `seg` onto `base` (see [`path_join`]).
pub fn join(base: &str, seg: &str) -> (r: String)
    ensures
        r@ == path_join(base@, seg@),
{
    let seg_chars = crate::text::chars_of(seg);
    if seg_chars.len() > 0 && seg_chars[0] == '/' {
        return crate::text::owned(seg);
    }
    let base_chars = crate::text::chars_of(base);
    let mut r = crate::text::owned(base);
    if base_chars.len() > 0 && base_chars[base_chars.len() - 1] != '/' {
        push_char(&mut r, '/');
    }
    r.append(seg);
    r
}

/// The part of a slash-separated path after its last `/`.
pub open spec fn last_component(p: Seq<char>) -> Seq<char>
    decreases p.len(),
{
    if p.len() == 0 {
        p
    } else if p.last() == '/' {
        seq![]
    } else {
        last_component(p.drop_last()).push(p.last())
    }
}

/// The file name of a path as `Path::file_name` finds it on Unix: the last
/// part between slashes that is neither empty nor `.`, unless that part is
/// `..`; none for a path without such a part.
pub open spec fn path_file_name(p: Seq<char>) -> Option<Seq<char>>
    decreases p.len(),
{
    let seg = last_component(p);
    if seg.len() == 0 || seg == "."@ {
        if seg.len() >= p.len() {
            None
        } else {
            path_file_name(p.subrange(0, p.len() - seg.len() - 1))
        }
    } else if seg == ".."@ {
        None
    } else {
        Some(seg)
    }
}

proof fn lemma_last_component_len(p: Seq<char>)
    ensures
        last_component(p).len() <= p.len(),
        last_component(p).len() < p.len() ==> p[p.len() - last_component(p).len() - 1] == '/',
        last_component(p) == p.subrange(p.len() - last_component(p).len(), p.len() as int),
    decreases p.len(),
{
    if p.len() > 0 && p.last() != '/' {
        lemma_last_component_len(p.drop_last());
        assert(last_component(p) =~= p.subrange(p.len() - last_component(p).len(), p.len() as int));
    } else if p.len() > 0 {
        assert(p.subrange(p.len() as int, p.len() as int) =~= Seq::<char>::empty());
    } else {
        assert(p.subrange(0, 0) =~= p);
    }
}

/// Start of the part of `cs[..end]` after its last `/`.
fn segment_start(cs: &Vec<char>, end: usize) -> (start: usize)
    requires
        end <= cs@.len(),
    ensures
        start <= end,
        cs@.take(end as int).subrange(start as int, end as int) == last_component(cs@.take(end as int)),
{
    let mut start = end;
    proof {
        lemma_last_component_len(cs@.take(end as int));
    }
    while start > 0 && cs[start - 1] != '/'
        invariant
            start <= end <= cs@.len(),
            last_component(cs@.take(end as int)) == last_component(cs@.take(start as int)) + cs@.subrange(start as int, end as int),
        decreases start,
    {
        assert(cs@.take(start as int).drop_last() =~= cs@.take(start - 1));
        assert(cs@.subrange(start - 1, end as int) =~= seq![cs@[start - 1]] + cs@.subrange(start as int, end as int));
        start = start - 1;
    }
    assert(last_component(cs@.take(start as int)) =~= Seq::<char>::empty());
    assert(cs@.take(end as int).subrange(start as int, end as int) =~= cs@.subrange(start as int, end as int));
    start
}

/// The file name of `p` (see [`path_file_name`]).
pub fn file_name_of(p: &str) -> (name: Option<String>)
    ensures
        match name {
            Some(n) => path_file_name(p@) == Some(n@),
            None => path_file_name(p@) is None,
        },
{
    let cs = chars_of(p);
    let mut end = cs.len();
    assert(p@.take(end as int) =~= p@);
    loop
        invariant
            cs@ == p@,
            end <= cs@.len(),
            path_file_name(p@) == path_file_name(p@.take(end as int)),
        decreases end,
    {
        let start = segment_start(&cs, end);
        let ghost q = p@.take(end as int);
        let ghost seg = last_component(q);
        assert(seg =~= p@.subrange(start as int, end as int));
        let len = end - start;
        if len == 0 || (len == 1 && cs[start] == '.') {
            assert(len == 0 ==> seg.len() == 0);
            assert(len == 1 && cs[start as int] == '.' ==> seg =~= "."@) by {
                reveal_strlit(".");
            }
            if start == 0 {
                return None;
            }
            assert(q.subrange(0, q.len() - seg.len() - 1) =~= p@.take(start - 1));
            end = start - 1;
        } else {
            proof {
                reveal_strlit(".");
                reveal_strlit("..");
                if seg == "."@ {
                    assert(seg.len() == 1 && seg[0] == '.');
                }
            }
            if len == 2 && cs[start] == '.' && cs[start + 1] == '.' {
                assert(seg =~= ".."@);
                return None;
            }
            assert(seg != ".."@) by {
                if seg == ".."@ {
                    assert(seg[0] == '.' && seg[1] == '.');
                }
            }
            let mut name = String::new();
            let mut k = start;
            while k < end
                invariant
                    cs@ == p@,
                    start <= k <= end <= cs@.len(),
                    name@ == p@.subrange(start as int, k as int),
                decreases end - k,
            {
                push_char(&mut name, cs[k]);
                assert(p@.subrange(start as int, k + 1) =~= p@.subrange(start as int, k as int).push(p@[k as int]));
                k = k + 1;
            }
            return Some(name);
        }
    }
}

} // verus!

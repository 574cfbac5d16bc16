use vstd::prelude::*;

verus! {

/// The ASCII code of `/`.
pub const SLASH: u8 = 47;

/// The ASCII code of `.`.
pub const DOT: u8 = 46;

/// The request methods that routing tells apart.
#[derive(Clone, Copy, Debug, PartialEq, Eq, Structural)]
pub enum Method {
    Get,
    Other,
}

/// Splitting a path on `/`, read left to right: the segments closed so far,
/// and the run of bytes since the last `/`. Empty runs are dropped.
pub open spec fn split_state(p: Seq<u8>) -> (Seq<Seq<u8>>, Seq<u8>)
    decreases p.len(),
{
    if p.len() == 0 {
        (Seq::empty(), Seq::empty())
    } else {
        let (done, cur) = split_state(p.drop_last());
        if p.last() == SLASH {
            if cur.len() > 0 {
                (done.push(cur), Seq::empty())
            } else {
                (done, Seq::empty())
            }
        } else {
            (done, cur.push(p.last()))
        }
    }
}

/// The non-empty segments of a path split on `/`, in order.
pub open spec fn segments(p: Seq<u8>) -> Seq<Seq<u8>> {
    let (done, cur) = split_state(p);
    if cur.len() > 0 {
        done.push(cur)
    } else {
        done
    }
}

pub open spec fn no_slash(s: Seq<u8>) -> bool {
    forall|k: int| 0 <= k < s.len() ==> #[trigger] s[k] != SLASH
}

/// Every segment is non-empty and holds no `/`.
pub proof fn lemma_segments_clean(p: Seq<u8>)
    ensures
        forall|j: int|
            0 <= j < segments(p).len() ==> (#[trigger] segments(p)[j]).len() > 0 && no_slash(
                segments(p)[j],
            ),
{
    lemma_split_state_clean(p);
}

proof fn lemma_split_state_clean(p: Seq<u8>)
    ensures
        no_slash(split_state(p).1),
        forall|j: int|
            0 <= j < split_state(p).0.len() ==> (#[trigger] split_state(p).0[j]).len() > 0
                && no_slash(split_state(p).0[j]),
    decreases p.len(),
{
    if p.len() > 0 {
        lemma_split_state_clean(p.drop_last());
    }
}

/// The byte strings that a vector of byte vectors holds.
pub open spec fn views(v: Seq<Vec<u8>>) -> Seq<Seq<u8>> {
    v.map_values(|x: Vec<u8>| x@)
}

/// The non-empty segments of `path` split on `/`.
pub fn path_segments(path: &[u8]) -> (r: Vec<Vec<u8>>)
    ensures
        views(r@) == segments(path@),
{
    let mut done: Vec<Vec<u8>> = Vec::new();
    let mut cur: Vec<u8> = Vec::new();
    let mut i: usize = 0;
    while i < path.len()
        invariant
            0 <= i <= path@.len(),
            (views(done@), cur@) == split_state(path@.subrange(0, i as int)),
        decreases path@.len() - i,
    {
        let ghost before = path@.subrange(0, i as int);
        assert(path@.subrange(0, i as int + 1).drop_last() =~= before);
        let b = path[i];
        if b == SLASH {
            if cur.len() > 0 {
                let ghost d = views(done@);
                let ghost c = cur@;
                done.push(cur);
                cur = Vec::new();
                assert(views(done@) =~= d.push(c));
            }
        } else {
            cur.push(b);
        }
        i = i + 1;
    }
    assert(path@.subrange(0, i as int) =~= path@);
    if cur.len() > 0 {
        let ghost d = views(done@);
        let ghost c = cur@;
        done.push(cur);
        assert(views(done@) =~= d.push(c));
    }
    done
}

/// Where the last `.` of `s` stands, or -1 where there is none.
pub open spec fn last_dot(s: Seq<u8>) -> int
    decreases s.len(),
{
    if s.len() == 0 {
        -1
    } else if s.last() == DOT {
        s.len() - 1
    } else {
        last_dot(s.drop_last())
    }
}

/// The bytes after the last `.` of a file name; `None` where it has no `.`.
pub open spec fn extension_of(name: Seq<u8>) -> Option<Seq<u8>> {
    if last_dot(name) < 0 {
        None
    } else {
        Some(name.subrange(last_dot(name) + 1, name.len() as int))
    }
}

proof fn lemma_last_dot_bounds(s: Seq<u8>)
    ensures
        -1 <= last_dot(s) < s.len(),
        last_dot(s) >= 0 ==> s[last_dot(s)] == DOT,
        forall|k: int| last_dot(s) < k < s.len() ==> #[trigger] s[k] != DOT,
    decreases s.len(),
{
    if s.len() > 0 {
        lemma_last_dot_bounds(s.drop_last());
        assert forall|k: int| last_dot(s) < k < s.len() implies #[trigger] s[k] != DOT by {
            if k < s.len() - 1 {
                assert(s[k] == s.drop_last()[k]);
            }
        }
    }
}

/// A name holds a `.` exactly where `last_dot` finds one.
pub proof fn lemma_no_dot(s: Seq<u8>)
    ensures
        (last_dot(s) < 0) == (forall|k: int| 0 <= k < s.len() ==> #[trigger] s[k] != DOT),
{
    lemma_last_dot_bounds(s);
}

/// The position just after the last `.` of `name`, or `None` where it has no `.`.
pub fn extension_start(name: &[u8]) -> (r: Option<usize>)
    ensures
        r == (if last_dot(name@) < 0 {
            None::<usize>
        } else {
            Some((last_dot(name@) + 1) as usize)
        }),
        r matches Some(k) ==> k <= name@.len() && k == last_dot(name@) + 1,
{
    proof {
        lemma_last_dot_bounds(name@);
    }
    let mut i: usize = name.len();
    assert(name@.subrange(0, i as int) =~= name@);
    while i > 0
        invariant
            i <= name@.len(),
            last_dot(name@) == last_dot(name@.subrange(0, i as int)),
        decreases i,
    {
        let ghost pre = name@.subrange(0, i as int);
        assert(pre.drop_last() =~= name@.subrange(0, i as int - 1));
        if name[i - 1] == DOT {
            return Some(i);
        }
        i = i - 1;
    }
    None
}

} // verus!

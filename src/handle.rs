use vstd::prelude::*;
use crate::media::{MediaKind, kind_of, media_kind};
use crate::range::{CHUNK, range_start, start_of};
use crate::response::{
    Body, BodyView, ChunkReadView, Notice, Response, ResponseView, chunk_view, create_error,
    error_view, not_routed, unrouted_view, whole_view,
};
use crate::route::{Method, extension_of, extension_start, path_segments, segments, views};

verus! {

/// The first segment of the one route: `file`.
pub open spec fn file_word() -> Seq<u8> {
    seq![102u8, 105u8, 108u8, 101u8] /* file */
}

/// The directory of the file store, with its separator: `files/`.
pub open spec fn store_dir() -> Seq<u8> {
    seq![102u8, 105u8, 108u8, 101u8, 115u8, 47u8] /* files/ */
}

/// Where the file store keeps a file of the given name.
pub open spec fn store_path_of(name: Seq<u8>) -> Seq<u8> {
    store_dir() + name
}

/// What to do with a request: answer at once, or read a file first.
#[derive(Debug, PartialEq, Eq)]
pub enum Plan {
    Reply(Response),
    ReadWhole { path: Vec<u8>, kind: MediaKind },
    ReadChunk { path: Vec<u8>, start: u64 },
}

pub enum PlanView {
    Reply(ResponseView),
    ReadWhole { path: Seq<u8>, kind: MediaKind },
    ReadChunk { path: Seq<u8>, start: u64 },
}

impl View for Plan {
    type V = PlanView;

    open spec fn view(&self) -> PlanView {
        match self {
            Plan::Reply(r) => PlanView::Reply(r@),
            Plan::ReadWhole { path, kind } => PlanView::ReadWhole { path: path@, kind: *kind },
            Plan::ReadChunk { path, start } => PlanView::ReadChunk { path: path@, start: *start },
        }
    }
}

/// The file name that a request names: the second path segment, where the
/// method is GET and the first segment is `file`.
pub open spec fn requested_name(m: Method, path: Seq<u8>) -> Option<Seq<u8>> {
    let segs = segments(path);
    if m == Method::Get && segs.len() >= 2 && segs[0] == file_word() {
        Some(segs[1])
    } else {
        None
    }
}

/// What is done with a request for a file of the given name.
pub open spec fn file_plan(name: Seq<u8>, range: Option<Seq<u8>>) -> PlanView {
    match extension_of(name) {
        None => PlanView::Reply(error_view(404, BodyView::Text(Notice::FileMissing))),
        Some(ext) => match kind_of(ext) {
            None => PlanView::Reply(error_view(404, BodyView::Empty)),
            Some(MediaKind::Video) => PlanView::ReadChunk {
                path: store_path_of(name),
                start: start_of(range),
            },
            Some(k) => PlanView::ReadWhole { path: store_path_of(name), kind: k },
        },
    }
}

/// What is done with a request of method `m` for `path`, with the value of
/// its `Range` header if it has one.
pub open spec fn plan_of(m: Method, path: Seq<u8>, range: Option<Seq<u8>>) -> PlanView {
    match requested_name(m, path) {
        Some(name) => file_plan(name, range),
        None => PlanView::Reply(unrouted_view()),
    }
}

/// What a file store, mapping paths to contents, gives for a chunk read from
/// `start`.
pub open spec fn chunk_from(store: Map<Seq<u8>, Seq<u8>>, p: Seq<u8>, start: u64) -> ChunkReadView {
    if !store.contains_key(p) {
        ChunkReadView::Missing
    } else if start + CHUNK <= store[p].len() {
        ChunkReadView::Filled(store[p].subrange(start as int, start + CHUNK))
    } else {
        ChunkReadView::Short
    }
}

/// The size that a file store reports for `p`: 0 where it has no such file.
pub open spec fn size_in(store: Map<Seq<u8>, Seq<u8>>, p: Seq<u8>) -> u64 {
    if store.contains_key(p) {
        store[p].len() as u64
    } else {
        0
    }
}

/// The contents of `p`, where the file store has it.
pub open spec fn contents_in(store: Map<Seq<u8>, Seq<u8>>, p: Seq<u8>) -> Option<Seq<u8>> {
    if store.contains_key(p) {
        Some(store[p])
    } else {
        None
    }
}

/// The response that a request gets, served from `store`.
pub open spec fn serve(
    m: Method,
    path: Seq<u8>,
    range: Option<Seq<u8>>,
    store: Map<Seq<u8>, Seq<u8>>,
) -> ResponseView {
    match plan_of(m, path, range) {
        PlanView::Reply(r) => r,
        PlanView::ReadWhole { path: p, kind } => whole_view(kind, contents_in(store, p)),
        PlanView::ReadChunk { path: p, start } => chunk_view(
            start,
            size_in(store, p),
            chunk_from(store, p, start),
        ),
    }
}

fn is_file_word(s: &Vec<u8>) -> (r: bool)
    ensures
        r == (s@ == file_word()),
{
    let r = s.len() == 4 && s[0] == 102u8 && s[1] == 105u8 && s[2] == 108u8 && s[3] == 101u8;
    proof {
        if r {
            assert(s@ =~= file_word());
        } else if s@ == file_word() {
            assert(s@[0] == file_word()[0]);
        }
    }
    r
}

/// The path under which the file store keeps `name`.
pub fn store_path(name: &[u8]) -> (r: Vec<u8>)
    ensures
        r@ == store_path_of(name@),
{
    let mut out: Vec<u8> = vec![102u8, 105u8, 108u8, 101u8, 115u8, 47u8];
    assert(out@ =~= store_dir());
    let mut i: usize = 0;
    while i < name.len()
        invariant
            0 <= i <= name@.len(),
            out@ == store_dir() + name@.subrange(0, i as int),
        decreases name@.len() - i,
    {
        out.push(name[i]);
        i = i + 1;
        assert(out@ =~= store_dir() + name@.subrange(0, i as int));
    }
    assert(name@.subrange(0, i as int) =~= name@);
    out
}

fn plan_file(name: &[u8], range: Option<&[u8]>) -> (r: Plan)
    ensures
        r@ == file_plan(
            name@,
            match range {
                Some(h) => Some(h@),
                None => None,
            },
        ),
{
    match extension_start(name) {
        None => Plan::Reply(create_error(Body::Text(Notice::FileMissing), 404)),
        Some(s) => {
            let ext: &[u8] = &name[s..name.len()];
            match media_kind(ext) {
                None => Plan::Reply(create_error(Body::Empty, 404)),
                Some(MediaKind::Video) => Plan::ReadChunk {
                    path: store_path(name),
                    start: range_start(range),
                },
                Some(k) => Plan::ReadWhole { path: store_path(name), kind: k },
            }
        },
    }
}

/// Routes a request: method, path, and the value of its `Range` header if
/// any. Only `GET /file/<name>` with a second segment is routed; anything
/// else is answered with 404 at once.
pub fn handle(method: Method, path: &[u8], range: Option<&[u8]>) -> (r: Plan)
    ensures
        r@ == plan_of(
            method,
            path@,
            match range {
                Some(h) => Some(h@),
                None => None,
            },
        ),
{
    let segs = path_segments(path);
    proof {
        assert(views(segs@).len() == segs@.len());
        if segs@.len() >= 2 {
            assert(views(segs@)[0] == segs@[0]@);
            assert(views(segs@)[1] == segs@[1]@);
        }
    }
    let routed = match method {
        Method::Get => segs.len() >= 2 && is_file_word(&segs[0]),
        Method::Other => false,
    };
    if routed {
        plan_file(segs[1].as_slice(), range)
    } else {
        Plan::Reply(not_routed())
    }
}

} // verus!

use vstd::prelude::*;
use crate::media::{ImageFormat, MediaKind};
use crate::range::{CHUNK, ContentRange};

verus! {

/// The fixed texts that error responses carry.
#[derive(Clone, Copy, Debug, PartialEq, Eq, Structural)]
pub enum Notice {
    FileMissing,
    RouteMissing,
}

impl Notice {
    /// The body text of this notice.
    pub fn text(&self) -> (r: &'static str)
        ensures
            r@ == (match *self {
                Notice::FileMissing => "this file not exists"@,
                Notice::RouteMissing => "this router not exists"@,
            }),
    {
        match self {
            Notice::FileMissing => "this file not exists",
            Notice::RouteMissing => "this router not exists",
        }
    }
}

/// What a response carries.
#[derive(Debug, PartialEq, Eq)]
pub enum Body {
    Empty,
    Text(Notice),
    Bytes(Vec<u8>),
}

pub enum BodyView {
    Empty,
    Text(Notice),
    Bytes(Seq<u8>),
}

impl View for Body {
    type V = BodyView;

    open spec fn view(&self) -> BodyView {
        match self {
            Body::Empty => BodyView::Empty,
            Body::Text(n) => BodyView::Text(*n),
            Body::Bytes(b) => BodyView::Bytes(b@),
        }
    }
}

/// A response: its status, the headers that this server sets, and its body.
/// `cors` stands for `Access-Control-Allow-Origin: *` and `accept_ranges`
/// for `Accept-Ranges: bytes`.
#[derive(Debug, PartialEq, Eq)]
pub struct Response {
    pub status: u16,
    pub content_type: Option<MediaKind>,
    pub content_range: Option<ContentRange>,
    pub accept_ranges: bool,
    pub cors: bool,
    pub body: Body,
}

pub struct ResponseView {
    pub status: u16,
    pub content_type: Option<MediaKind>,
    pub content_range: Option<ContentRange>,
    pub accept_ranges: bool,
    pub cors: bool,
    pub body: BodyView,
}

impl View for Response {
    type V = ResponseView;

    open spec fn view(&self) -> ResponseView {
        ResponseView {
            status: self.status,
            content_type: self.content_type,
            content_range: self.content_range,
            accept_ranges: self.accept_ranges,
            cors: self.cors,
            body: self.body@,
        }
    }
}

/// An error response within the file route: it carries the CORS header and
/// nothing else.
pub open spec fn error_view(code: u16, body: BodyView) -> ResponseView {
    ResponseView {
        status: code,
        content_type: None,
        content_range: None,
        accept_ranges: false,
        cors: true,
        body,
    }
}

/// The answer to a request that no route takes: 404 without the CORS header.
pub open spec fn unrouted_view() -> ResponseView {
    ResponseView {
        status: 404,
        content_type: None,
        content_range: None,
        accept_ranges: false,
        cors: false,
        body: BodyView::Text(Notice::RouteMissing),
    }
}

/// The answer for a whole audio or image file, given what reading it gave.
pub open spec fn whole_view(kind: MediaKind, data: Option<Seq<u8>>) -> ResponseView {
    match data {
        None => error_view(400, BodyView::Text(Notice::FileMissing)),
        Some(d) => ResponseView {
            status: 200,
            content_type: Some(kind),
            content_range: None,
            accept_ranges: false,
            cors: true,
            body: BodyView::Bytes(d),
        },
    }
}

/// What reading a chunk of a video gave: the file could not be opened, it
/// ended before the chunk was full, or the chunk was read.
#[derive(Debug, PartialEq, Eq)]
pub enum ChunkRead {
    Missing,
    Short,
    Filled(Vec<u8>),
}

pub enum ChunkReadView {
    Missing,
    Short,
    Filled(Seq<u8>),
}

impl View for ChunkRead {
    type V = ChunkReadView;

    open spec fn view(&self) -> ChunkReadView {
        match self {
            ChunkRead::Missing => ChunkReadView::Missing,
            ChunkRead::Short => ChunkReadView::Short,
            ChunkRead::Filled(b) => ChunkReadView::Filled(b@),
        }
    }
}

/// The answer for a video chunk from `start` of a file of `size` bytes. The
/// range reported runs to the file's last byte, whatever the chunk holds. A
/// chunk that could not be filled, or a size that is unknown (0), gives 500.
pub open spec fn chunk_view(start: u64, size: u64, read: ChunkReadView) -> ResponseView {
    match read {
        ChunkReadView::Missing => error_view(400, BodyView::Text(Notice::FileMissing)),
        ChunkReadView::Short => error_view(500, BodyView::Empty),
        ChunkReadView::Filled(b) => if b.len() == CHUNK && size > 0 {
            ResponseView {
                status: 206,
                content_type: Some(MediaKind::Video),
                content_range: Some(ContentRange { first: start, last: (size - 1) as u64, size }),
                accept_ranges: true,
                cors: true,
                body: BodyView::Bytes(b),
            }
        } else {
            error_view(500, BodyView::Empty)
        },
    }
}

/// An error response of the file route, with the CORS header.
pub fn create_error(body: Body, code: u16) -> (r: Response)
    ensures
        r@ == error_view(code, body@),
{
    Response {
        status: code,
        content_type: None,
        content_range: None,
        accept_ranges: false,
        cors: true,
        body,
    }
}

/// The answer to a request that no route takes.
pub fn not_routed() -> (r: Response)
    ensures
        r@ == unrouted_view(),
{
    Response {
        status: 404,
        content_type: None,
        content_range: None,
        accept_ranges: false,
        cors: false,
        body: Body::Text(Notice::RouteMissing),
    }
}

/// Answers with a whole file of the given kind, or 400 where it could not be
/// read.
fn send_whole(kind: MediaKind, data: Option<Vec<u8>>) -> (r: Response)
    ensures
        r@ == whole_view(
            kind,
            match data {
                Some(d) => Some(d@),
                None => None,
            },
        ),
{
    match data {
        None => create_error(Body::Text(Notice::FileMissing), 400),
        Some(d) => Response {
            status: 200,
            content_type: Some(kind),
            content_range: None,
            accept_ranges: false,
            cors: true,
            body: Body::Bytes(d),
        },
    }
}

/// Answers with a whole audio file (`audio/mp3`), or 400 where it could not
/// be read.
pub fn send_audio(data: Option<Vec<u8>>) -> (r: Response)
    ensures
        r@ == whole_view(
            MediaKind::Audio,
            match data {
                Some(d) => Some(d@),
                None => None,
            },
        ),
{
    send_whole(MediaKind::Audio, data)
}

/// Answers with a whole picture, or 400 where it could not be read.
pub fn send_image(format: ImageFormat, data: Option<Vec<u8>>) -> (r: Response)
    ensures
        r@ == whole_view(
            MediaKind::Image(format),
            match data {
                Some(d) => Some(d@),
                None => None,
            },
        ),
{
    send_whole(MediaKind::Image(format), data)
}

/// Answers with a chunk of a video read from `start` of a file of `size`
/// bytes.
pub fn send_video(start: u64, size: u64, read: ChunkRead) -> (r: Response)
    ensures
        r@ == chunk_view(start, size, read@),
{
    match read {
        ChunkRead::Missing => create_error(Body::Text(Notice::FileMissing), 400),
        ChunkRead::Short => create_error(Body::Empty, 500),
        ChunkRead::Filled(b) => {
            if b.len() as u64 == CHUNK && size > 0 {
                Response {
                    status: 206,
                    content_type: Some(MediaKind::Video),
                    content_range: Some(ContentRange { first: start, last: size - 1, size }),
                    accept_ranges: true,
                    cors: true,
                    body: Body::Bytes(b),
                }
            } else {
                create_error(Body::Empty, 500)
            }
        },
    }
}

} // verus!

use media_server::{
    handle, media_kind, not_routed, send_audio, send_image, send_video, Body, ChunkRead,
    ContentRange, ImageFormat, MediaKind, Method, Notice, Plan, Response, CHUNK,
};

fn file_body(n: usize) -> Vec<u8> {
    (0..n).map(|i| (i % 251) as u8).collect()
}

fn reply(plan: Plan) -> Response {
    match plan {
        Plan::Reply(r) => r,
        other => panic!("expected an immediate answer, got {:?}", other),
    }
}

fn file_missing(code: u16) -> Response {
    Response {
        status: code,
        content_type: None,
        content_range: None,
        accept_ranges: false,
        cors: true,
        body: Body::Text(Notice::FileMissing),
    }
}

#[test]
fn name_without_dot_is_not_found() {
    for name in ["readme", "a", "mp3", "svg"] {
        let path = format!("/file/{}", name);
        let r = reply(handle(Method::Get, path.as_bytes(), None));
        assert_eq!(r, file_missing(404));
        assert_eq!(r.body, Body::Text(Notice::FileMissing));
        assert_eq!(Notice::FileMissing.text(), "this file not exists");
    }
}

#[test]
fn unsupported_extension_has_empty_body() {
    for name in ["notes.txt", "a.MP3", "x.mp3.bak", "pic.gif", "trailing."] {
        let path = format!("/file/{}", name);
        let r = reply(handle(Method::Get, path.as_bytes(), None));
        assert_eq!(r.status, 404);
        assert!(r.cors);
        assert_eq!(r.body, Body::Empty);
    }
}

#[test]
fn audio_file_is_served_whole() {
    let plan = handle(Method::Get, b"/file/sample.mp3", None);
    assert_eq!(
        plan,
        Plan::ReadWhole { path: b"files/sample.mp3".to_vec(), kind: MediaKind::Audio }
    );
    let data = file_body(5000);
    let r = send_audio(Some(data.clone()));
    assert_eq!(r.status, 200);
    assert_eq!(r.content_type, Some(MediaKind::Audio));
    assert_eq!(MediaKind::Audio.mime(), "audio/mp3");
    assert!(r.cors);
    assert_eq!(r.body, Body::Bytes(data));
}

#[test]
fn svg_is_served_as_svg_xml() {
    let plan = handle(Method::Get, b"/file/photo.svg", None);
    assert_eq!(
        plan,
        Plan::ReadWhole {
            path: b"files/photo.svg".to_vec(),
            kind: MediaKind::Image(ImageFormat::Svg)
        }
    );
    let r = send_image(ImageFormat::Svg, Some(b"<svg/>".to_vec()));
    assert_eq!(r.status, 200);
    let kind = r.content_type.unwrap();
    assert_eq!(kind.mime(), "image/svg+xml");
    assert_eq!(r.body, Body::Bytes(b"<svg/>".to_vec()));
}

#[test]
fn other_pictures_keep_their_extension() {
    assert_eq!(MediaKind::Image(ImageFormat::Png).mime(), "image/png");
    assert_eq!(MediaKind::Image(ImageFormat::Jpg).mime(), "image/jpg");
    assert_eq!(MediaKind::Image(ImageFormat::Jpeg).mime(), "image/jpeg");
    assert_eq!(MediaKind::Video.mime(), "video/mp4");
    assert_eq!(media_kind(b"jpeg"), Some(MediaKind::Image(ImageFormat::Jpeg)));
    assert_eq!(media_kind(b"png"), Some(MediaKind::Image(ImageFormat::Png)));
    assert_eq!(media_kind(b"mp4"), Some(MediaKind::Video));
    assert_eq!(media_kind(b"Mp4"), None);
    assert_eq!(media_kind(b""), None);
}

fn video_file(size: usize) -> Vec<u8> {
    file_body(size)
}

fn read_chunk(file: &[u8], start: u64) -> ChunkRead {
    let start = start as usize;
    let end = start + CHUNK as usize;
    if end <= file.len() {
        ChunkRead::Filled(file[start..end].to_vec())
    } else {
        ChunkRead::Short
    }
}

#[test]
fn video_without_range_starts_at_zero() {
    let size = 3 * 1024 * 1024 + 17;
    let file = video_file(size);
    let plan = handle(Method::Get, b"/file/clip.mp4", None);
    assert_eq!(plan, Plan::ReadChunk { path: b"files/clip.mp4".to_vec(), start: 0 });
    let r = send_video(0, size as u64, read_chunk(&file, 0));
    assert_eq!(r.status, 206);
    assert_eq!(r.content_type, Some(MediaKind::Video));
    let range = r.content_range.unwrap();
    assert_eq!(range, ContentRange { first: 0, last: size as u64 - 1, size: size as u64 });
    assert_eq!(range.render(), format!("bytes 0-{}/{}", size - 1, size).into_bytes());
    assert!(r.accept_ranges);
    assert!(r.cors);
    assert_eq!(r.body, Body::Bytes(file[0..2 * 1024 * 1024].to_vec()));
}

#[test]
fn video_with_range_starts_at_offset() {
    let size = 4 * 1024 * 1024;
    let file = video_file(size);
    let plan = handle(Method::Get, b"/file/clip.mp4", Some(&b"bytes=1048576-"[..]));
    assert_eq!(plan, Plan::ReadChunk { path: b"files/clip.mp4".to_vec(), start: 1048576 });
    let r = send_video(1048576, size as u64, read_chunk(&file, 1048576));
    assert_eq!(r.status, 206);
    let range = r.content_range.unwrap();
    assert_eq!(range.render(), b"bytes 1048576-4194303/4194304".to_vec());
    match r.body {
        Body::Bytes(b) => {
            assert_eq!(b.len(), 2 * 1024 * 1024);
            assert_eq!(b, file[1048576..1048576 + 2 * 1024 * 1024].to_vec());
        }
        other => panic!("expected bytes, got {:?}", other),
    }
}

#[test]
fn video_short_read_is_server_error() {
    let r = send_video(1048576, 2 * 1024 * 1024, ChunkRead::Short);
    assert_eq!(r.status, 500);
    assert_eq!(r.body, Body::Empty);
    let r = send_video(0, 0, ChunkRead::Filled(vec![0u8; 2 * 1024 * 1024]));
    assert_eq!(r.status, 500);
    let r = send_video(0, 10, ChunkRead::Filled(vec![0u8; 10]));
    assert_eq!(r.status, 500);
}

#[test]
fn missing_file_is_bad_request() {
    assert_eq!(send_audio(None), file_missing(400));
    assert_eq!(send_image(ImageFormat::Png, None), file_missing(400));
    assert_eq!(send_video(0, 0, ChunkRead::Missing), file_missing(400));
}

#[test]
fn other_routes_are_not_found_without_cors() {
    let expected = Response {
        status: 404,
        content_type: None,
        content_range: None,
        accept_ranges: false,
        cors: false,
        body: Body::Text(Notice::RouteMissing),
    };
    assert_eq!(not_routed(), expected);
    assert_eq!(Notice::RouteMissing.text(), "this router not exists");
    for (m, p) in [
        (Method::Get, "/other"),
        (Method::Other, "/file/x.mp3"),
        (Method::Get, "/file"),
        (Method::Get, "/"),
        (Method::Get, ""),
        (Method::Get, "/files/x.mp3"),
    ] {
        assert_eq!(reply(handle(m, p.as_bytes(), None)), expected);
    }
}

#[test]
fn empty_segments_are_skipped() {
    assert_eq!(
        handle(Method::Get, b"//file///a.png/extra/", None),
        Plan::ReadWhole { path: b"files/a.png".to_vec(), kind: MediaKind::Image(ImageFormat::Png) }
    );
}

#[test]
fn image_answers_repeat() {
    let data = file_body(777);
    let first = handle(Method::Get, b"/file/p.jpg", None);
    let second = handle(Method::Get, b"/file/p.jpg", Some(&b"bytes=5-"[..]));
    assert_eq!(first, second);
    let a = send_image(ImageFormat::Jpg, Some(data.clone()));
    let b = send_image(ImageFormat::Jpg, Some(data.clone()));
    assert_eq!(a, b);
    assert_eq!(a.body, Body::Bytes(data));
}

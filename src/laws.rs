use vstd::prelude::*;
use crate::digits::{ZERO, all_digits, decimal, digits_value, is_digit};
use crate::handle::{PlanView, file_word, plan_of, requested_name, serve, store_path_of};
use crate::media::{ImageFormat, MediaKind, kind_of};
use crate::range::{CHUNK, ContentRange, DASH, lemma_first_dash, start_in, strip_unit, unit_prefix};
use crate::response::{BodyView, Notice, error_view, unrouted_view};
use crate::route::{DOT, Method, SLASH, extension_of, lemma_segments_clean, no_slash, segments, split_state};

verus! {

/// The path `/file/<name>`.
pub open spec fn file_request(name: Seq<u8>) -> Seq<u8> {
    seq![SLASH] + file_word() + seq![SLASH] + name
}

/// The `Range` value `bytes=<start>-`.
pub open spec fn open_range(start: u64) -> Seq<u8> {
    unit_prefix() + decimal(start as nat) + seq![DASH]
}

proof fn lemma_split_append(p: Seq<u8>, s: Seq<u8>)
    requires
        no_slash(s),
    ensures
        split_state(p + s) == (split_state(p).0, split_state(p).1 + s),
    decreases s.len(),
{
    if s.len() == 0 {
        assert(p + s =~= p);
        assert(split_state(p).1 + s =~= split_state(p).1);
    } else {
        lemma_split_append(p, s.drop_last());
        assert((p + s).drop_last() =~= p + s.drop_last());
        assert(split_state(p).1 + s.drop_last() + seq![s.last()] =~= split_state(p).1 + s);
    }
}

/// A request path `/file/<name>` has the two segments `file` and the name.
pub proof fn lemma_file_request_segments(name: Seq<u8>)
    requires
        name.len() > 0,
        no_slash(name),
    ensures
        segments(file_request(name)) == seq![file_word(), name],
{
    let slash: Seq<u8> = seq![SLASH];
    assert(slash.drop_last() =~= Seq::<u8>::empty());
    reveal_with_fuel(split_state, 2);
    assert(split_state(slash) == (Seq::<Seq<u8>>::empty(), Seq::<u8>::empty()));
    lemma_split_append(slash, file_word());
    let head = slash + file_word();
    let dir = head + slash;
    assert(dir.drop_last() =~= head);
    assert(split_state(dir) == (seq![file_word()], Seq::<u8>::empty()));
    lemma_split_append(dir, name);
    assert(file_request(name) =~= dir + name);
    assert(Seq::<u8>::empty() + name =~= name);
    assert(seq![file_word()].push(name) =~= seq![file_word(), name]);
}

/// A name without `/`, asked for by GET, is the name that the route serves.
pub proof fn lemma_file_request_routed(name: Seq<u8>)
    requires
        name.len() > 0,
        no_slash(name),
    ensures
        requested_name(Method::Get, file_request(name)) == Some(name),
{
    lemma_file_request_segments(name);
}

/// A file name without a `.` is answered with 404 and "this file not exists".
pub proof fn law_name_without_extension(
    name: Seq<u8>,
    range: Option<Seq<u8>>,
    store: Map<Seq<u8>, Seq<u8>>,
)
    requires
        name.len() > 0,
        no_slash(name),
        forall|k: int| 0 <= k < name.len() ==> #[trigger] name[k] != DOT,
    ensures
        serve(Method::Get, file_request(name), range, store) == error_view(
            404,
            BodyView::Text(Notice::FileMissing),
        ),
{
    lemma_file_request_routed(name);
    crate::route::lemma_no_dot(name);
}

/// A file name whose extension is not served is answered with 404 and an
/// empty body.
pub proof fn law_unknown_extension(
    name: Seq<u8>,
    range: Option<Seq<u8>>,
    store: Map<Seq<u8>, Seq<u8>>,
)
    requires
        name.len() > 0,
        no_slash(name),
        extension_of(name) matches Some(ext) && kind_of(ext) is None,
    ensures
        serve(Method::Get, file_request(name), range, store) == error_view(404, BodyView::Empty),
{
    lemma_file_request_routed(name);
}

/// A stored audio file is answered with 200, `audio/mp3` and its contents.
pub proof fn law_audio_served(name: Seq<u8>, range: Option<Seq<u8>>, store: Map<Seq<u8>, Seq<u8>>)
    requires
        name.len() > 0,
        no_slash(name),
        extension_of(name) matches Some(ext) && kind_of(ext) == Some(MediaKind::Audio),
        store.contains_key(store_path_of(name)),
    ensures
        serve(Method::Get, file_request(name), range, store).status == 200,
        serve(Method::Get, file_request(name), range, store).content_type == Some(
            MediaKind::Audio,
        ),
        serve(Method::Get, file_request(name), range, store).cors,
        serve(Method::Get, file_request(name), range, store).body == BodyView::Bytes(
            store[store_path_of(name)],
        ),
{
    lemma_file_request_routed(name);
}

/// A stored SVG picture is answered with 200 and `image/svg+xml`, and its
/// contents.
pub proof fn law_svg_served(name: Seq<u8>, range: Option<Seq<u8>>, store: Map<Seq<u8>, Seq<u8>>)
    requires
        name.len() > 0,
        no_slash(name),
        extension_of(name) matches Some(ext) && kind_of(ext) == Some(
            MediaKind::Image(ImageFormat::Svg),
        ),
        store.contains_key(store_path_of(name)),
    ensures
        serve(Method::Get, file_request(name), range, store).status == 200,
        serve(Method::Get, file_request(name), range, store).content_type == Some(
            MediaKind::Image(ImageFormat::Svg),
        ),
        serve(Method::Get, file_request(name), range, store).body == BodyView::Bytes(
            store[store_path_of(name)],
        ),
{
    lemma_file_request_routed(name);
}

proof fn lemma_decimal_digits(n: nat)
    ensures
        decimal(n).len() > 0,
        all_digits(decimal(n)),
        digits_value(decimal(n)) == n,
    decreases n,
{
    if n >= 10 {
        lemma_decimal_digits(n / 10);
        let d = decimal(n);
        assert(d.drop_last() =~= decimal(n / 10));
        assert(d.last() == (ZERO + n % 10) as u8);
        assert((n / 10) * 10 + n % 10 == n);
        assert forall|i: int| 0 <= i < d.len() implies is_digit(#[trigger] d[i]) by {
            if i < d.len() - 1 {
                assert(d[i] == decimal(n / 10)[i]);
            }
        }
    } else {
        assert(decimal(n).drop_last() =~= Seq::<u8>::empty());
        assert(digits_value(Seq::<u8>::empty()) == 0);
    }
}

/// Reading back `bytes=<n>-` gives `n`: the start offset survives being
/// written as a `Range` value.
pub proof fn law_open_range_start(n: u64)
    ensures
        start_in(open_range(n)) == n,
{
    let d = decimal(n as nat);
    lemma_decimal_digits(n as nat);
    let h = open_range(n);
    assert(h.subrange(0, 6) =~= unit_prefix());
    let rest = d + seq![DASH];
    assert(strip_unit(h) =~= rest);
    assert forall|k: int| 0 <= k < d.len() implies #[trigger] rest[k] != DASH by {
        assert(rest[k] == d[k]);
        assert(is_digit(d[k]));
    }
    lemma_first_dash(rest, d.len() as int);
    assert(rest.subrange(0, d.len() as int) =~= d);
}

/// A stored video of at least `start` + 2 MiB bytes, asked for from
/// `start` (no `Range` header asks from 0), is answered with 206, a
/// `Content-Range` of `bytes <start>-<size - 1>/<size>`, `Accept-Ranges`, and
/// the 2 MiB of the file that begin at `start`.
pub proof fn law_video_chunk(name: Seq<u8>, start: u64, store: Map<Seq<u8>, Seq<u8>>)
    requires
        name.len() > 0,
        no_slash(name),
        extension_of(name) matches Some(ext) && kind_of(ext) == Some(MediaKind::Video),
        store.contains_key(store_path_of(name)),
        start + CHUNK <= store[store_path_of(name)].len() <= u64::MAX,
    ensures
        ({
            let file = store[store_path_of(name)];
            let expected = crate::response::ResponseView {
                status: 206,
                content_type: Some(MediaKind::Video),
                content_range: Some(
                    ContentRange { first: start, last: (file.len() - 1) as u64, size: file.len() as u64 },
                ),
                accept_ranges: true,
                cors: true,
                body: BodyView::Bytes(file.subrange(start as int, start + CHUNK)),
            };
            &&& serve(Method::Get, file_request(name), Some(open_range(start)), store) == expected
            &&& start == 0 ==> serve(Method::Get, file_request(name), None, store) == expected
        }),
{
    lemma_file_request_routed(name);
    law_open_range_start(start);
}

/// A file of a served kind that the store lacks is answered with 400 and
/// "this file not exists".
pub proof fn law_missing_file(name: Seq<u8>, range: Option<Seq<u8>>, store: Map<Seq<u8>, Seq<u8>>)
    requires
        name.len() > 0,
        no_slash(name),
        extension_of(name) matches Some(ext) && kind_of(ext) is Some,
        !store.contains_key(store_path_of(name)),
    ensures
        serve(Method::Get, file_request(name), range, store) == error_view(
            400,
            BodyView::Text(Notice::FileMissing),
        ),
{
    lemma_file_request_routed(name);
}

/// Any request but a GET whose path starts with a `file` segment followed by
/// a second one is answered with 404, "this router not exists", and no CORS
/// header.
pub proof fn law_unrouted(
    m: Method,
    path: Seq<u8>,
    range: Option<Seq<u8>>,
    store: Map<Seq<u8>, Seq<u8>>,
)
    requires
        m == Method::Other || segments(path).len() < 2 || segments(path)[0] != file_word(),
    ensures
        serve(m, path, range, store) == unrouted_view(),
        !serve(m, path, range, store).cors,
{
}

/// Requests for one stored picture get the same answer, whatever their
/// `Range` headers, and its body is the stored contents.
pub proof fn law_image_repeatable(
    name: Seq<u8>,
    first: Option<Seq<u8>>,
    second: Option<Seq<u8>>,
    store: Map<Seq<u8>, Seq<u8>>,
    format: ImageFormat,
)
    requires
        name.len() > 0,
        no_slash(name),
        extension_of(name) matches Some(ext) && kind_of(ext) == Some(MediaKind::Image(format)),
        store.contains_key(store_path_of(name)),
    ensures
        serve(Method::Get, file_request(name), first, store) == serve(
            Method::Get,
            file_request(name),
            second,
            store,
        ),
        serve(Method::Get, file_request(name), first, store).body == BodyView::Bytes(
            store[store_path_of(name)],
        ),
{
    lemma_file_request_routed(name);
}

/// Every file that a request makes the server read lies directly in the file
/// store's directory: its name is one path segment, holds no `/`, and is
/// neither `.` nor `..`.
pub proof fn law_reads_stay_in_store(m: Method, path: Seq<u8>, range: Option<Seq<u8>>)
    ensures
        plan_of(m, path, range) matches PlanView::ReadWhole { path: p, .. } ==> exists|name: Seq<u8>|
            #[trigger] store_path_of(name) == p && name.len() > 0 && no_slash(name) && name
                != seq![DOT] && name != seq![DOT, DOT],
        plan_of(m, path, range) matches PlanView::ReadChunk { path: p, .. } ==> exists|name: Seq<u8>|
            #[trigger] store_path_of(name) == p && name.len() > 0 && no_slash(name) && name
                != seq![DOT] && name != seq![DOT, DOT],
{
    lemma_segments_clean(path);
    if let Some(name) = requested_name(m, path) {
        assert(segments(path)[1] == name);
        if name == seq![DOT] || name == seq![DOT, DOT] {
            assert(name.last() == DOT);
            assert(extension_of(name) == Some(name.subrange(name.len() as int, name.len() as int)));
            assert(kind_of(Seq::<u8>::empty()) is None);
            assert(name.subrange(name.len() as int, name.len() as int) =~= Seq::<u8>::empty());
        }
    }
}

} // verus!

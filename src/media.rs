use vstd::prelude::*;

verus! {

/// The picture formats that are served, one per accepted extension.
#[derive(Clone, Copy, Debug, PartialEq, Eq, Structural)]
pub enum ImageFormat {
    Jpeg,
    Jpg,
    Png,
    Svg,
}

/// What a file holds, as told by its extension.
#[derive(Clone, Copy, Debug, PartialEq, Eq, Structural)]
pub enum MediaKind {
    Audio,
    Video,
    Image(ImageFormat),
}

/// The media kind named by an extension, compared byte for byte and case
/// sensitively.
pub open spec fn kind_of(ext: Seq<u8>) -> Option<MediaKind> {
    if ext == seq![109u8, 112u8, 51u8] /* mp3 */ {
        Some(MediaKind::Audio)
    } else if ext == seq![109u8, 112u8, 52u8] /* mp4 */ {
        Some(MediaKind::Video)
    } else if ext == seq![106u8, 112u8, 101u8, 103u8] /* jpeg */ {
        Some(MediaKind::Image(ImageFormat::Jpeg))
    } else if ext == seq![106u8, 112u8, 103u8] /* jpg */ {
        Some(MediaKind::Image(ImageFormat::Jpg))
    } else if ext == seq![112u8, 110u8, 103u8] /* png */ {
        Some(MediaKind::Image(ImageFormat::Png))
    } else if ext == seq![115u8, 118u8, 103u8] /* svg */ {
        Some(MediaKind::Image(ImageFormat::Svg))
    } else {
        None
    }
}

/// The media kind of an extension, if it is one of those served.
pub fn media_kind(ext: &[u8]) -> (r: Option<MediaKind>)
    ensures
        r == kind_of(ext@),
{
    // ASCII codes: m 109, p 112, 3 51, 4 52, j 106, e 101, g 103, n 110, s 115, v 118.
    let n = ext.len();
    if n == 3 && ext[0] == 109u8 && ext[1] == 112u8 && ext[2] == 51u8 {
        assert(ext@ =~= seq![109u8, 112u8, 51u8] /* mp3 */);
        Some(MediaKind::Audio)
    } else if n == 3 && ext[0] == 109u8 && ext[1] == 112u8 && ext[2] == 52u8 {
        assert(ext@ =~= seq![109u8, 112u8, 52u8] /* mp4 */);
        Some(MediaKind::Video)
    } else if n == 4 && ext[0] == 106u8 && ext[1] == 112u8 && ext[2] == 101u8 && ext[3] == 103u8 {
        assert(ext@ =~= seq![106u8, 112u8, 101u8, 103u8] /* jpeg */);
        Some(MediaKind::Image(ImageFormat::Jpeg))
    } else if n == 3 && ext[0] == 106u8 && ext[1] == 112u8 && ext[2] == 103u8 {
        assert(ext@ =~= seq![106u8, 112u8, 103u8] /* jpg */);
        Some(MediaKind::Image(ImageFormat::Jpg))
    } else if n == 3 && ext[0] == 112u8 && ext[1] == 110u8 && ext[2] == 103u8 {
        assert(ext@ =~= seq![112u8, 110u8, 103u8] /* png */);
        Some(MediaKind::Image(ImageFormat::Png))
    } else if n == 3 && ext[0] == 115u8 && ext[1] == 118u8 && ext[2] == 103u8 {
        assert(ext@ =~= seq![115u8, 118u8, 103u8] /* svg */);
        Some(MediaKind::Image(ImageFormat::Svg))
    } else {
        None
    }
}

impl MediaKind {
    /// The `Content-Type` value for this kind: SVG pictures are
    /// `image/svg+xml`, other pictures `image/<extension>`.
    pub fn mime(&self) -> (r: &'static str)
        ensures
            r@ == (match *self {
                MediaKind::Audio => "audio/mp3"@,
                MediaKind::Video => "video/mp4"@,
                MediaKind::Image(ImageFormat::Jpeg) => "image/jpeg"@,
                MediaKind::Image(ImageFormat::Jpg) => "image/jpg"@,
                MediaKind::Image(ImageFormat::Png) => "image/png"@,
                MediaKind::Image(ImageFormat::Svg) => "image/svg+xml"@,
            }),
    {
        match self {
            MediaKind::Audio => "audio/mp3",
            MediaKind::Video => "video/mp4",
            MediaKind::Image(ImageFormat::Jpeg) => "image/jpeg",
            MediaKind::Image(ImageFormat::Jpg) => "image/jpg",
            MediaKind::Image(ImageFormat::Png) => "image/png",
            MediaKind::Image(ImageFormat::Svg) => "image/svg+xml",
        }
    }
}

} // verus!

//! Images are stored as URLs, usually data URLs built from the raw
//! bytes. Each image carries an ID that changes whenever the image is
//! modified; ID 0 is never given to a real image, so it can serve as an
//! initial state when refreshing.

use vstd::prelude::*;
use base64::engine::Engine;
use base64::engine::general_purpose::STANDARD;
use crate::text::{check_match_at, find_sub, matches_at, seq_assoc, str_eq};

verus! {

/// The image formats the URL builder recognizes from magic bytes.
#[derive(Clone, Copy, PartialEq, Eq, Structural, Debug)]
pub enum ImageFormat {
    BMP,
    GIF,
    HDR,
    ICO,
    JPEG,
    PNG,
    PPM,
    TGA,
    TIFF,
    WEBP,
}

/// The format guessed from a byte sequence's magic bytes; a function of
/// the bytes alone.
pub uninterp spec fn guessed_format(data: Seq<u8>) -> Option<ImageFormat>;

/// Relies on image's guess_format: an educated guess from the magic
/// bytes at the start of the buffer, a function of the bytes alone.
#[verifier::external_body]
fn guess_format_of(data: &[u8]) -> (r: Option<ImageFormat>)
    ensures
        r == guessed_format(data@),
{
    match image::guess_format(data) {
        Ok(image::ImageFormat::Bmp) => Some(ImageFormat::BMP),
        Ok(image::ImageFormat::Gif) => Some(ImageFormat::GIF),
        Ok(image::ImageFormat::Hdr) => Some(ImageFormat::HDR),
        Ok(image::ImageFormat::Ico) => Some(ImageFormat::ICO),
        Ok(image::ImageFormat::Jpeg) => Some(ImageFormat::JPEG),
        Ok(image::ImageFormat::Png) => Some(ImageFormat::PNG),
        Ok(image::ImageFormat::Pnm) => Some(ImageFormat::PPM),
        Ok(image::ImageFormat::Tga) => Some(ImageFormat::TGA),
        Ok(image::ImageFormat::Tiff) => Some(ImageFormat::TIFF),
        Ok(image::ImageFormat::WebP) => Some(ImageFormat::WEBP),
        _ => None,
    }
}

/// The standard base64 rendering of a byte sequence; a function of the
/// bytes alone.
pub uninterp spec fn base64_of(data: Seq<u8>) -> Seq<char>;

/// Relies on base64's STANDARD engine encode: a pure rendering of the
/// bytes, empty exactly for empty input.
#[verifier::external_body]
fn base64_encode(data: &[u8]) -> (r: String)
    ensures
        r@ == base64_of(data@),
        r@.len() == 0 <==> data@.len() == 0,
{
    STANDARD.encode(data)
}

/// Relies on base64's STANDARD engine decode: it decodes whatever the
/// STANDARD engine encoded back to the same bytes.
#[verifier::external_body]
fn base64_decode(s: &str) -> (r: Option<Vec<u8>>)
    ensures
        r is Some <== exists|d: Seq<u8>| s@ == base64_of(d),
        r matches Some(v) ==> forall|d: Seq<u8>| s@ == base64_of(d) ==> v@ == d,
{
    STANDARD.decode(s).ok()
}

/// The MIME type of a recognized image format.
pub open spec fn mime_of(f: ImageFormat) -> Seq<char> {
    match f {
        ImageFormat::BMP => "image/bmp"@,
        ImageFormat::GIF => "image/gif"@,
        ImageFormat::HDR => "image/vnd.radiance"@,
        ImageFormat::ICO => "image/x-icon"@,
        ImageFormat::JPEG => "image/jpeg"@,
        ImageFormat::PNG => "image/png"@,
        ImageFormat::PPM => "image/x-portable-pixmap"@,
        ImageFormat::TGA => "image/x-tga"@,
        ImageFormat::TIFF => "image/tiff"@,
        ImageFormat::WEBP => "image/webp"@,
    }
}

/// The file extension of a recognized image format.
pub open spec fn extension_of(f: ImageFormat) -> Seq<char> {
    match f {
        ImageFormat::BMP => "bmp"@,
        ImageFormat::GIF => "gif"@,
        ImageFormat::HDR => "hdr"@,
        ImageFormat::ICO => "ico"@,
        ImageFormat::JPEG => "jpg"@,
        ImageFormat::PNG => "png"@,
        ImageFormat::PPM => "ppm"@,
        ImageFormat::TGA => "tga"@,
        ImageFormat::TIFF => "tiff"@,
        ImageFormat::WEBP => "webp"@,
    }
}

/// The MIME part of a data URL: empty when no format was recognized.
pub open spec fn mime_text(f: Option<ImageFormat>) -> Seq<char> {
    match f {
        Some(fmt) => mime_of(fmt),
        None => Seq::empty(),
    }
}

/// The URL stored for the given bytes: empty for empty data, else a
/// base64 data URL carrying the guessed MIME type.
pub open spec fn url_of(data: Seq<u8>) -> Seq<char> {
    if data.len() == 0 {
        Seq::empty()
    } else {
        "data:"@ + mime_text(guessed_format(data)) + ";base64,"@ + base64_of(data)
    }
}

/// No recognized MIME type contains a semicolon, so the `;base64,`
/// separator a data URL carries is the first in the URL.
proof fn lemma_mime_no_semicolon(f: Option<ImageFormat>)
    ensures
        forall|i: int| 0 <= i < mime_text(f).len() ==> mime_text(f)[i] != ';',
{
    reveal_strlit("image/bmp");
    reveal_strlit("image/gif");
    reveal_strlit("image/vnd.radiance");
    reveal_strlit("image/x-icon");
    reveal_strlit("image/jpeg");
    reveal_strlit("image/png");
    reveal_strlit("image/x-portable-pixmap");
    reveal_strlit("image/x-tga");
    reveal_strlit("image/tiff");
    reveal_strlit("image/webp");
}

/// The error of [`Image::decode_data`]: the URL's payload is not valid
/// base64.
#[derive(Clone, Copy, PartialEq, Eq, Structural, Debug)]
pub enum DecodeError {
    InvalidBase64,
}

/// The source of change-tracking IDs: a strictly increasing counter
/// that never issues 0, so every image drawing its ID from one source
/// carries an ID unlike any issued before it.
pub struct ImageIdSource {
    last: usize,
}

/// What one draw from an ID source does: the counter moved up by one
/// and handed out its new value, which is never 0.
pub open spec fn draws_fresh(pre: ImageIdSource, post: ImageIdSource, id: int) -> bool {
    &&& post.last_view() == pre.last_view() + 1
    &&& id == post.last_view()
    &&& id != 0
}

impl ImageIdSource {
    /// The last ID issued; every ID issued so far lies in 1..=this.
    pub closed spec fn last_view(self) -> int {
        self.last as int
    }

    /// A source that has issued nothing yet; the next ID is 1.
    pub fn new() -> (r: ImageIdSource)
        ensures
            r.last_view() == 0,
    {
        ImageIdSource { last: 0 }
    }

    /// The last ID issued so far.
    pub fn last_issued(&self) -> (r: usize)
        ensures
            r as int == self.last_view(),
    {
        self.last
    }

    /// Draws the next ID: strictly larger than every ID issued before,
    /// and never 0.
    pub fn fresh(&mut self) -> (r: usize)
        requires
            old(self).last_view() < usize::MAX,
        ensures
            draws_fresh(*old(self), *final(self), r as int),
    {
        self.last = self.last + 1;
        self.last
    }
}

/// Law: two IDs drawn in sequence from one source differ, the later is
/// the larger, and neither is 0 — so IDs are unique across all images
/// built from one source, and 0 can stand for the initial state.
pub proof fn lemma_fresh_ids_distinct(
    s0: ImageIdSource,
    s1: ImageIdSource,
    a: int,
    s2: ImageIdSource,
    b: int,
)
    requires
        draws_fresh(s0, s1, a),
        draws_fresh(s1, s2, b),
    ensures
        a != b,
        b > a,
        a != 0,
        b != 0,
{
}

/// An image, stored as a URL together with its change-tracking ID and
/// the format recognized from its bytes.
#[derive(Clone, Debug)]
pub struct Image {
    url: String,
    id: usize,
    format: Option<ImageFormat>,
}

impl Image {
    /// The stored URL.
    pub closed spec fn url_view(self) -> Seq<char> {
        self.url@
    }

    /// The change-tracking ID.
    pub closed spec fn id_view(self) -> int {
        self.id as int
    }

    /// The recognized format.
    pub closed spec fn format_view(self) -> Option<ImageFormat> {
        self.format
    }

    /// Creates an image from its raw bytes, under a fresh ID drawn
    /// from `ids`: nonzero, and unlike the ID of any image built from
    /// that source before.
    pub fn new(data: &[u8], ids: &mut ImageIdSource) -> (r: Image)
        requires
            old(ids).last_view() < usize::MAX,
        ensures
            draws_fresh(*old(ids), *final(ids), r.id_view()),
            r.url_view() == url_of(data@),
            r.format_view() == (if data@.len() > 0 {
                guessed_format(data@)
            } else {
                None::<ImageFormat>
            }),
    {
        let mut image = Image { url: String::new(), id: 0, format: None };
        image.modify(data, ids);
        image
    }

    /// The image's ID. It changes on every modification; 0 never stands
    /// for a real image.
    pub fn id(&self) -> (r: usize)
        ensures
            r as int == self.id_view(),
    {
        self.id
    }

    /// The stored URL.
    pub fn url(&self) -> (r: &str)
        ensures
            r@ == self.url_view(),
    {
        self.url.as_str()
    }

    /// The recognized format, if any.
    pub fn format(&self) -> (r: Option<ImageFormat>)
        ensures
            r == self.format_view(),
    {
        self.format
    }

    /// The MIME type of the recognized format, if any.
    pub fn mime_type(&self) -> (r: Option<&'static str>)
        ensures
            match self.format_view() {
                Some(f) => r matches Some(s) && s@ == mime_of(f),
                None => r is None,
            },
    {
        match self.format {
            None => None,
            Some(ImageFormat::BMP) => Some("image/bmp"),
            Some(ImageFormat::GIF) => Some("image/gif"),
            Some(ImageFormat::HDR) => Some("image/vnd.radiance"),
            Some(ImageFormat::ICO) => Some("image/x-icon"),
            Some(ImageFormat::JPEG) => Some("image/jpeg"),
            Some(ImageFormat::PNG) => Some("image/png"),
            Some(ImageFormat::PPM) => Some("image/x-portable-pixmap"),
            Some(ImageFormat::TGA) => Some("image/x-tga"),
            Some(ImageFormat::TIFF) => Some("image/tiff"),
            Some(ImageFormat::WEBP) => Some("image/webp"),
        }
    }

    /// The file extension of the recognized format, if any.
    pub fn file_extension(&self) -> (r: Option<&'static str>)
        ensures
            match self.format_view() {
                Some(f) => r matches Some(s) && s@ == extension_of(f),
                None => r is None,
            },
    {
        match self.format {
            None => None,
            Some(ImageFormat::BMP) => Some("bmp"),
            Some(ImageFormat::GIF) => Some("gif"),
            Some(ImageFormat::HDR) => Some("hdr"),
            Some(ImageFormat::ICO) => Some("ico"),
            Some(ImageFormat::JPEG) => Some("jpg"),
            Some(ImageFormat::PNG) => Some("png"),
            Some(ImageFormat::PPM) => Some("ppm"),
            Some(ImageFormat::TGA) => Some("tga"),
            Some(ImageFormat::TIFF) => Some("tiff"),
            Some(ImageFormat::WEBP) => Some("webp"),
        }
    }

    /// Replaces the image's bytes: the URL becomes the data URL of the
    /// new bytes (empty for empty data), under a fresh ID drawn from
    /// `ids` — nonzero, and unlike any ID that source issued before, so
    /// every modification is observable through the ID.
    pub fn modify(&mut self, data: &[u8], ids: &mut ImageIdSource)
        requires
            old(ids).last_view() < usize::MAX,
        ensures
            draws_fresh(*old(ids), *final(ids), final(self).id_view()),
            final(self).url_view() == url_of(data@),
            final(self).format_view() == (if data@.len() > 0 {
                guessed_format(data@)
            } else {
                None::<ImageFormat>
            }),
    {
        self.id = ids.fresh();
        self.url = String::new();
        if data.len() != 0 {
            self.url.append("data:");
            self.format = guess_format_of(data);
            let ghost mt = mime_text(guessed_format(data@));
            match self.format {
                Some(ImageFormat::BMP) => self.url.append("image/bmp"),
                Some(ImageFormat::GIF) => self.url.append("image/gif"),
                Some(ImageFormat::HDR) => self.url.append("image/vnd.radiance"),
                Some(ImageFormat::ICO) => self.url.append("image/x-icon"),
                Some(ImageFormat::JPEG) => self.url.append("image/jpeg"),
                Some(ImageFormat::PNG) => self.url.append("image/png"),
                Some(ImageFormat::PPM) => self.url.append("image/x-portable-pixmap"),
                Some(ImageFormat::TGA) => self.url.append("image/x-tga"),
                Some(ImageFormat::TIFF) => self.url.append("image/tiff"),
                Some(ImageFormat::WEBP) => self.url.append("image/webp"),
                None => {
                    proof {
                        assert("data:"@ + mt =~= "data:"@);
                    }
                },
            }
            proof {
                assert(self.url@ == "data:"@ + mt);
            }
            self.url.append(";base64,");
            let b64 = base64_encode(data);
            self.url.append(b64.as_str());
            proof {
                seq_assoc("data:"@, mt, ";base64,"@);
                seq_assoc("data:"@ + mt, ";base64,"@, base64_of(data@));
                assert(self.url@ == (("data:"@ + mt) + ";base64,"@) + base64_of(data@));
            }
        } else {
            self.format = None;
        }
    }

    /// Decodes the base64 payload of a data URL into `buf` (cleared
    /// first); a URL without a base64 data prefix leaves `buf` empty.
    /// For a URL this module built from bytes `d`, the result is `Ok`
    /// and `buf` holds exactly `d`.
    pub fn decode_data(&self, buf: &mut Vec<u8>) -> (r: Result<(), DecodeError>)
        ensures
            self.url_view().len() == 0 ==> (r is Ok && final(buf)@ == Seq::<u8>::empty()),
            forall|d: Seq<u8>|
                d.len() > 0 && self.url_view() == #[trigger] url_of(d)
                    ==> (r is Ok && final(buf)@ == d),
    {
        buf.clear();
        let url = self.url.as_str();
        let url_len = url.unicode_len();
        proof {
            reveal_strlit("data:");
            reveal_strlit(";base64,");
        }
        if url_len < 5 || !check_match_at(url, "data:", 0) {
            proof {
                assert forall|d: Seq<u8>|
                    d.len() > 0 && self.url_view() == #[trigger] url_of(d) implies false by {
                    let u = self.url_view();
                    assert(u == ("data:"@ + mime_text(guessed_format(d)) + ";base64,"@)
                        + base64_of(d));
                    assert(u.len() >= 5 + mime_text(guessed_format(d)).len() + 8);
                    assert(u.subrange(0, 5) =~= "data:"@);
                    assert(matches_at(u, "data:"@, 0));
                }
            }
            return Ok(());
        }
        let rem = url.substring_char(5, url_len);
        let found = find_sub(rem, ";base64,");
        match found {
            None => {
                proof {
                    assert forall|d: Seq<u8>|
                        d.len() > 0 && self.url_view() == #[trigger] url_of(d) implies false by {
                        let u = self.url_view();
                        let mt = mime_text(guessed_format(d));
                        assert(u == ("data:"@ + mt + ";base64,"@) + base64_of(d));
                        assert(rem@ =~= mt + ";base64,"@ + base64_of(d));
                        assert(rem@.subrange(mt.len() as int, mt.len() as int + 8) =~= ";base64,"@);
                        assert(matches_at(rem@, ";base64,"@, mt.len() as int));
                    }
                }
                Ok(())
            },
            Some(idx) => {
                let rem_len = rem.unicode_len();
                let src = rem.substring_char(idx + 8, rem_len);
                let decoded = base64_decode(src);
                proof {
                    assert forall|d: Seq<u8>|
                        d.len() > 0 && self.url_view() == #[trigger] url_of(d) implies src@
                        == base64_of(d) by {
                        let u = self.url_view();
                        let mt = mime_text(guessed_format(d));
                        assert(u == ("data:"@ + mt + ";base64,"@) + base64_of(d));
                        assert(rem@ =~= mt + ";base64,"@ + base64_of(d));
                        lemma_mime_no_semicolon(guessed_format(d));
                        assert(rem@.subrange(mt.len() as int, mt.len() as int + 8) =~= ";base64,"@);
                        assert(matches_at(rem@, ";base64,"@, mt.len() as int));
                        if idx < mt.len() {
                            assert(matches_at(rem@, ";base64,"@, idx as int));
                            assert(rem@.subrange(idx as int, idx + 8)[0] == rem@[idx as int]);
                            assert(";base64,"@[0] == ';');
                            assert(rem@[idx as int] == mt[idx as int]);
                            assert(false);
                        }
                        if idx > mt.len() {
                            assert(!matches_at(rem@, ";base64,"@, mt.len() as int));
                            assert(false);
                        }
                        assert(idx == mt.len());
                        assert(src@ =~= base64_of(d));
                    }
                }
                match decoded {
                    Some(v) => {
                        *buf = v;
                        Ok(())
                    },
                    None => {
                        proof {
                            assert forall|d: Seq<u8>|
                                d.len() > 0 && self.url_view() == #[trigger] url_of(
                                    d,
                                ) implies false by {
                                assert(src@ == base64_of(d));
                            }
                        }
                        Err(DecodeError::InvalidBase64)
                    },
                }
            },
        }
    }

    /// Reports the URL when the image changed since `old_id` last saw
    /// it, and brings `old_id` up to date.
    pub fn check_for_change(&self, old_id: &mut usize) -> (r: Option<&str>)
        ensures
            *old(old_id) as int != self.id_view() ==> (*final(old_id) as int == self.id_view() && (
            r matches Some(s) && s@ == self.url_view())),
            *old(old_id) as int == self.id_view() ==> (*final(old_id) == *old(old_id) && r is None),
    {
        if *old_id != self.id {
            *old_id = self.id;
            Some(self.url.as_str())
        } else {
            None
        }
    }

    /// True when the image holds no data at all.
    pub fn is_empty(&self) -> (r: bool)
        ensures
            r == (self.url_view().len() == 0),
    {
        self.url.as_str().is_empty()
    }
}

impl Default for Image {
    /// The empty image, under the initial ID 0.
    fn default() -> (r: Image)
        ensures
            r.url_view().len() == 0,
            r.id_view() == 0,
            r.format_view() is None,
    {
        Image { url: String::new(), id: 0, format: None }
    }
}

impl PartialEq for Image {
    /// Images compare by their URL alone.
    fn eq(&self, other: &Image) -> (r: bool) {
        str_eq(self.url.as_str(), other.url.as_str())
    }
}

impl vstd::std_specs::cmp::PartialEqSpecImpl for Image {
    open spec fn obeys_eq_spec() -> bool {
        true
    }

    open spec fn eq_spec(&self, other: &Image) -> bool {
        self.url_view() == other.url_view()
    }
}

} // verus!

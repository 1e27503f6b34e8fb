use vstd::prelude::*;

use crate::options::{CommandSpec, CommandSpecView};
use crate::text::{decimal, push_decimal};

verus! {

/// An image as rows of RGBA pixels, four bytes each, row after row.
pub struct Picture {
    pub width: u32,
    pub height: u32,
    pub pixels: Vec<u8>,
}

impl Picture {
    /// Whether the pixel bytes cover the picture exactly.
    pub open spec fn wf(&self) -> bool {
        self.pixels@.len() == 4 * self.width * self.height
    }

    /// A fully transparent picture of the given size.
    pub fn blank(width: u32, height: u32) -> (r: Picture)
        requires
            4 * width * height <= usize::MAX,
        ensures
            r.wf(),
            r.width == width,
            r.height == height,
            r.pixels@ == Seq::new((4 * width * height) as nat, |i: int| 0u8),
    {
        let n: usize = if height == 0 {
            0
        } else {
            assert(4 * (width as int) <= 4 * (width as int) * (height as int)) by (nonlinear_arith)
                requires
                    height >= 1,
            ;
            4 * (width as usize) * (height as usize)
        };
        let mut pixels: Vec<u8> = Vec::new();
        while pixels.len() < n
            invariant
                pixels@.len() <= n,
                forall|i: int| 0 <= i < pixels@.len() ==> pixels@[i] == 0u8,
            decreases n - pixels@.len(),
        {
            pixels.push(0u8);
        }
        let r = Picture { width, height, pixels };
        assert(r.pixels@ =~= Seq::new((4 * width * height) as nat, |i: int| 0u8));
        r
    }
}

#[verifier::external_type_specification]
#[verifier::external_body]
pub struct ExImageError(image::ImageError);

/// What the `image` crate's PNG decoder makes of some bytes, as width, height and RGBA
/// pixels; `None` where it reports an error.
pub uninterp spec fn png_decoded(bytes: Seq<u8>) -> Option<(u32, u32, Seq<u8>)>;

/// `image::load_from_memory_with_format` with `ImageFormat::Png`, the image then converted
/// to RGBA (`to_rgba8`). Only the PNG decoder runs: the `png` crate, which the `image`
/// crate drives under its default allocation limit (512 MiB) and which reports malformed
/// input as an error; the crate's other decoders are never reached. Claimed: the result is
/// `png_decoded` of the bytes, it fails exactly where that is `None`, and the pixel bytes
/// cover the picture exactly (the conversion allocates them so).
#[verifier::external_body]
fn decode_png(bytes: &[u8]) -> (r: Result<Picture, image::ImageError>)
    ensures
        match r {
            Ok(p) => p.wf() && png_decoded(bytes@) == Some((p.width, p.height, p.pixels@)),
            Err(_) => png_decoded(bytes@) is None,
        },
{
    let rgba = image::load_from_memory_with_format(bytes, image::ImageFormat::Png)?.to_rgba8();
    Ok(Picture { width: rgba.width(), height: rgba.height(), pixels: rgba.into_raw() })
}

/// The pixels `image::imageops::overlay` leaves in a bottom picture after drawing a top
/// picture over it with its corner at `(x, y)`.
pub uninterp spec fn overlaid(
    bottom_width: u32,
    bottom_height: u32,
    bottom: Seq<u8>,
    top_width: u32,
    top_height: u32,
    top: Seq<u8>,
    x: i64,
    y: i64,
) -> Seq<u8>;

/// `image::imageops::overlay` on two RGBA pictures. Claimed: the bottom picture keeps its
/// size and its pixels become `overlaid` of the arguments.
#[verifier::external_body]
fn overlay(bottom: Picture, top: &Picture, x: i64, y: i64) -> (r: Picture)
    requires
        bottom.wf(),
        top.wf(),
    ensures
        r.wf(),
        r.width == bottom.width,
        r.height == bottom.height,
        r.pixels@ == overlaid(bottom.width, bottom.height, bottom.pixels@, top.width, top.height, top.pixels@, x, y),
{
    let mut b = image::RgbaImage::from_raw(bottom.width, bottom.height, bottom.pixels).unwrap();
    let t = image::RgbaImage::from_raw(top.width, top.height, top.pixels.clone()).unwrap();
    image::imageops::overlay(&mut b, &t, x, y);
    Picture { width: bottom.width, height: bottom.height, pixels: b.into_raw() }
}

/// Draws `pfp` and then `no_sign` over a transparent picture of `pfp`'s size.
pub fn overlay_images(pfp: &Picture, no_sign: &Picture) -> (r: Picture)
    requires
        pfp.wf(),
        no_sign.wf(),
        4 * pfp.width * pfp.height <= usize::MAX,
    ensures
        r.wf(),
        r.width == pfp.width,
        r.height == pfp.height,
        r.pixels@ == overlaid(
            pfp.width,
            pfp.height,
            overlaid(
                pfp.width,
                pfp.height,
                Seq::new((4 * pfp.width * pfp.height) as nat, |i: int| 0u8),
                pfp.width,
                pfp.height,
                pfp.pixels@,
                0,
                0,
            ),
            no_sign.width,
            no_sign.height,
            no_sign.pixels@,
            0,
            0,
        ),
{
    let layered = Picture::blank(pfp.width, pfp.height);
    let layered = overlay(layered, pfp, 0, 0);
    overlay(layered, no_sign, 0, 0)
}

/// Why a new profile picture cannot be made.
pub enum PicError {
    /// The member has no avatar.
    NoAvatar,
    /// An image could not be decoded or encoded; the `image` crate's message.
    Image(String),
}

impl PicError {
    /// The text the error is shown as.
    pub fn message(&self) -> (r: String)
        ensures
            r@ == match self {
                PicError::NoAvatar => "No avatar"@,
                PicError::Image(m) => m@,
            },
    {
        match self {
            PicError::NoAvatar => String::from_str("No avatar"),
            PicError::Image(m) => m.clone(),
        }
    }
}

/// The address at which Discord's CDN serves, as PNG at 1024 pixels, the avatar `hash` of
/// the user `user`.
pub open spec fn avatar_png_url(user: u64, hash: Seq<char>) -> Seq<char> {
    "https://cdn.discordapp.com/avatars/"@ + decimal(user as nat) + "/"@ + hash + ".png?size=1024"@
}

/// The address to fetch the member's avatar from, as PNG; the member must have an avatar.
pub fn avatar_source(user: u64, avatar_hash: Option<String>) -> (r: Result<String, PicError>)
    ensures
        match avatar_hash {
            Some(h) => r matches Ok(v) && v@ == avatar_png_url(user, h@),
            None => r is Err && r->Err_0 is NoAvatar,
        },
{
    match avatar_hash {
        Some(h) => {
            let mut url = String::from_str("https://cdn.discordapp.com/avatars/");
            push_decimal(&mut url, user);
            url.append("/");
            url.append(h.as_str());
            url.append(".png?size=1024");
            Ok(url)
        },
        None => Err(PicError::NoAvatar),
    }
}

/// What the `image` crate's PNG encoder writes for an RGBA picture; `None` where it
/// reports an error.
pub uninterp spec fn png_encoded(width: u32, height: u32, pixels: Seq<u8>) -> Option<Seq<u8>>;

/// Whether the RGBA pixel data of a picture fits in the PNG decoder's default allocation
/// limit (512 MiB), so that decoding its PNG file gives it back.
pub open spec fn small_enough(width: u32, height: u32) -> bool {
    4 * width * height <= 0x2000_0000
}

/// `image::RgbaImage::write_to` in the PNG format, into memory. Claimed: the result is
/// `png_encoded` of the picture, it fails exactly where that is `None`, which is where the
/// picture has no width or no height (the encoder's only check; writing to memory cannot
/// fail), and since PNG is lossless, decoding it again (`decode_png`) gives the picture
/// back when its pixel data fits in the decoder's allocation limit.
#[verifier::external_body]
fn encode_png(p: &Picture) -> (r: Result<Vec<u8>, image::ImageError>)
    requires
        p.wf(),
    ensures
        match r {
            Ok(v) => {
                &&& png_encoded(p.width, p.height, p.pixels@) == Some(v@)
                &&& small_enough(p.width, p.height) ==> png_decoded(v@) == Some((p.width, p.height, p.pixels@))
            },
            Err(_) => png_encoded(p.width, p.height, p.pixels@) is None,
        },
        r is Ok <==> (p.width > 0 && p.height > 0),
{
    let img = image::RgbaImage::from_raw(p.width, p.height, p.pixels.clone()).unwrap();
    let mut out = std::io::Cursor::new(Vec::new());
    img.write_to(&mut out, image::ImageOutputFormat::Png)?;
    Ok(out.into_inner())
}

/// The pixels of the new profile picture: `pfp` and then `sign` drawn over a transparent
/// picture of `pfp`'s size.
pub open spec fn new_avatar_pixels(w: u32, h: u32, pfp: Seq<u8>, sw: u32, sh: u32, sign: Seq<u8>) -> Seq<u8> {
    overlaid(w, h, overlaid(w, h, Seq::new((4 * w * h) as nat, |i: int| 0u8), w, h, pfp, 0, 0), sw, sh, sign, 0, 0)
}

/// The bot's new profile picture, as a PNG file: the member's avatar with the overlay
/// image drawn over it, both PNG files decoded by the `image` crate. It is made whenever
/// both decode and the avatar is not empty.
pub fn run(avatar: &[u8], overlay_image: &[u8]) -> (r: Result<Vec<u8>, PicError>)
    ensures
        match png_decoded(avatar@) {
            None => r matches Err(PicError::Image(_)),
            Some((w, h, pfp)) => match png_decoded(overlay_image@) {
                None => r matches Err(PicError::Image(_)),
                Some((sw, sh, sign)) => match png_encoded(w, h, new_avatar_pixels(w, h, pfp, sw, sh, sign)) {
                    None => (r matches Err(PicError::Image(_))) && (w == 0 || h == 0),
                    Some(png) => {
                        &&& w > 0 && h > 0
                        &&& r matches Ok(v) && v@ == png
                        &&& small_enough(w, h) ==> png_decoded(png) == Some(
                            (w, h, new_avatar_pixels(w, h, pfp, sw, sh, sign)),
                        )
                    },
                },
            },
        },
{
    let pfp = match decode_png(avatar) {
        Ok(p) => p,
        Err(e) => {
            return Err(PicError::Image(e.to_string()));
        },
    };
    let no_sign = match decode_png(overlay_image) {
        Ok(p) => p,
        Err(e) => {
            return Err(PicError::Image(e.to_string()));
        },
    };
    let size = pfp.pixels.len();
    assert(4 * pfp.width * pfp.height == size);
    let picture = overlay_images(&pfp, &no_sign);
    match encode_png(&picture) {
        Ok(png) => Ok(png),
        Err(e) => Err(PicError::Image(e.to_string())),
    }
}

/// The `/foto` command as registered.
pub open spec fn pic_command() -> CommandSpecView {
    CommandSpecView {
        name: "foto"@,
        description: "Change the profile picture of the bot"@,
        options: seq![],
    }
}

/// Declares `/foto`, which takes no options.
pub fn register() -> (r: CommandSpec)
    ensures
        r@ == pic_command(),
{
    let r = CommandSpec {
        name: String::from_str("foto"),
        description: String::from_str("Change the profile picture of the bot"),
        options: Vec::new(),
    };
    assert(r@.options =~= pic_command().options);
    r
}

} // verus!

//! `CGImage.h`
//!
//! Decoding PNG and JPEG data, color spaces and data providers live
//! outside the library; an image here is its decoded pixels.

use vstd::prelude::*;
use crate::image::{Image, rows};
use crate::objc::{id, nil, ObjC, HostObject, Object, retained, released};
use crate::environment::{Environment, only_objc_changed};

verus! {

/// An image.
pub struct CGImageHostObject {
    pub image: Image,
}

pub type CGImageRef = id;
pub type GuestUSize = u32;

pub type CGImageAlphaInfo = u32;
pub const kCGImageAlphaNone: CGImageAlphaInfo = 0;
pub const kCGImageAlphaPremultipliedLast: CGImageAlphaInfo = 1;
pub const kCGImageAlphaPremultipliedFirst: CGImageAlphaInfo = 2;
pub const kCGImageAlphaLast: CGImageAlphaInfo = 3;
pub const kCGImageAlphaFirst: CGImageAlphaInfo = 4;
pub const kCGImageAlphaNoneSkipLast: CGImageAlphaInfo = 5;
pub const kCGImageAlphaNoneSkipFirst: CGImageAlphaInfo = 6;
pub const kCGImageAlphaOnly: CGImageAlphaInfo = 7;

pub type CGImageByteOrderInfo = u32;
pub const kCGImageByteOrderMask: CGImageByteOrderInfo = 0x7000;
pub const kCGImageByteOrderDefault: CGImageByteOrderInfo = 0;
pub const kCGImageByteOrder16Little: CGImageByteOrderInfo = 0x1000;
pub const kCGImageByteOrder32Little: CGImageByteOrderInfo = 0x2000;
pub const kCGImageByteOrder16Big: CGImageByteOrderInfo = 0x3000;
pub const kCGImageByteOrder32Big: CGImageByteOrderInfo = 0x4000;

pub type CGBitmapInfo = u32;
pub const kCGBitmapAlphaInfoMask: CGBitmapInfo = 0x1F;
pub const kCGBitmapByteOrderMask: CGBitmapInfo = 0x7000;

/// The RGB color space model.
pub const kCGColorSpaceModelRGB: i32 = 1;

/// `o` is a live image in the store `s`.
pub open spec fn is_image_in(s: Seq<Option<Object>>, o: id) -> bool {
    1 <= o <= s.len() && s[o - 1] is Some && s[o - 1]->0.host is Image
}

/// `o` is a live image.
pub open spec fn is_image(objc: &ObjC, o: id) -> bool {
    is_image_in(objc.objects@, o)
}

/// The image `o` holds.
pub open spec fn image_of(objc: &ObjC, o: id) -> Image {
    objc.host_of(o)->Image_0.image
}

/// `s1` is `s0` with a new image object of these dimensions and pixels,
/// with one reference.
pub open spec fn new_image_in(s0: Seq<Option<Object>>, s1: Seq<Option<Object>>, w: u32, h: u32, pixels: Seq<u8>) -> bool {
    let o = s0.len() as int;
    &&& s1.len() == s0.len() + 1
    &&& s1.take(o) == s0
    &&& is_image_in(s1, (o + 1) as id)
    &&& s1[o]->0.retain_count == 1
    &&& !s1[o]->0.is_static
    &&& s1[o]->0.host->Image_0.image.width == w
    &&& s1[o]->0.host->Image_0.image.height == h
    &&& s1[o]->0.host->Image_0.image.pixels@ == pixels
}

/// `from_image`: a new image object holding `image`, with one reference
/// held by the caller.
pub fn from_image(env: &mut Environment, image: Image) -> (r: CGImageRef)
    requires
        old(env).wf(),
        old(env).objc.has_room(),
    ensures
        only_objc_changed(old(env), final(env)),
        r == old(env).objc.objects@.len() + 1,
        new_image_in(old(env).objc.objects@, final(env).objc.objects@, image.width, image.height, image.pixels@),
{
    let r = env.objc.alloc_object(HostObject::Image(CGImageHostObject { image }));
    assert(env.objc.objects@.take(old(env).objc.objects@.len() as int) =~= old(env).objc.objects@);
    r
}

/// Borrowing the image of an image object just made by `from_image`
/// gives that image back: the same dimensions and the same pixels.
pub proof fn law_borrow_image_of_from_image(o0: ObjC, o1: ObjC, image: Image)
    requires
        o0.objects@.len() < u32::MAX,
        new_image_in(o0.objects@, o1.objects@, image.width, image.height, image.pixels@),
    ensures
        ({
            let o = (o0.objects@.len() + 1) as id;
            &&& is_image(&o1, o)
            &&& image_of(&o1, o).width == image.width
            &&& image_of(&o1, o).height == image.height
            &&& image_of(&o1, o).pixels@ == image.pixels@
        }),
{
}

/// `borrow_image`: the image an image object holds.
pub fn borrow_image(objc: &ObjC, image: CGImageRef) -> (r: &Image)
    requires
        is_image(objc, image),
    ensures
        *r == image_of(objc, image),
{
    match objc.host(image) {
        HostObject::Image(h) => &h.image,
        _ => vstd::pervasive::unreached(),
    }
}

/// `borrow_image_mut`: the image an image object holds, to change in
/// place.
pub fn borrow_image_mut(objc: &mut ObjC, image: CGImageRef) -> (r: &mut Image)
    requires
        is_image(old(objc), image),
    ensures
        *r == image_of(old(objc), image),
        final(objc).objects@ == old(objc).objects@.update(image - 1, Some(Object {
            retain_count: old(objc).obj(image).retain_count,
            is_static: old(objc).obj(image).is_static,
            host: HostObject::Image(CGImageHostObject { image: *final(r) }),
        })),
{
    match &mut objc.objects[(image - 1) as usize] {
        Some(obj) => match &mut obj.host {
            HostObject::Image(h) => &mut h.image,
            _ => vstd::pervasive::unreached(),
        },
        None => vstd::pervasive::unreached(),
    }
}

/// `CGImageRelease`: releases the image unless it is null.
pub fn CGImageRelease(env: &mut Environment, c: CGImageRef)
    requires
        old(env).wf(),
    ensures
        only_objc_changed(old(env), final(env)),
        released(old(env).objc.objects@, final(env).objc.objects@, c),
{
    if c != nil {
        env.objc.release(c);
    }
}

/// `CGImageRetain`: retains the image unless it is null, and returns it.
pub fn CGImageRetain(env: &mut Environment, c: CGImageRef) -> (r: CGImageRef)
    requires
        old(env).wf(),
        c != nil ==> old(env).objc.live(c) && old(env).objc.can_retain(c),
    ensures
        only_objc_changed(old(env), final(env)),
        r == c,
        final(env).objc.objects@ == retained(old(env).objc.objects@, c),
{
    if c != nil {
        env.objc.retain(c)
    } else {
        c
    }
}

/// `CGImageGetAlphaInfo`: premultiplied alpha, last, as every image here.
pub fn CGImageGetAlphaInfo(env: &mut Environment, image: CGImageRef) -> (r: CGImageAlphaInfo)
    ensures
        *final(env) == *old(env),
        r == kCGImageAlphaPremultipliedLast,
{
    kCGImageAlphaPremultipliedLast
}

/// `CGImageGetWidth`.
pub fn CGImageGetWidth(env: &mut Environment, image: CGImageRef) -> (r: GuestUSize)
    requires
        is_image(&old(env).objc, image),
    ensures
        *final(env) == *old(env),
        r == image_of(&old(env).objc, image).width,
{
    borrow_image(&env.objc, image).dimensions().0
}

/// `CGImageGetHeight`.
pub fn CGImageGetHeight(env: &mut Environment, image: CGImageRef) -> (r: GuestUSize)
    requires
        is_image(&old(env).objc, image),
    ensures
        *final(env) == *old(env),
        r == image_of(&old(env).objc, image).height,
{
    borrow_image(&env.objc, image).dimensions().1
}

/// `CGImageGetBitsPerPixel`: 32.
pub fn CGImageGetBitsPerPixel(env: &mut Environment, image: CGImageRef) -> (r: GuestUSize)
    ensures
        *final(env) == *old(env),
        r == 32,
{
    32
}

/// `CGImageGetBytesPerRow`: four bytes for each pixel of a row.
pub fn CGImageGetBytesPerRow(env: &mut Environment, image: CGImageRef) -> (r: GuestUSize)
    requires
        is_image(&old(env).objc, image),
        image_of(&old(env).objc, image).width * 4 <= u32::MAX,
    ensures
        *final(env) == *old(env),
        r == image_of(&old(env).objc, image).width * 4,
{
    borrow_image(&env.objc, image).dimensions().0 * 4
}

/// `CGImageGetBitsPerComponent`: 8.
pub fn CGImageGetBitsPerComponent(env: &mut Environment, image: CGImageRef) -> (r: GuestUSize)
    ensures
        *final(env) == *old(env),
        r == 8,
{
    8
}

/// `CGImageCreateCopy`: a new image object with a copy of the image; null
/// for null.
pub fn CGImageCreateCopy(env: &mut Environment, image: CGImageRef) -> (r: CGImageRef)
    requires
        old(env).wf(),
        image == nil || is_image(&old(env).objc, image),
        old(env).objc.has_room(),
    ensures
        only_objc_changed(old(env), final(env)),
        image == nil ==> r == nil && *final(env) == *old(env),
        image != nil ==> r == old(env).objc.objects@.len() + 1 && {
            let im = image_of(&old(env).objc, image);
            new_image_in(old(env).objc.objects@, final(env).objc.objects@, im.width, im.height, im.pixels@)
        },
{
    if image == nil {
        return nil;
    }
    let copy = borrow_image(&env.objc, image).copy();
    from_image(env, copy)
}

/// `CGImageCreateCopyWithAlpha`: a new image object with a copy of the
/// image, for the alpha layouts that match it (premultiplied last, last,
/// or skipped last).
pub fn CGImageCreateCopyWithAlpha(env: &mut Environment, image: CGImageRef, alpha_info: CGImageAlphaInfo) -> (r: CGImageRef)
    requires
        old(env).wf(),
        alpha_info == kCGImageAlphaPremultipliedLast || alpha_info == kCGImageAlphaLast
            || alpha_info == kCGImageAlphaNoneSkipLast,
        is_image(&old(env).objc, image),
        old(env).objc.has_room(),
    ensures
        only_objc_changed(old(env), final(env)),
        r == old(env).objc.objects@.len() + 1,
        ({
            let im = image_of(&old(env).objc, image);
            new_image_in(old(env).objc.objects@, final(env).objc.objects@, im.width, im.height, im.pixels@)
        }),
{
    let copy = borrow_image(&env.objc, image).copy();
    from_image(env, copy)
}

/// `CGImageIsMask`: never.
pub fn CGImageIsMask(env: &mut Environment, image: CGImageRef) -> (r: bool)
    ensures
        *final(env) == *old(env),
        !r,
{
    false
}

/// `CGImageGetBitmapInfo`: premultiplied alpha last, default byte order.
pub fn CGImageGetBitmapInfo(env: &mut Environment, image: CGImageRef) -> (r: CGBitmapInfo)
    ensures
        *final(env) == *old(env),
        r == kCGImageAlphaPremultipliedLast | kCGImageByteOrderDefault,
{
    kCGImageAlphaPremultipliedLast | kCGImageByteOrderDefault
}

/// `CGImageGetRenderingIntent`: the default intent, 0.
pub fn CGImageGetRenderingIntent(env: &mut Environment, image: CGImageRef) -> (r: i32)
    ensures
        *final(env) == *old(env),
        r == 0,
{
    0
}

/// `CGImageGetShouldInterpolate`: always.
pub fn CGImageGetShouldInterpolate(env: &mut Environment, image: CGImageRef) -> (r: bool)
    ensures
        *final(env) == *old(env),
        r,
{
    true
}

/// `CGImageCreate` from the bytes of its data provider and the model of
/// its color space: 8 bits per component, 32 per pixel, no decode array
/// and an RGB color space are supported, and the provider must hold
/// `height` rows of `bytes_per_row` bytes, each row long enough for
/// `width` pixels of 4 bytes; otherwise the result is null. The image takes
/// the first `4 * width` bytes of each row.
pub fn CGImageCreate(
    env: &mut Environment,
    width: GuestUSize,
    height: GuestUSize,
    bits_per_component: GuestUSize,
    bits_per_pixel: GuestUSize,
    bytes_per_row: GuestUSize,
    color_space_model: i32,
    bitmap_info: CGBitmapInfo,
    provider_data: &[u8],
    decode: u32,
    should_interpolate: bool,
    intent: i32,
) -> (r: CGImageRef)
    requires
        old(env).wf(),
        old(env).objc.has_room(),
        height * bytes_per_row <= u32::MAX,
    ensures
        only_objc_changed(old(env), final(env)),
        ({
            let ok = bits_per_component == 8 && bits_per_pixel == 32 && decode == 0
                && color_space_model == kCGColorSpaceModelRGB
                && 4 * width <= bytes_per_row
                && provider_data@.len() >= height * bytes_per_row;
            &&& !ok ==> r == nil && *final(env) == *old(env)
            &&& ok ==> r == old(env).objc.objects@.len() + 1 && new_image_in(old(env).objc.objects@,
                    final(env).objc.objects@, width, height,
                    rows(provider_data@, width as nat, height as nat, bytes_per_row as nat))
        }),
{
    if bits_per_component != 8 || bits_per_pixel != 32 {
        return nil;
    }
    if decode != 0 {
        return nil;
    }
    if color_space_model != kCGColorSpaceModelRGB {
        return nil;
    }
    if 4 * (width as u64) > bytes_per_row as u64 {
        return nil;
    }
    let expected = (height * bytes_per_row) as usize;
    if provider_data.len() < expected {
        return nil;
    }
    let image = Image::from_rgba_bytes(width, height, bytes_per_row, provider_data);
    from_image(env, image)
}

/// The pixels of `src` with each alpha byte scaled by the alpha byte of
/// `mask` at the same place (`a * m / 255`); color bytes are kept.
pub open spec fn masked(src: Seq<u8>, mask: Seq<u8>) -> Seq<u8> {
    Seq::new(src.len(), |i: int| if i % 4 == 3 { (src[i] * mask[i] / 255) as u8 } else { src[i] })
}

/// `CGImageCreateWithMask`: a new image whose alpha is the image's scaled
/// by the mask's; null if either is null or their sizes differ.
pub fn CGImageCreateWithMask(env: &mut Environment, image: CGImageRef, mask: CGImageRef) -> (r: CGImageRef)
    requires
        old(env).wf(),
        image == nil || (is_image(&old(env).objc, image) && image_of(&old(env).objc, image).wf()),
        mask == nil || (is_image(&old(env).objc, mask) && image_of(&old(env).objc, mask).wf()),
        old(env).objc.has_room(),
    ensures
        only_objc_changed(old(env), final(env)),
        ({
            let im = image_of(&old(env).objc, image);
            let mk = image_of(&old(env).objc, mask);
            if image == nil || mask == nil || im.width != mk.width || im.height != mk.height {
                r == nil && *final(env) == *old(env)
            } else {
                r == old(env).objc.objects@.len() + 1
                    && new_image_in(old(env).objc.objects@, final(env).objc.objects@, im.width, im.height,
                        masked(im.pixels@, mk.pixels@))
            }
        }),
{
    if image == nil || mask == nil {
        return nil;
    }
    let src = borrow_image(&env.objc, image);
    let mask_img = borrow_image(&env.objc, mask);
    let (w, h) = src.dimensions();
    let (mw, mh) = mask_img.dimensions();
    if mw != w || mh != h {
        return nil;
    }
    let n = src.pixels.len();
    proof {
        vstd::arithmetic::div_mod::lemma_mod_multiples_basic(w * h, 4);
        assert(4 * w * h == (w * h) * 4) by (nonlinear_arith);
    }
    let mut out: Vec<u8> = Vec::new();
    let mut i: usize = 0;
    while i < n
        invariant
            i <= n,
            n == src.pixels@.len(),
            n == mask_img.pixels@.len(),
            n % 4 == 0,
            i % 4 == 0,
            out@ == masked(src.pixels@, mask_img.pixels@).take(i as int),
        decreases n - i,
    {
        let r = src.pixels[i];
        let g = src.pixels[i + 1];
        let b = src.pixels[i + 2];
        let a = src.pixels[i + 3];
        let ma = mask_img.pixels[i + 3] as u16;
        assert(a as u16 * ma <= 65025) by (nonlinear_arith)
            requires a <= 255, ma <= 255;
        let new_a = (a as u16 * ma / 255) as u8;
        out.push(r);
        out.push(g);
        out.push(b);
        out.push(new_a);
        proof {
            let m = masked(src.pixels@, mask_img.pixels@);
            assert((i + 3) % 4 == 3);
            assert(i % 4 == 0 && (i + 1) % 4 == 1 && (i + 2) % 4 == 2);
            assert(out@ =~= m.take(i + 4));
        }
        i = i + 4;
    }
    assert(masked(src.pixels@, mask_img.pixels@).take(n as int) =~= masked(src.pixels@, mask_img.pixels@));
    let out_img = Image::from_pixel_vec(out, (w, h));
    from_image(env, out_img)
}

} // verus!

//! `CGColor.h`

use vstd::prelude::*;
use crate::objc::{id, nil, ObjC, HostObject, Object, retained, released};
use crate::environment::{Environment, only_objc_changed, only_mem_and_heap_changed};
use crate::mem::put_words;
use crate::frameworks::foundation::{is_string, string_of, to_rust_string, bytes_equal};
use super::{CGFloatBits, ZERO_BITS, ONE_BITS};

verus! {

/// The color spaces a color can be in; only generic RGB is supported.
#[derive(Clone, Copy, PartialEq, Eq, Structural)]
pub enum CGColorSpaceName {
    GenericRGB,
}

/// A color: red, green, blue and alpha in generic RGB.
#[derive(Clone, Copy)]
pub struct CGColorHostObject {
    pub color_space_name: CGColorSpaceName,
    pub r: CGFloatBits,
    pub g: CGFloatBits,
    pub b: CGFloatBits,
    pub a: CGFloatBits,
}

/// The constant colors, once made.
pub struct CGColorState {
    pub constant_white: Option<id>,
    pub constant_black: Option<id>,
    pub constant_clear: Option<id>,
}

pub type CGColorRef = id;

/// Red, green, blue and alpha, by their bit patterns.
pub type RGBA = (CGFloatBits, CGFloatBits, CGFloatBits, CGFloatBits);

/// `o` is a live color.
pub open spec fn is_color(objc: &ObjC, o: id) -> bool {
    objc.live(o) && objc.host_of(o) is Color
}

/// The components of the color `o`.
pub open spec fn rgba_of(objc: &ObjC, o: id) -> RGBA {
    match objc.host_of(o) {
        HostObject::Color(c) => (c.r, c.g, c.b, c.a),
        _ => (0, 0, 0, 0),
    }
}

/// The bit pattern `x` is a NaN.
pub open spec fn f32_is_nan(x: CGFloatBits) -> bool {
    (x & 0x7f80_0000) == 0x7f80_0000 && (x & 0x007f_ffff) != 0
}

/// IEEE 754 equality of two `f32`s by their bit patterns: no NaN equals
/// anything, and the two zeros equal each other.
pub open spec fn f32_eq(x: CGFloatBits, y: CGFloatBits) -> bool {
    !f32_is_nan(x) && !f32_is_nan(y) && (x == y || ((x | y) & 0x7fff_ffff) == 0)
}

/// Float equality of components means equal values: two components
/// compare equal only when neither is a NaN and they are bit for bit the
/// same, or both are zeros (+0.0 or -0.0); every non-NaN equals itself, a
/// NaN equals nothing, and equality does not depend on the order.
pub proof fn law_float_equality(x: CGFloatBits, y: CGFloatBits)
    by (bit_vector)
    ensures
        f32_eq(x, y) ==> x == y || ((x == 0 || x == 0x8000_0000) && (y == 0 || y == 0x8000_0000)),
        (x == 0 || x == 0x8000_0000) && (y == 0 || y == 0x8000_0000) ==> f32_eq(x, y),
        !((x & 0x7f80_0000) == 0x7f80_0000 && (x & 0x007f_ffff) != 0) ==> f32_eq(x, x),
        (x & 0x7f80_0000) == 0x7f80_0000 && (x & 0x007f_ffff) != 0 ==> !f32_eq(x, y),
        f32_eq(x, y) == f32_eq(y, x),
{
}

/// Computes [f32_eq].
pub fn float_eq(x: CGFloatBits, y: CGFloatBits) -> (r: bool)
    ensures
        r == f32_eq(x, y),
{
    let x_nan = (x & 0x7f80_0000) == 0x7f80_0000 && (x & 0x007f_ffff) != 0;
    let y_nan = (y & 0x7f80_0000) == 0x7f80_0000 && (y & 0x007f_ffff) != 0;
    !x_nan && !y_nan && (x == y || ((x | y) & 0x7fff_ffff) == 0)
}

/// A new color with these components, with one reference held by the
/// caller.
pub fn from_rgba(env: &mut Environment, rgba: RGBA) -> (r: CGColorRef)
    requires
        old(env).wf(),
        old(env).objc.has_room(),
    ensures
        only_objc_changed(old(env), final(env)),
        r == old(env).objc.objects@.len() + 1,
        final(env).objc.objects@ == old(env).objc.objects@.push(Some(Object {
            retain_count: 1,
            is_static: false,
            host: HostObject::Color(CGColorHostObject {
                color_space_name: CGColorSpaceName::GenericRGB,
                r: rgba.0,
                g: rgba.1,
                b: rgba.2,
                a: rgba.3,
            }),
        })),
{
    let (r, g, b, a) = rgba;
    let host = CGColorHostObject { color_space_name: CGColorSpaceName::GenericRGB, r, g, b, a };
    env.objc.alloc_object(HostObject::Color(host))
}

/// The components of a color.
pub fn to_rgba(objc: &ObjC, color: CGColorRef) -> (r: RGBA)
    requires
        is_color(objc, color),
    ensures
        r == rgba_of(objc, color),
{
    match objc.host(color) {
        HostObject::Color(c) => (c.r, c.g, c.b, c.a),
        _ => vstd::pervasive::unreached(),
    }
}

/// Reading back a color just made by `from_rgba` gives its components,
/// bit for bit; the color is a new object, after every object there was.
pub proof fn law_to_rgba_of_from_rgba(o0: ObjC, o1: ObjC, rgba: RGBA)
    requires
        o0.objects@.len() < u32::MAX,
        o1.objects@ == o0.objects@.push(Some(Object {
            retain_count: 1,
            is_static: false,
            host: HostObject::Color(CGColorHostObject {
                color_space_name: CGColorSpaceName::GenericRGB,
                r: rgba.0,
                g: rgba.1,
                b: rgba.2,
                a: rgba.3,
            }),
        })),
    ensures
        ({
            let c = (o0.objects@.len() + 1) as id;
            &&& is_color(&o1, c)
            &&& rgba_of(&o1, c) == rgba
            &&& !o0.live(c)
        }),
{
}

/// `CGColorRelease`: releases the color unless it is null.
pub fn CGColorRelease(env: &mut Environment, c: CGColorRef)
    requires
        old(env).wf(),
    ensures
        only_objc_changed(old(env), final(env)),
        released(old(env).objc.objects@, final(env).objc.objects@, c),
{
    if c != nil {
        env.objc.release(c);
    }
}

/// `CGColorRetain`: retains the color unless it is null, and returns it.
pub fn CGColorRetain(env: &mut Environment, c: CGColorRef) -> (r: CGColorRef)
    requires
        old(env).wf(),
        c != nil ==> old(env).objc.live(c) && old(env).objc.can_retain(c),
    ensures
        only_objc_changed(old(env), final(env)),
        r == c,
        final(env).objc.objects@ == retained(old(env).objc.objects@, c),
{
    if c != nil {
        env.objc.retain(c)
    } else {
        c
    }
}

/// `CGColorCreateGenericRGB`: a new color with these components.
pub fn CGColorCreateGenericRGB(
    env: &mut Environment,
    r: CGFloatBits,
    g: CGFloatBits,
    b: CGFloatBits,
    a: CGFloatBits,
) -> (c: CGColorRef)
    requires
        old(env).wf(),
        old(env).objc.has_room(),
    ensures
        only_objc_changed(old(env), final(env)),
        c == old(env).objc.objects@.len() + 1,
        is_color(&final(env).objc, c),
        rgba_of(&final(env).objc, c) == (r, g, b, a),
        final(env).objc.objects@.take(old(env).objc.objects@.len() as int) == old(env).objc.objects@,
{
    let c = from_rgba(env, (r, g, b, a));
    assert(env.objc.objects@.take(old(env).objc.objects@.len() as int) =~= old(env).objc.objects@);
    c
}

/// `CGColorGetComponents`: a fresh guest buffer holding red, green, blue
/// and alpha, one after another.
pub fn CGColorGetComponents(env: &mut Environment, color: CGColorRef) -> (r: u32)
    requires
        old(env).wf(),
        is_color(&old(env).objc, color),
        old(env).mem.heap_top() + 16 <= old(env).mem@.len(),
    ensures
        only_mem_and_heap_changed(old(env), final(env)),
        final(env).objc.objects@ == old(env).objc.objects@,
        final(env).framework_state == old(env).framework_state,
        r == old(env).mem.heap_top(),
        final(env).mem.heap_top() == old(env).mem.heap_top() + 16,
        ({
            let (cr, cg, cb, ca) = rgba_of(&old(env).objc, color);
            final(env).mem@ == put_words(old(env).mem@, r as int, seq![cr, cg, cb, ca])
        }),
{
    let (cr, cg, cb, ca) = to_rgba(&env.objc, color);
    let ptr = env.mem.allocate(16);
    let words: Vec<u32> = vec![cr, cg, cb, ca];
    env.mem.write_words(ptr, words.as_slice());
    ptr
}

/// `CGColorGetNumberOfComponents`: four, as every color is RGBA.
pub fn CGColorGetNumberOfComponents(env: &mut Environment, color: CGColorRef) -> (r: u32)
    ensures
        *final(env) == *old(env),
        r == 4,
{
    4
}

/// `CGColorGetAlpha`: the alpha component, 0.0 for null.
pub fn CGColorGetAlpha(env: &mut Environment, color: CGColorRef) -> (r: CGFloatBits)
    requires
        color == nil || is_color(&old(env).objc, color),
    ensures
        *final(env) == *old(env),
        r == if color == nil { ZERO_BITS } else { rgba_of(&old(env).objc, color).3 },
{
    if color == nil {
        return ZERO_BITS;
    }
    to_rgba(&env.objc, color).3
}

/// `CGColorEqualToColor`: the same color, or two colors in the same color
/// space whose components are equal as floats; null equals only null.
pub fn CGColorEqualToColor(env: &mut Environment, c1: CGColorRef, c2: CGColorRef) -> (r: bool)
    requires
        c1 == nil || is_color(&old(env).objc, c1),
        c2 == nil || is_color(&old(env).objc, c2),
    ensures
        *final(env) == *old(env),
        r == (c1 == c2 || (c1 != nil && c2 != nil && {
            let (r1, g1, b1, a1) = rgba_of(&old(env).objc, c1);
            let (r2, g2, b2, a2) = rgba_of(&old(env).objc, c2);
            f32_eq(r1, r2) && f32_eq(g1, g2) && f32_eq(b1, b2) && f32_eq(a1, a2)
        })),
{
    if c1 == c2 {
        return true;
    }
    if c1 == nil || c2 == nil {
        return false;
    }
    let (r1, g1, b1, a1) = to_rgba(&env.objc, c1);
    let (r2, g2, b2, a2) = to_rgba(&env.objc, c2);
    float_eq(r1, r2) && float_eq(g1, g2) && float_eq(b1, b2) && float_eq(a1, a2)
}

/// `"kCGColorWhite"`.
pub open spec fn white_name() -> Seq<u8> {
    seq![107u8, 67, 71, 67, 111, 108, 111, 114, 87, 104, 105, 116, 101]
}

/// `"kCGColorBlack"`.
pub open spec fn black_name() -> Seq<u8> {
    seq![107u8, 67, 71, 67, 111, 108, 111, 114, 66, 108, 97, 99, 107]
}

/// `"kCGColorClear"`.
pub open spec fn clear_name() -> Seq<u8> {
    seq![107u8, 67, 71, 67, 111, 108, 111, 114, 67, 108, 101, 97, 114]
}

/// The components of the constant color called `name`, if there is one.
pub open spec fn constant_color(name: Seq<u8>) -> Option<RGBA> {
    if name == white_name() {
        Some((ONE_BITS, ONE_BITS, ONE_BITS, ONE_BITS))
    } else if name == black_name() {
        Some((ZERO_BITS, ZERO_BITS, ZERO_BITS, ONE_BITS))
    } else if name == clear_name() {
        Some((ZERO_BITS, ZERO_BITS, ZERO_BITS, ZERO_BITS))
    } else {
        None
    }
}

/// `CGColorGetConstantColor`: a new color for `kCGColorWhite`,
/// `kCGColorBlack` or `kCGColorClear`; null for any other name or null.
pub fn CGColorGetConstantColor(env: &mut Environment, name: id) -> (r: CGColorRef)
    requires
        old(env).wf(),
        name == nil || is_string(&old(env).objc, name),
        old(env).objc.has_room(),
    ensures
        only_objc_changed(old(env), final(env)),
        name == nil ==> r == nil && *final(env) == *old(env),
        name != nil ==> match constant_color(string_of(&old(env).objc, name)) {
            None => r == nil && *final(env) == *old(env),
            Some(rgba) => {
                &&& r == old(env).objc.objects@.len() + 1
                &&& is_color(&final(env).objc, r)
                &&& rgba_of(&final(env).objc, r) == rgba
                &&& final(env).objc.objects@.take(old(env).objc.objects@.len() as int) == old(env).objc.objects@
            },
        },
{
    if name == nil {
        return nil;
    }
    let n = to_rust_string(&env.objc, name);
    let white: Vec<u8> = vec![107u8, 67, 71, 67, 111, 108, 111, 114, 87, 104, 105, 116, 101];
    let black: Vec<u8> = vec![107u8, 67, 71, 67, 111, 108, 111, 114, 66, 108, 97, 99, 107];
    let clear: Vec<u8> = vec![107u8, 67, 71, 67, 111, 108, 111, 114, 67, 108, 101, 97, 114];
    let rgba = if bytes_equal(n.as_slice(), white.as_slice()) {
        (ONE_BITS, ONE_BITS, ONE_BITS, ONE_BITS)
    } else if bytes_equal(n.as_slice(), black.as_slice()) {
        (ZERO_BITS, ZERO_BITS, ZERO_BITS, ONE_BITS)
    } else if bytes_equal(n.as_slice(), clear.as_slice()) {
        (ZERO_BITS, ZERO_BITS, ZERO_BITS, ZERO_BITS)
    } else {
        return nil;
    };
    let c = from_rgba(env, rgba);
    assert(env.objc.objects@.take(old(env).objc.objects@.len() as int) =~= old(env).objc.objects@);
    c
}

} // verus!

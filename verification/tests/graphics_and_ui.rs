use touchhle::environment::Environment;
use touchhle::objc::nil;
use touchhle::image::Image;
use touchhle::frameworks::foundation::{from_rust_string, get_static_str};
use touchhle::frameworks::core_foundation::cf_type::CFGetRetainCount;
use touchhle::frameworks::core_graphics::{CGPoint, CGAffineTransform, ONE_BITS, ZERO_BITS};
use touchhle::frameworks::core_graphics::cg_color::{
    from_rgba, to_rgba, CGColorRetain, CGColorRelease, CGColorCreateGenericRGB, CGColorGetComponents,
    CGColorGetAlpha, CGColorEqualToColor, CGColorGetConstantColor, CGColorGetNumberOfComponents, float_eq,
};
use touchhle::frameworks::core_graphics::cg_context::{
    new_bitmap_context, CGBitmapContextData, CGContextSetRGBFillColor, CGContextSetGrayFillColor,
    CGContextGetCTM, CGContextSaveGState, CGContextRestoreGState, CGContextRetain, CGContextRelease, set_ctm,
};
use touchhle::frameworks::core_graphics::cg_image::{
    from_image, borrow_image, borrow_image_mut, CGImageGetWidth, CGImageGetHeight, CGImageGetBytesPerRow,
    CGImageCreateCopy, CGImageCreateWithMask, CGImageCreate, CGImageRetain, CGImageRelease,
    kCGColorSpaceModelRGB,
};
use touchhle::frameworks::core_graphics::cg_path::{
    CGPathCreateMutable, CGPathAddLines, CGPathAddRect, CGPathCloseSubpath, CGPathCreateCopy, CGPathRetain,
    CGPathRelease, PathElement,
};
use touchhle::frameworks::uikit::ui_action_sheet;
use touchhle::frameworks::uikit::ui_navigation_bar;
use touchhle::frameworks::audio_toolbox::audio_services::{
    AudioServicesCreateSystemSoundID, AudioServicesGetProperty, kAudioServicesUnsupportedPropertyError,
};
use touchhle::objc::HostObject;

fn env() -> Environment {
    Environment::new(0x10000)
}

fn bits(x: f32) -> u32 {
    x.to_bits()
}

#[test]
fn colors_keep_their_components() {
    let mut e = env();
    let c = CGColorCreateGenericRGB(&mut e, bits(0.25), bits(0.5), bits(0.75), bits(1.0));
    assert_eq!(to_rgba(&e.objc, c), (bits(0.25), bits(0.5), bits(0.75), bits(1.0)));
    assert_eq!(CGColorGetAlpha(&mut e, c), bits(1.0));
    assert_eq!(CGColorGetAlpha(&mut e, nil), 0);
    assert_eq!(CGColorGetNumberOfComponents(&mut e, c), 4);
    let p = CGColorGetComponents(&mut e, c);
    assert_eq!(f32::from_bits(e.mem.read_u32(p + 8)), 0.75);
}

#[test]
fn color_equality_is_float_equality() {
    let mut e = env();
    let a = from_rgba(&mut e, (bits(0.0), bits(1.0), bits(0.0), bits(1.0)));
    let b = from_rgba(&mut e, (bits(-0.0), bits(1.0), bits(0.0), bits(1.0)));
    let n = from_rgba(&mut e, (bits(f32::NAN), bits(1.0), bits(0.0), bits(1.0)));
    assert!(CGColorEqualToColor(&mut e, a, b));
    let n2 = from_rgba(&mut e, (bits(f32::NAN), bits(1.0), bits(0.0), bits(1.0)));
    assert!(!CGColorEqualToColor(&mut e, n, n2));
    assert!(CGColorEqualToColor(&mut e, n, n));
    assert!(!CGColorEqualToColor(&mut e, a, n));
    assert!(!CGColorEqualToColor(&mut e, a, nil));
    assert!(CGColorEqualToColor(&mut e, nil, nil));
    assert!(float_eq(bits(0.0), bits(-0.0)));
    assert!(!float_eq(bits(f32::NAN), bits(f32::NAN)));
}

#[test]
fn constant_colors() {
    let mut e = env();
    let white = get_static_str(&mut e.objc, b"kCGColorWhite");
    let c = CGColorGetConstantColor(&mut e, white);
    assert_eq!(to_rgba(&e.objc, c), (ONE_BITS, ONE_BITS, ONE_BITS, ONE_BITS));
    let clear = get_static_str(&mut e.objc, b"kCGColorClear");
    let c = CGColorGetConstantColor(&mut e, clear);
    assert_eq!(to_rgba(&e.objc, c), (ZERO_BITS, ZERO_BITS, ZERO_BITS, ZERO_BITS));
    let other = get_static_str(&mut e.objc, b"kCGColorRed");
    assert_eq!(CGColorGetConstantColor(&mut e, other), nil);
    assert_eq!(CGColorGetConstantColor(&mut e, nil), nil);
}

#[test]
fn color_retain_release() {
    let mut e = env();
    let c = from_rgba(&mut e, (0, 0, 0, 0));
    assert_eq!(CGColorRetain(&mut e, c), c);
    assert_eq!(CFGetRetainCount(&mut e, c), 2);
    CGColorRelease(&mut e, c);
    CGColorRelease(&mut e, c);
    assert!(!e.objc.is_live(c));
    assert_eq!(CGColorRetain(&mut e, nil), nil);
    CGColorRelease(&mut e, nil);
}

fn context(e: &mut Environment) -> u32 {
    new_bitmap_context(e, CGBitmapContextData { data: 0, data_is_owned: false, width: 4, height: 4 })
}

#[test]
fn save_then_restore_gives_back_the_state() {
    let mut e = env();
    let ctx = context(&mut e);
    CGContextSetRGBFillColor(&mut e, ctx, bits(1.0), bits(0.0), bits(0.0), bits(1.0));
    let t0 = CGContextGetCTM(&mut e, ctx);
    assert_eq!((t0.a, t0.d), (ONE_BITS, ONE_BITS));
    CGContextSaveGState(&mut e, ctx);
    CGContextSetGrayFillColor(&mut e, ctx, bits(0.5), bits(0.5));
    set_ctm(&mut e, ctx, CGAffineTransform { a: bits(2.0), b: 0, c: 0, d: bits(2.0), tx: 0, ty: 0 });
    assert_eq!(CGContextGetCTM(&mut e, ctx).a, bits(2.0));
    CGContextRestoreGState(&mut e, ctx);
    assert_eq!(CGContextGetCTM(&mut e, ctx).a, ONE_BITS);
    match e.objc.host(ctx) {
        HostObject::Context(c) => {
            assert_eq!(c.rgb_fill_color, (bits(1.0), bits(0.0), bits(0.0), bits(1.0)));
            assert!(c.state_stack.is_empty());
        },
        _ => panic!("not a context"),
    }
    assert_eq!(CGContextRetain(&mut e, ctx), ctx);
    CGContextRelease(&mut e, ctx);
    assert!(e.objc.is_live(ctx));
}

fn image(w: u32, h: u32, fill: u8) -> Image {
    Image::from_pixel_vec(vec![fill; (4 * w * h) as usize], (w, h))
}

#[test]
fn image_dimensions_and_copies() {
    let mut e = env();
    let img = from_image(&mut e, image(3, 2, 7));
    assert_eq!(CGImageGetWidth(&mut e, img), 3);
    assert_eq!(CGImageGetHeight(&mut e, img), 2);
    assert_eq!(CGImageGetBytesPerRow(&mut e, img), 12);
    let copy = CGImageCreateCopy(&mut e, img);
    assert_ne!(copy, img);
    assert_eq!(borrow_image(&e.objc, copy).pixels, vec![7u8; 24]);
    borrow_image_mut(&mut e.objc, img).pixels[0] = 1;
    assert_eq!(borrow_image(&e.objc, img).pixels[0], 1);
    assert_eq!(borrow_image(&e.objc, copy).pixels[0], 7);
    assert_eq!(CGImageCreateCopy(&mut e, nil), nil);
    assert_eq!(CGImageRetain(&mut e, img), img);
    CGImageRelease(&mut e, img);
    assert!(e.objc.is_live(img));
}

#[test]
fn masking_scales_alpha() {
    let mut e = env();
    let src = from_image(&mut e, Image::from_pixel_vec(vec![10, 20, 30, 200, 1, 2, 3, 255], (2, 1)));
    let mask = from_image(&mut e, Image::from_pixel_vec(vec![0, 0, 0, 128, 0, 0, 0, 0], (2, 1)));
    let out = CGImageCreateWithMask(&mut e, src, mask);
    assert_eq!(borrow_image(&e.objc, out).pixels, vec![10, 20, 30, 100, 1, 2, 3, 0]);
    let other = from_image(&mut e, image(1, 1, 0));
    assert_eq!(CGImageCreateWithMask(&mut e, src, other), nil);
    assert_eq!(CGImageCreateWithMask(&mut e, nil, mask), nil);
}

#[test]
fn image_from_rows_of_a_provider() {
    let mut e = env();
    let data: Vec<u8> = (0u8..24).collect();
    let img = CGImageCreate(&mut e, 2, 2, 8, 32, 12, kCGColorSpaceModelRGB, 0, &data, 0, true, 0);
    assert_eq!(borrow_image(&e.objc, img).pixels, vec![0, 1, 2, 3, 4, 5, 6, 7, 12, 13, 14, 15, 16, 17, 18, 19]);
    assert_eq!(CGImageCreate(&mut e, 2, 2, 16, 32, 12, kCGColorSpaceModelRGB, 0, &data, 0, true, 0), nil);
    assert_eq!(CGImageCreate(&mut e, 2, 2, 8, 32, 12, 0, 0, &data, 0, true, 0), nil);
    assert_eq!(CGImageCreate(&mut e, 2, 3, 8, 32, 12, kCGColorSpaceModelRGB, 0, &data, 0, true, 0), nil);
    assert_eq!(CGImageCreate(&mut e, 4, 2, 8, 32, 12, kCGColorSpaceModelRGB, 0, &data, 0, true, 0), nil);
}

fn pt(x: f32, y: f32) -> CGPoint {
    CGPoint { x: bits(x), y: bits(y) }
}

#[test]
fn paths_collect_their_steps() {
    let mut e = env();
    let p = CGPathCreateMutable(&mut e);
    CGPathAddLines(&mut e, p, vec![pt(0.0, 0.0), pt(1.0, 0.0), pt(1.0, 1.0)]);
    CGPathCloseSubpath(&mut e, p);
    CGPathAddRect(&mut e, p, (pt(0.0, 0.0), pt(2.0, 0.0), pt(2.0, 2.0), pt(0.0, 2.0)));
    let copy = CGPathCreateCopy(&mut e, p);
    match e.objc.host(copy) {
        HostObject::Path(h) => {
            assert_eq!(h.elements.len(), 9);
            assert!(matches!(h.elements[0], PathElement::MoveTo(_)));
            assert!(matches!(h.elements[2], PathElement::LineTo(_)));
            assert!(matches!(h.elements[3], PathElement::CloseSubpath));
            assert!(matches!(h.elements[8], PathElement::CloseSubpath));
        },
        _ => panic!("not a path"),
    }
    CGPathAddLines(&mut e, p, vec![]);
    CGPathCloseSubpath(&mut e, nil);
    assert_eq!(CGPathRetain(&mut e, p), p);
    CGPathRelease(&mut e, p);
    assert!(e.objc.is_live(p));
    assert_eq!(CGPathCreateCopy(&mut e, nil), nil);
}

#[test]
fn action_sheet_buttons() {
    let mut e = env();
    let sheet = ui_action_sheet::allocWithZone(&mut e);
    let title = from_rust_string(&mut e.objc, b"Title".to_vec());
    let cancel = from_rust_string(&mut e.objc, b"Cancel".to_vec());
    let destroy = from_rust_string(&mut e.objc, b"Delete".to_vec());
    assert_eq!(ui_action_sheet::initWithTitle(&mut e, sheet, title, nil, cancel, destroy, nil), sheet);
    assert_eq!(ui_action_sheet::numberOfButtons(&mut e, sheet), 2);
    assert_eq!(ui_action_sheet::buttonTitleAtIndex(&mut e, sheet, 0), destroy);
    assert_eq!(ui_action_sheet::buttonTitleAtIndex(&mut e, sheet, 1), cancel);
    let other = from_rust_string(&mut e.objc, b"Other".to_vec());
    assert_eq!(ui_action_sheet::addButtonWithTitle(&mut e, sheet, other), 2);
    assert_eq!(ui_action_sheet::addButtonWithTitle(&mut e, sheet, nil), -1);
    assert_eq!(ui_action_sheet::buttonTitleAtIndex(&mut e, sheet, 5), nil);
    assert_eq!(ui_action_sheet::buttonTitleAtIndex(&mut e, sheet, -1), nil);
    assert_eq!(CFGetRetainCount(&mut e, title), 2);
    touchhle::frameworks::core_foundation::cf_type::CFRelease(&mut e, sheet);
    assert!(!e.objc.is_live(sheet));
    assert_eq!(CFGetRetainCount(&mut e, title), 1);
    assert_eq!(CFGetRetainCount(&mut e, other), 1);
}

#[test]
fn navigation_bar_push_pop_and_fields() {
    let mut e = env();
    let bar = ui_navigation_bar::allocWithZone(&mut e);
    assert_eq!(ui_navigation_bar::init(&mut e, bar), bar);
    assert!(ui_navigation_bar::isTranslucent(&mut e, bar));
    let a = e.objc.alloc_object(HostObject::Plain);
    let b = e.objc.alloc_object(HostObject::Plain);
    ui_navigation_bar::pushNavigationItem(&mut e, bar, a, false);
    ui_navigation_bar::pushNavigationItem(&mut e, bar, b, false);
    assert_eq!(ui_navigation_bar::topItem(&mut e, bar), b);
    assert_eq!(ui_navigation_bar::backItem(&mut e, bar), a);
    assert_eq!(ui_navigation_bar::popNavigationItemAnimated(&mut e, bar, false), b);
    assert_eq!(ui_navigation_bar::topItem(&mut e, bar), a);
    assert_eq!(ui_navigation_bar::backItem(&mut e, bar), nil);
    let d = e.objc.alloc_object(HostObject::Plain);
    ui_navigation_bar::setDelegate(&mut e, bar, d);
    assert_eq!(ui_navigation_bar::delegate(&mut e, bar), d);
    assert_eq!(CFGetRetainCount(&mut e, d), 2);
    ui_navigation_bar::setDelegate(&mut e, bar, nil);
    assert_eq!(CFGetRetainCount(&mut e, d), 1);
    ui_navigation_bar::setTranslucent(&mut e, bar, false);
    assert!(!ui_navigation_bar::isTranslucent(&mut e, bar));
    ui_navigation_bar::setItems(&mut e, bar, nil, false);
    assert_eq!(ui_navigation_bar::topItem(&mut e, bar), nil);
    assert_eq!(CFGetRetainCount(&mut e, a), 1);
    assert_eq!(ui_navigation_bar::popNavigationItemAnimated(&mut e, bar, false), nil);
}

#[test]
fn system_sound_ids_count_up() {
    let mut e = env();
    let out = e.mem.allocate(4);
    assert_eq!(AudioServicesCreateSystemSoundID(&mut e, 0, out), 0);
    assert_eq!(e.mem.read_u32(out), 1);
    assert_eq!(AudioServicesCreateSystemSoundID(&mut e, 0, out), 0);
    assert_eq!(e.mem.read_u32(out), 2);
    assert_eq!(AudioServicesCreateSystemSoundID(&mut e, 0, 0), kAudioServicesUnsupportedPropertyError);
    assert_eq!(AudioServicesGetProperty(&mut e, 0xfff, 0, 0, 0, 0), kAudioServicesUnsupportedPropertyError);
}

//! `CGContext.h`: the graphics state of a context.
//!
//! What is kept here is the state itself: its fill color and transform,
//! and the stack `CGContextSaveGState` and `CGContextRestoreGState` work
//! on. The transform arithmetic works on floats and is done by the caller.
//! Drawing (`CGContextFillRect`, `CGContextClearRect`, `CGContextDrawImage`)
//! belongs to the bitmap-context renderer, which this crate does not
//! provide.

use vstd::prelude::*;
use super::{CGFloatBits, CGAffineTransform, ZERO_BITS, ONE_BITS, identity_transform};
use crate::objc::{id, nil, ObjC, HostObject, Object, retained, released};
use crate::environment::{Environment, only_objc_changed};

verus! {

/// The pixel buffer of a bitmap context.
#[derive(Clone, Copy)]
pub struct CGBitmapContextData {
    /// Guest address of the pixels.
    pub data: u32,
    /// Whether the context allocated the pixels itself.
    pub data_is_owned: bool,
    pub width: u32,
    pub height: u32,
}

/// The kinds of context.
#[derive(Clone, Copy)]
pub enum CGContextSubclass {
    CGBitmapContext(CGBitmapContextData),
}

/// An RGBA color, each component by its bit pattern.
pub type RGBABits = (CGFloatBits, CGFloatBits, CGFloatBits, CGFloatBits);

/// A drawing context and its graphics state.
pub struct CGContextHostObject {
    pub subclass: CGContextSubclass,
    pub rgb_fill_color: RGBABits,
    /// Current transform.
    pub transform: CGAffineTransform,
    /// The states saved by `CGContextSaveGState`, last on top.
    pub state_stack: Vec<(RGBABits, CGAffineTransform)>,
}

pub type CGContextRef = id;

/// `o` is a live context in the store `s`.
pub open spec fn is_context_in(s: Seq<Option<Object>>, o: id) -> bool {
    1 <= o <= s.len() && s[o - 1] is Some && s[o - 1]->0.host is Context
}

/// The host data of the context `o` in the store `s`.
pub open spec fn context_in(s: Seq<Option<Object>>, o: id) -> CGContextHostObject {
    s[o - 1]->0.host->Context_0
}

/// `o` is a live context.
pub open spec fn is_context(objc: &ObjC, o: id) -> bool {
    is_context_in(objc.objects@, o)
}

/// The fill color of the context `o`.
pub open spec fn fill_of(objc: &ObjC, o: id) -> RGBABits {
    context_in(objc.objects@, o).rgb_fill_color
}

/// The current transform of the context `o`.
pub open spec fn ctm_of(objc: &ObjC, o: id) -> CGAffineTransform {
    context_in(objc.objects@, o).transform
}

/// The saved states of the context `o`, last on top.
pub open spec fn stack_of(objc: &ObjC, o: id) -> Seq<(RGBABits, CGAffineTransform)> {
    context_in(objc.objects@, o).state_stack@
}

/// `s1` is `s0` with the graphics state of the context `o` set to fill
/// color `fill`, transform `t` and saved states `stack`, nothing else
/// changed.
pub open spec fn context_updated(
    s0: Seq<Option<Object>>,
    s1: Seq<Option<Object>>,
    o: id,
    fill: RGBABits,
    t: CGAffineTransform,
    stack: Seq<(RGBABits, CGAffineTransform)>,
) -> bool {
    &&& s1.len() == s0.len()
    &&& is_context_in(s0, o)
    &&& is_context_in(s1, o)
    &&& s1[o - 1]->0.retain_count == s0[o - 1]->0.retain_count
    &&& s1[o - 1]->0.is_static == s0[o - 1]->0.is_static
    &&& context_in(s1, o).subclass == context_in(s0, o).subclass
    &&& context_in(s1, o).rgb_fill_color == fill
    &&& context_in(s1, o).transform == t
    &&& context_in(s1, o).state_stack@ == stack
    &&& forall|i: int| 0 <= i < s1.len() && i != o - 1 ==> #[trigger] s1[i] == s0[i]
}

/// Replaces the graphics state of a context.
fn set_state(
    objc: &mut ObjC,
    o: id,
    fill: RGBABits,
    t: CGAffineTransform,
    stack: Vec<(RGBABits, CGAffineTransform)>,
)
    requires
        is_context(old(objc), o),
    ensures
        context_updated(old(objc).objects@, final(objc).objects@, o, fill, t, stack@),
{
    let h = objc.replace_host(o, HostObject::Plain);
    match h {
        HostObject::Context(c) => {
            objc.replace_host(o, HostObject::Context(CGContextHostObject {
                subclass: c.subclass,
                rgb_fill_color: fill,
                transform: t,
                state_stack: stack,
            }));
        },
        _ => vstd::pervasive::unreached(),
    }
}

/// The graphics state of a context, its stack copied.
fn get_state(objc: &ObjC, o: id) -> (r: (RGBABits, CGAffineTransform, Vec<(RGBABits, CGAffineTransform)>))
    requires
        is_context(objc, o),
    ensures
        r.0 == fill_of(objc, o),
        r.1 == ctm_of(objc, o),
        r.2@ == stack_of(objc, o),
{
    match objc.host(o) {
        HostObject::Context(c) => {
            let mut stack: Vec<(RGBABits, CGAffineTransform)> = Vec::new();
            let mut i: usize = 0;
            while i < c.state_stack.len()
                invariant
                    i <= c.state_stack@.len(),
                    stack@ == c.state_stack@.take(i as int),
                decreases c.state_stack@.len() - i,
            {
                stack.push(c.state_stack[i]);
                i = i + 1;
                assert(stack@ =~= c.state_stack@.take(i as int));
            }
            assert(c.state_stack@.take(c.state_stack@.len() as int) =~= c.state_stack@);
            (c.rgb_fill_color, c.transform, stack)
        },
        _ => vstd::pervasive::unreached(),
    }
}

/// A new bitmap context over `bitmap`, in the state a bitmap context
/// starts in: opaque black fill, identity transform, nothing saved.
pub fn new_bitmap_context(env: &mut Environment, bitmap: CGBitmapContextData) -> (r: CGContextRef)
    requires
        old(env).wf(),
        old(env).objc.has_room(),
    ensures
        only_objc_changed(old(env), final(env)),
        r == old(env).objc.objects@.len() + 1,
        final(env).objc.objects@.len() == old(env).objc.objects@.len() + 1,
        final(env).objc.objects@.take(old(env).objc.objects@.len() as int) == old(env).objc.objects@,
        is_context(&final(env).objc, r),
        final(env).objc.obj(r).retain_count == 1,
        !final(env).objc.obj(r).is_static,
        context_in(final(env).objc.objects@, r).subclass == CGContextSubclass::CGBitmapContext(bitmap),
        fill_of(&final(env).objc, r) == (ZERO_BITS, ZERO_BITS, ZERO_BITS, ONE_BITS),
        ctm_of(&final(env).objc, r) == identity_transform(),
        stack_of(&final(env).objc, r) == Seq::<(RGBABits, CGAffineTransform)>::empty(),
{
    let t = CGAffineTransform { a: ONE_BITS, b: ZERO_BITS, c: ZERO_BITS, d: ONE_BITS, tx: ZERO_BITS, ty: ZERO_BITS };
    let stack: Vec<(RGBABits, CGAffineTransform)> = Vec::new();
    let r = env.objc.alloc_object(HostObject::Context(CGContextHostObject {
        subclass: CGContextSubclass::CGBitmapContext(bitmap),
        rgb_fill_color: (ZERO_BITS, ZERO_BITS, ZERO_BITS, ONE_BITS),
        transform: t,
        state_stack: stack,
    }));
    assert(env.objc.objects@.take(old(env).objc.objects@.len() as int) =~= old(env).objc.objects@);
    assert(stack_of(&env.objc, r) =~= Seq::<(RGBABits, CGAffineTransform)>::empty());
    r
}

/// `CGContextRelease`: releases the context unless it is null.
pub fn CGContextRelease(env: &mut Environment, c: CGContextRef)
    requires
        old(env).wf(),
    ensures
        only_objc_changed(old(env), final(env)),
        released(old(env).objc.objects@, final(env).objc.objects@, c),
{
    if c != nil {
        env.objc.release(c);
    }
}

/// `CGContextRetain`: retains the context unless it is null, and returns
/// it.
pub fn CGContextRetain(env: &mut Environment, c: CGContextRef) -> (r: CGContextRef)
    requires
        old(env).wf(),
        c != nil ==> old(env).objc.live(c) && old(env).objc.can_retain(c),
    ensures
        only_objc_changed(old(env), final(env)),
        r == c,
        final(env).objc.objects@ == retained(old(env).objc.objects@, c),
{
    if c != nil {
        env.objc.retain(c)
    } else {
        c
    }
}

/// `CGContextSetRGBFillColor`: the fill color becomes these components.
pub fn CGContextSetRGBFillColor(
    env: &mut Environment,
    context: CGContextRef,
    red: CGFloatBits,
    green: CGFloatBits,
    blue: CGFloatBits,
    alpha: CGFloatBits,
)
    requires
        old(env).wf(),
        is_context(&old(env).objc, context),
    ensures
        only_objc_changed(old(env), final(env)),
        context_updated(old(env).objc.objects@, final(env).objc.objects@, context,
            (red, green, blue, alpha), ctm_of(&old(env).objc, context), stack_of(&old(env).objc, context)),
{
    let (_, t, stack) = get_state(&env.objc, context);
    set_state(&mut env.objc, context, (red, green, blue, alpha), t, stack);
}

/// `CGContextSetGrayFillColor`: the fill color becomes the gray level in
/// each of red, green and blue, with this alpha.
pub fn CGContextSetGrayFillColor(env: &mut Environment, context: CGContextRef, gray: CGFloatBits, alpha: CGFloatBits)
    requires
        old(env).wf(),
        is_context(&old(env).objc, context),
    ensures
        only_objc_changed(old(env), final(env)),
        context_updated(old(env).objc.objects@, final(env).objc.objects@, context,
            (gray, gray, gray, alpha), ctm_of(&old(env).objc, context), stack_of(&old(env).objc, context)),
{
    let (_, t, stack) = get_state(&env.objc, context);
    set_state(&mut env.objc, context, (gray, gray, gray, alpha), t, stack);
}

/// `CGContextGetCTM`: the current transform.
pub fn CGContextGetCTM(env: &mut Environment, context: CGContextRef) -> (r: CGAffineTransform)
    requires
        is_context(&old(env).objc, context),
    ensures
        *final(env) == *old(env),
        r == ctm_of(&old(env).objc, context),
{
    get_state(&env.objc, context).1
}

/// Sets the current transform to `t`, which the caller computed from the
/// old one (`CGContextConcatCTM`, `CGContextRotateCTM`, `CGContextScaleCTM`
/// and `CGContextTranslateCTM` do their float arithmetic outside).
pub fn set_ctm(env: &mut Environment, context: CGContextRef, t: CGAffineTransform)
    requires
        old(env).wf(),
        is_context(&old(env).objc, context),
    ensures
        only_objc_changed(old(env), final(env)),
        context_updated(old(env).objc.objects@, final(env).objc.objects@, context,
            fill_of(&old(env).objc, context), t, stack_of(&old(env).objc, context)),
{
    let (fill, _, stack) = get_state(&env.objc, context);
    set_state(&mut env.objc, context, fill, t, stack);
}

/// `CGContextSaveGState`: pushes the fill color and transform.
pub fn CGContextSaveGState(env: &mut Environment, context: CGContextRef)
    requires
        old(env).wf(),
        is_context(&old(env).objc, context),
    ensures
        only_objc_changed(old(env), final(env)),
        context_updated(old(env).objc.objects@, final(env).objc.objects@, context,
            fill_of(&old(env).objc, context), ctm_of(&old(env).objc, context),
            stack_of(&old(env).objc, context).push((fill_of(&old(env).objc, context), ctm_of(&old(env).objc, context)))),
{
    let (fill, t, mut stack) = get_state(&env.objc, context);
    stack.push((fill, t));
    set_state(&mut env.objc, context, fill, t, stack);
}

/// `CGContextRestoreGState`: pops the last saved fill color and
/// transform back into place. There must be a saved state.
pub fn CGContextRestoreGState(env: &mut Environment, context: CGContextRef)
    requires
        old(env).wf(),
        is_context(&old(env).objc, context),
        stack_of(&old(env).objc, context).len() > 0,
    ensures
        only_objc_changed(old(env), final(env)),
        ({
            let stack = stack_of(&old(env).objc, context);
            context_updated(old(env).objc.objects@, final(env).objc.objects@, context,
                stack.last().0, stack.last().1, stack.drop_last())
        }),
{
    let (_, _, mut stack) = get_state(&env.objc, context);
    let state = stack.pop().unwrap();
    set_state(&mut env.objc, context, state.0, state.1, stack);
}

/// `CGContextRestoreGState` right after `CGContextSaveGState` gives back
/// the context's fill color, transform and saved states as they were, and
/// leaves every other object as it was.
pub proof fn law_save_then_restore(
    s0: Seq<Option<Object>>,
    s1: Seq<Option<Object>>,
    s2: Seq<Option<Object>>,
    c: id,
)
    requires
        is_context_in(s0, c),
        context_updated(s0, s1, c, context_in(s0, c).rgb_fill_color, context_in(s0, c).transform,
            context_in(s0, c).state_stack@.push((context_in(s0, c).rgb_fill_color, context_in(s0, c).transform))),
        context_updated(s1, s2, c, context_in(s1, c).state_stack@.last().0, context_in(s1, c).state_stack@.last().1,
            context_in(s1, c).state_stack@.drop_last()),
    ensures
        s2.len() == s0.len(),
        is_context_in(s2, c),
        s2[c - 1]->0.retain_count == s0[c - 1]->0.retain_count,
        context_in(s2, c).subclass == context_in(s0, c).subclass,
        context_in(s2, c).rgb_fill_color == context_in(s0, c).rgb_fill_color,
        context_in(s2, c).transform == context_in(s0, c).transform,
        context_in(s2, c).state_stack@ == context_in(s0, c).state_stack@,
        forall|i: int| 0 <= i < s2.len() && i != c - 1 ==> #[trigger] s2[i] == s0[i],
{
    assert(context_in(s1, c).state_stack@.drop_last() =~= context_in(s0, c).state_stack@);
    assert forall|i: int| 0 <= i < s2.len() && i != c - 1 implies #[trigger] s2[i] == s0[i] by {
        assert(s2[i] == s1[i]);
    }
}

/// The graphics state of a context: fill color, transform and the saved
/// states, last on top.
pub type GState = (RGBABits, CGAffineTransform, Seq<(RGBABits, CGAffineTransform)>);

/// A call that changes a context's graphics state.
pub enum GStateOp {
    /// `CGContextSetRGBFillColor` or `CGContextSetGrayFillColor`.
    Fill(RGBABits),
    /// `set_ctm` (behind `CGContextConcatCTM` and its kin).
    Transform(CGAffineTransform),
    /// `CGContextSaveGState`.
    Save,
    /// `CGContextRestoreGState`.
    Restore,
}

/// The graphics state of the context `c` in the store `s`.
pub open spec fn gstate_in(s: Seq<Option<Object>>, c: id) -> GState {
    (context_in(s, c).rgb_fill_color, context_in(s, c).transform, context_in(s, c).state_stack@)
}

/// The graphics state after `op`, as each call's contract states it.
pub open spec fn gstate_after(g: GState, op: GStateOp) -> GState {
    match op {
        GStateOp::Fill(f) => (f, g.1, g.2),
        GStateOp::Transform(t) => (g.0, t, g.2),
        GStateOp::Save => (g.0, g.1, g.2.push((g.0, g.1))),
        GStateOp::Restore => (g.2.last().0, g.2.last().1, g.2.drop_last()),
    }
}

/// The graphics state after each of `ops` in turn.
pub open spec fn gstate_run(g: GState, ops: Seq<GStateOp>) -> GState
    decreases ops.len(),
{
    if ops.len() == 0 { g } else { gstate_after(gstate_run(g, ops.drop_last()), ops.last()) }
}

/// Saves minus restores in `ops`.
pub open spec fn save_depth(ops: Seq<GStateOp>) -> int
    decreases ops.len(),
{
    if ops.len() == 0 {
        0
    } else {
        save_depth(ops.drop_last()) + match ops.last() {
            GStateOp::Save => 1int,
            GStateOp::Restore => -1int,
            _ => 0int,
        }
    }
}

/// No prefix of `ops` restores more states than it saved.
pub open spec fn never_below(ops: Seq<GStateOp>) -> bool
    decreases ops.len(),
{
    ops.len() == 0 || (never_below(ops.drop_last()) && save_depth(ops) >= 0)
}

/// `ops` is balanced: it restores exactly the states it saves, never one
/// it did not save.
pub open spec fn balanced(ops: Seq<GStateOp>) -> bool {
    never_below(ops) && save_depth(ops) == 0
}

/// `stores` is a run of calls `ops` on the context `c`: each call changes
/// the context's graphics state as its contract states and nothing else.
pub open spec fn context_run(stores: Seq<Seq<Option<Object>>>, ops: Seq<GStateOp>, c: id) -> bool {
    &&& stores.len() == ops.len() + 1
    &&& forall|i: int| 0 <= i < ops.len() ==> ({
        let g = gstate_after(gstate_in(#[trigger] stores[i], c), ops[i]);
        context_updated(stores[i], stores[i + 1], c, g.0, g.1, g.2)
    })
}

/// Calls that never restore more than they saved keep the states saved
/// before them, and leave `save_depth` more on top.
proof fn lemma_run_keeps_stack(g: GState, ops: Seq<GStateOp>)
    requires
        never_below(ops),
    ensures
        gstate_run(g, ops).2.len() == g.2.len() + save_depth(ops),
        forall|i: int| 0 <= i < g.2.len() ==> #[trigger] gstate_run(g, ops).2[i] == g.2[i],
    decreases ops.len(),
{
    if ops.len() > 0 {
        lemma_run_keeps_stack(g, ops.drop_last());
    }
}

/// Along a run, the state after `i` calls is the state the first `i`
/// operations give.
proof fn lemma_context_run(stores: Seq<Seq<Option<Object>>>, ops: Seq<GStateOp>, c: id, i: int)
    requires
        context_run(stores, ops, c),
        0 <= i <= ops.len(),
    ensures
        gstate_in(stores[i], c) == gstate_run(gstate_in(stores[0], c), ops.take(i)),
    decreases i,
{
    if i > 0 {
        lemma_context_run(stores, ops, c, i - 1);
        assert(ops.take(i).drop_last() =~= ops.take(i - 1));
        let g = gstate_after(gstate_in(stores[i - 1], c), ops[i - 1]);
        assert(context_updated(stores[i - 1], stores[i], c, g.0, g.1, g.2));
    } else {
        assert(ops.take(0) =~= Seq::<GStateOp>::empty());
    }
}

/// `CGContextRestoreGState` after `CGContextSaveGState` and any balanced
/// run of fill-color and transform changes and save/restore pairs in
/// between gives back the fill color, the transform and the saved states
/// the context had before the save.
pub proof fn law_restore_after_balanced_calls(
    s0: Seq<Option<Object>>,
    stores: Seq<Seq<Option<Object>>>,
    ops: Seq<GStateOp>,
    s2: Seq<Option<Object>>,
    c: id,
)
    requires
        is_context_in(s0, c),
        ({
            let g = gstate_after(gstate_in(s0, c), GStateOp::Save);
            context_updated(s0, stores[0], c, g.0, g.1, g.2)
        }),
        context_run(stores, ops, c),
        balanced(ops),
        ({
            let g = gstate_after(gstate_in(stores.last(), c), GStateOp::Restore);
            context_updated(stores.last(), s2, c, g.0, g.1, g.2)
        }),
    ensures
        gstate_in(stores.last(), c).2.len() > 0,
        context_in(s2, c).rgb_fill_color == context_in(s0, c).rgb_fill_color,
        context_in(s2, c).transform == context_in(s0, c).transform,
        context_in(s2, c).state_stack@ == context_in(s0, c).state_stack@,
{
    let g0 = gstate_in(s0, c);
    let g1 = gstate_in(stores[0], c);
    lemma_context_run(stores, ops, c, ops.len() as int);
    assert(ops.take(ops.len() as int) =~= ops);
    lemma_run_keeps_stack(g1, ops);
    let g2 = gstate_in(stores.last(), c);
    assert(g1.2 == g0.2.push((g0.0, g0.1)));
    assert(g2.2 =~= g1.2);
    assert(g2.2.drop_last() =~= g0.2);
}

} // verus!

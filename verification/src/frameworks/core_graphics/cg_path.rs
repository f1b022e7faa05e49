//! `CGPath.h`
//!
//! Transforming points is float arithmetic and is done by the caller:
//! `CGPathAddLines` and `CGPathAddRect` take the points already
//! transformed.

use vstd::prelude::*;
use super::CGPoint;
use crate::objc::{id, nil, ObjC, HostObject, Object, retained, released};
use crate::environment::{Environment, only_objc_changed};

verus! {

/// One step of a path.
#[derive(Clone, Copy)]
pub enum PathElement {
    MoveTo(CGPoint),
    LineTo(CGPoint),
    QuadCurveTo(CGPoint, CGPoint),
    CurveTo(CGPoint, CGPoint, CGPoint),
    CloseSubpath,
}

/// A path: its steps in order.
pub struct CGPathHostObject {
    pub elements: Vec<PathElement>,
}

pub type CGPathRef = id;
pub type CGMutablePathRef = id;

/// `o` is a live path in the store `s`.
pub open spec fn is_path_in(s: Seq<Option<Object>>, o: id) -> bool {
    1 <= o <= s.len() && s[o - 1] is Some && s[o - 1]->0.host is Path
}

/// The steps of the path `o` in the store `s`.
pub open spec fn elements_in(s: Seq<Option<Object>>, o: id) -> Seq<PathElement> {
    s[o - 1]->0.host->Path_0.elements@
}

/// `o` is a live path.
pub open spec fn is_path(objc: &ObjC, o: id) -> bool {
    is_path_in(objc.objects@, o)
}

/// The steps of the path `o`.
pub open spec fn elements_of(objc: &ObjC, o: id) -> Seq<PathElement> {
    elements_in(objc.objects@, o)
}

/// `s1` is `s0` with the steps of the path `o` replaced by `elements`.
pub open spec fn path_updated(s0: Seq<Option<Object>>, s1: Seq<Option<Object>>, o: id, elements: Seq<PathElement>) -> bool {
    &&& s1.len() == s0.len()
    &&& is_path_in(s0, o)
    &&& is_path_in(s1, o)
    &&& s1[o - 1]->0.retain_count == s0[o - 1]->0.retain_count
    &&& s1[o - 1]->0.is_static == s0[o - 1]->0.is_static
    &&& elements_in(s1, o) == elements
    &&& forall|i: int| 0 <= i < s1.len() && i != o - 1 ==> #[trigger] s1[i] == s0[i]
}

/// `s1` is `s0` with a new path of these steps, with one reference.
pub open spec fn new_path_in(s0: Seq<Option<Object>>, s1: Seq<Option<Object>>, elements: Seq<PathElement>) -> bool {
    let o = s0.len() as int;
    &&& s1.len() == s0.len() + 1
    &&& s1.take(o) == s0
    &&& is_path_in(s1, (o + 1) as id)
    &&& s1[o]->0.retain_count == 1
    &&& !s1[o]->0.is_static
    &&& elements_in(s1, (o + 1) as id) == elements
}

/// A copy of the steps of a path.
fn path_elements(objc: &ObjC, o: id) -> (r: Vec<PathElement>)
    requires
        is_path(objc, o),
    ensures
        r@ == elements_of(objc, o),
{
    match objc.host(o) {
        HostObject::Path(p) => {
            let mut r: Vec<PathElement> = Vec::new();
            let mut i: usize = 0;
            while i < p.elements.len()
                invariant
                    i <= p.elements@.len(),
                    r@ == p.elements@.take(i as int),
                decreases p.elements@.len() - i,
            {
                r.push(p.elements[i]);
                i = i + 1;
                assert(r@ =~= p.elements@.take(i as int));
            }
            assert(p.elements@.take(p.elements@.len() as int) =~= p.elements@);
            r
        },
        _ => vstd::pervasive::unreached(),
    }
}

/// Replaces the steps of a path.
fn set_path_elements(objc: &mut ObjC, o: id, elements: Vec<PathElement>)
    requires
        is_path(old(objc), o),
    ensures
        path_updated(old(objc).objects@, final(objc).objects@, o, elements@),
{
    objc.replace_host(o, HostObject::Path(CGPathHostObject { elements }));
}

/// A new path of these steps.
fn new_path(env: &mut Environment, elements: Vec<PathElement>) -> (r: CGPathRef)
    requires
        old(env).wf(),
        old(env).objc.has_room(),
    ensures
        only_objc_changed(old(env), final(env)),
        r == old(env).objc.objects@.len() + 1,
        new_path_in(old(env).objc.objects@, final(env).objc.objects@, elements@),
{
    let r = env.objc.alloc_object(HostObject::Path(CGPathHostObject { elements }));
    assert(env.objc.objects@.take(old(env).objc.objects@.len() as int) =~= old(env).objc.objects@);
    r
}

/// `CGPathCreateMutable`: a new, empty path.
pub fn CGPathCreateMutable(env: &mut Environment) -> (r: CGMutablePathRef)
    requires
        old(env).wf(),
        old(env).objc.has_room(),
    ensures
        only_objc_changed(old(env), final(env)),
        r == old(env).objc.objects@.len() + 1,
        new_path_in(old(env).objc.objects@, final(env).objc.objects@, Seq::empty()),
{
    let empty: Vec<PathElement> = Vec::new();
    assert(empty@ =~= Seq::<PathElement>::empty());
    new_path(env, empty)
}

/// `CGPathRetain`: retains the path unless it is null, and returns it.
pub fn CGPathRetain(env: &mut Environment, path: CGPathRef) -> (r: CGPathRef)
    requires
        old(env).wf(),
        path != nil ==> old(env).objc.live(path) && old(env).objc.can_retain(path),
    ensures
        only_objc_changed(old(env), final(env)),
        r == path,
        final(env).objc.objects@ == retained(old(env).objc.objects@, path),
{
    if path != nil {
        env.objc.retain(path);
    }
    path
}

/// `CGPathRelease`: releases the path unless it is null.
pub fn CGPathRelease(env: &mut Environment, path: CGPathRef)
    requires
        old(env).wf(),
    ensures
        only_objc_changed(old(env), final(env)),
        released(old(env).objc.objects@, final(env).objc.objects@, path),
{
    if path != nil {
        env.objc.release(path);
    }
}

/// The steps `CGPathAddLines` adds for `points`: a move to the first, a
/// line to each of the others.
pub open spec fn lines_elements(points: Seq<CGPoint>) -> Seq<PathElement> {
    Seq::new(points.len(), |i: int| if i == 0 { PathElement::MoveTo(points[0]) } else { PathElement::LineTo(points[i]) })
}

/// `CGPathAddLines` with the points already transformed: nothing for a
/// null path or no points; else a move to the first point and a line to
/// each of the others.
pub fn CGPathAddLines(env: &mut Environment, path: CGMutablePathRef, points: Vec<CGPoint>)
    requires
        old(env).wf(),
        path == nil || is_path(&old(env).objc, path),
    ensures
        only_objc_changed(old(env), final(env)),
        path == nil || points@.len() == 0 ==> *final(env) == *old(env),
        path != nil && points@.len() > 0 ==> path_updated(old(env).objc.objects@, final(env).objc.objects@,
            path, elements_of(&old(env).objc, path) + lines_elements(points@)),
{
    if path == nil || points.len() == 0 {
        return;
    }
    let mut elements = path_elements(&env.objc, path);
    let ghost before = elements@;
    let mut i: usize = 0;
    while i < points.len()
        invariant
            i <= points@.len(),
            points@.len() > 0,
            elements@ == before + lines_elements(points@).take(i as int),
        decreases points@.len() - i,
    {
        if i == 0 {
            elements.push(PathElement::MoveTo(points[0]));
        } else {
            elements.push(PathElement::LineTo(points[i]));
        }
        i = i + 1;
        assert(elements@ =~= before + lines_elements(points@).take(i as int));
    }
    assert(lines_elements(points@).take(points@.len() as int) =~= lines_elements(points@));
    set_path_elements(&mut env.objc, path, elements);
}

/// `CGPathCloseSubpath`: adds a closing step, unless the path is null.
pub fn CGPathCloseSubpath(env: &mut Environment, path: CGMutablePathRef)
    requires
        old(env).wf(),
        path == nil || is_path(&old(env).objc, path),
    ensures
        only_objc_changed(old(env), final(env)),
        path == nil ==> *final(env) == *old(env),
        path != nil ==> path_updated(old(env).objc.objects@, final(env).objc.objects@,
            path, elements_of(&old(env).objc, path).push(PathElement::CloseSubpath)),
{
    if path == nil {
        return;
    }
    let mut elements = path_elements(&env.objc, path);
    elements.push(PathElement::CloseSubpath);
    set_path_elements(&mut env.objc, path, elements);
}

/// `CGPathAddRect` with the four corners already transformed (from the
/// origin corner round): a closed subpath through them; nothing for a
/// null path.
pub fn CGPathAddRect(env: &mut Environment, path: CGMutablePathRef, corners: (CGPoint, CGPoint, CGPoint, CGPoint))
    requires
        old(env).wf(),
        path == nil || is_path(&old(env).objc, path),
    ensures
        only_objc_changed(old(env), final(env)),
        path == nil ==> *final(env) == *old(env),
        path != nil ==> path_updated(old(env).objc.objects@, final(env).objc.objects@, path,
            elements_of(&old(env).objc, path) + seq![
                PathElement::MoveTo(corners.0),
                PathElement::LineTo(corners.1),
                PathElement::LineTo(corners.2),
                PathElement::LineTo(corners.3),
                PathElement::CloseSubpath,
            ]),
{
    if path == nil {
        return;
    }
    let mut elements = path_elements(&env.objc, path);
    let ghost before = elements@;
    elements.push(PathElement::MoveTo(corners.0));
    elements.push(PathElement::LineTo(corners.1));
    elements.push(PathElement::LineTo(corners.2));
    elements.push(PathElement::LineTo(corners.3));
    elements.push(PathElement::CloseSubpath);
    assert(elements@ =~= before + seq![
        PathElement::MoveTo(corners.0),
        PathElement::LineTo(corners.1),
        PathElement::LineTo(corners.2),
        PathElement::LineTo(corners.3),
        PathElement::CloseSubpath,
    ]);
    set_path_elements(&mut env.objc, path, elements);
}

/// `CGPathCreateCopy`: a new path with the same steps; null for null.
pub fn CGPathCreateCopy(env: &mut Environment, path: CGPathRef) -> (r: CGPathRef)
    requires
        old(env).wf(),
        path == nil || is_path(&old(env).objc, path),
        old(env).objc.has_room(),
    ensures
        only_objc_changed(old(env), final(env)),
        path == nil ==> r == nil && *final(env) == *old(env),
        path != nil ==> r == old(env).objc.objects@.len() + 1
            && new_path_in(old(env).objc.objects@, final(env).objc.objects@, elements_of(&old(env).objc, path)),
{
    if path == nil {
        return path;
    }
    let elements = path_elements(&env.objc, path);
    new_path(env, elements)
}

/// `stores` is a run of changes to the steps of the path `p` only: each
/// store is the one before with `p`'s steps replaced by `edits[i]` (as
/// `CGPathAddLines`, `CGPathAddRect` and `CGPathCloseSubpath` do).
pub open spec fn path_edit_run(stores: Seq<Seq<Option<Object>>>, edits: Seq<Seq<PathElement>>, p: id) -> bool {
    &&& stores.len() == edits.len() + 1
    &&& forall|i: int| 0 <= i < edits.len() ==> path_updated(#[trigger] stores[i], stores[i + 1], p, edits[i])
}

/// The copy stays a path with its steps along every prefix of the run.
proof fn lemma_copy_untouched(stores: Seq<Seq<Option<Object>>>, edits: Seq<Seq<PathElement>>, p: id, q: id, e: Seq<PathElement>, i: int)
    requires
        path_edit_run(stores, edits, p),
        0 <= i < stores.len(),
        q != p,
        is_path_in(stores[0], q),
        elements_in(stores[0], q) == e,
    ensures
        is_path_in(stores[i], q),
        elements_in(stores[i], q) == e,
        stores[i].len() == stores[0].len(),
    decreases i,
{
    if i > 0 {
        lemma_copy_untouched(stores, edits, p, q, e, i - 1);
        assert(path_updated(stores[i - 1], stores[i], p, edits[i - 1]));
        assert(stores[i][q - 1] == stores[i - 1][q - 1]);
    }
}

/// `CGPathCreateCopy` makes a path of its own: it starts with the steps of
/// the original, and whatever is later done to the original's steps, the
/// copy keeps them.
pub proof fn law_copy_is_independent(
    s0: Seq<Option<Object>>,
    stores: Seq<Seq<Option<Object>>>,
    edits: Seq<Seq<PathElement>>,
    p: id,
)
    requires
        s0.len() < u32::MAX,
        is_path_in(s0, p),
        new_path_in(s0, stores[0], elements_in(s0, p)),
        path_edit_run(stores, edits, p),
    ensures
        ({
            let q = (s0.len() + 1) as id;
            &&& q != p
            &&& is_path_in(stores.last(), q)
            &&& elements_in(stores.last(), q) == elements_in(s0, p)
        }),
{
    let q = (s0.len() + 1) as id;
    lemma_copy_untouched(stores, edits, p, q, elements_in(s0, p), stores.len() - 1);
}

} // verus!

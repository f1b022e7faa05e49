//! The Objective-C object store: reference-counted objects, each carrying
//! the host-side data of its class.
//!
//! An object is named by an `id`: 1 + its slot in the store; `nil` is 0.
//! A slot is emptied when the object is deallocated and never reused.
//! Static objects (constant strings, singletons) ignore retain and release.

use vstd::prelude::*;
use crate::frameworks::core_foundation::cf_bundle::BundleData;
use crate::frameworks::core_graphics::cg_color::CGColorHostObject;
use crate::frameworks::core_graphics::cg_context::CGContextHostObject;
use crate::frameworks::core_graphics::cg_image::CGImageHostObject;
use crate::frameworks::core_graphics::cg_path::CGPathHostObject;
use crate::frameworks::uikit::ui_action_sheet::UIActionSheetHostObject;
use crate::frameworks::uikit::ui_navigation_bar::UINavigationBarHostObject;

verus! {

#[allow(non_camel_case_types)]
pub type id = u32;

/// The null object.
pub const nil: id = 0;

/// The host-side data of an object, by class.
pub enum HostObject {
    /// An `NSObject` with nothing of its own.
    Plain,
    /// An `NSString`: its UTF-8 bytes.
    String(Vec<u8>),
    /// An `NSArray` or `NSMutableArray`. A retaining array holds a reference
    /// to each item and gives it up when it is deallocated.
    Array { items: Vec<id>, mutable: bool, retains_items: bool },
    /// An `NSDictionary`: keys and values side by side.
    Dictionary { keys: Vec<id>, values: Vec<id> },
    /// An `NSBundle`; `None` stands for the application's own bundle.
    Bundle(Option<BundleData>),
    /// An `NSRunLoop`.
    RunLoop,
    Color(CGColorHostObject),
    Context(CGContextHostObject),
    Image(CGImageHostObject),
    Path(CGPathHostObject),
    ActionSheet(UIActionSheetHostObject),
    NavigationBar(UINavigationBarHostObject),
}

/// One live object.
pub struct Object {
    pub retain_count: u32,
    pub is_static: bool,
    pub host: HostObject,
}

/// The objects a host object holds references to, given up when it is
/// deallocated.
pub open spec fn children(h: HostObject) -> Seq<id> {
    match h {
        HostObject::Array { items, retains_items, .. } => if retains_items { items@ } else { Seq::empty() },
        HostObject::Dictionary { keys, values } => keys@ + values@,
        HostObject::ActionSheet(s) => seq![s.title, s.delegate] + s.buttons@,
        HostObject::NavigationBar(n) => seq![n.delegate, n.bar_tint_color, n.tint_color] + n.items@,
        _ => Seq::empty(),
    }
}

/// Computes [children].
fn children_of(h: &HostObject) -> (v: Vec<id>)
    ensures
        v@ == children(*h),
{
    let mut v: Vec<id> = Vec::new();
    match h {
        HostObject::Array { items, retains_items, .. } => {
            if *retains_items {
                v = copy_ids(items);
            }
        },
        HostObject::Dictionary { keys, values } => {
            v = copy_ids(keys);
            let w = copy_ids(values);
            append_ids(&mut v, &w);
        },
        HostObject::ActionSheet(s) => {
            v.push(s.title);
            v.push(s.delegate);
            append_ids(&mut v, &s.buttons);
            assert(v@ =~= seq![s.title, s.delegate] + s.buttons@);
        },
        HostObject::NavigationBar(n) => {
            v.push(n.delegate);
            v.push(n.bar_tint_color);
            v.push(n.tint_color);
            append_ids(&mut v, &n.items);
            assert(v@ =~= seq![n.delegate, n.bar_tint_color, n.tint_color] + n.items@);
        },
        _ => {},
    }
    v
}

/// A copy of a list of ids.
pub fn copy_ids(src: &Vec<id>) -> (v: Vec<id>)
    ensures
        v@ == src@,
{
    let mut v: Vec<id> = Vec::new();
    append_ids(&mut v, src);
    assert(v@ =~= src@);
    v
}

/// Appends `src` to `dst`.
pub fn append_ids(dst: &mut Vec<id>, src: &Vec<id>)
    ensures
        final(dst)@ == old(dst)@ + src@,
{
    let mut i: usize = 0;
    while i < src.len()
        invariant
            i <= src@.len(),
            dst@ == old(dst)@ + src@.take(i as int),
        decreases src@.len() - i,
    {
        dst.push(src[i]);
        i = i + 1;
        assert(dst@ =~= old(dst)@ + src@.take(i as int));
    }
    assert(src@.take(src@.len() as int) =~= src@);
}

/// The number of live objects in a store.
pub open spec fn live_count(s: Seq<Option<Object>>) -> nat
    decreases s.len(),
{
    if s.len() == 0 {
        0
    } else {
        live_count(s.drop_last()) + if s.last() is Some { 1nat } else { 0nat }
    }
}

/// Replacing one slot changes the count by what went and what came.
proof fn lemma_live_count_update(s: Seq<Option<Object>>, i: int, v: Option<Object>)
    requires
        0 <= i < s.len(),
    ensures
        live_count(s.update(i, v)) + (if s[i] is Some { 1int } else { 0int })
            == live_count(s) + (if v is Some { 1int } else { 0int }),
    decreases s.len(),
{
    if i == s.len() - 1 {
        assert(s.update(i, v).drop_last() =~= s.drop_last());
    } else {
        lemma_live_count_update(s.drop_last(), i, v);
        assert(s.update(i, v).drop_last() =~= s.drop_last().update(i, v));
    }
}

/// How many times `x` occurs in `s`.
pub open spec fn occurrences(s: Seq<id>, x: int) -> int
    decreases s.len(),
{
    if s.len() == 0 {
        0
    } else {
        occurrences(s.drop_last(), x) + if s.last() as int == x { 1int } else { 0int }
    }
}

/// Occurrences in a concatenation add up.
proof fn lemma_occurrences_append(s: Seq<id>, t: Seq<id>, x: int)
    ensures
        occurrences(s + t, x) == occurrences(s, x) + occurrences(t, x),
    decreases t.len(),
{
    if t.len() == 0 {
        assert(s + t =~= s);
    } else {
        lemma_occurrences_append(s, t.drop_last(), x);
        assert((s + t).drop_last() =~= s + t.drop_last());
    }
}

/// The references to `x` given up by the objects among the first `n` slots
/// that were live in `s0` and are gone in `s`.
pub open spec fn freed_refs(s0: Seq<Option<Object>>, s: Seq<Option<Object>>, x: int, n: nat) -> int
    decreases n,
{
    if n == 0 {
        0
    } else {
        let j = n - 1;
        freed_refs(s0, s, x, (n - 1) as nat) + if s0[j] is Some && s[j] is None {
            occurrences(children(s0[j]->0.host), x)
        } else {
            0int
        }
    }
}

/// Nothing is freed between a store and itself.
proof fn lemma_freed_refs_none(s0: Seq<Option<Object>>, x: int, n: nat)
    ensures
        freed_refs(s0, s0, x, n) == 0,
    decreases n,
{
    if n > 0 {
        lemma_freed_refs_none(s0, x, (n - 1) as nat);
    }
}

/// Freeing the live slot `i` adds the references its object held.
proof fn lemma_freed_refs_free(s0: Seq<Option<Object>>, s: Seq<Option<Object>>, i: int, x: int, n: nat)
    requires
        0 <= i < s.len(),
        s0.len() == s.len(),
        n <= s.len(),
        s[i] is Some,
        s0[i] is Some,
    ensures
        freed_refs(s0, s.update(i, None), x, n) == freed_refs(s0, s, x, n)
            + if i < n { occurrences(children(s0[i]->0.host), x) } else { 0int },
    decreases n,
{
    if n > 0 {
        lemma_freed_refs_free(s0, s, i, x, (n - 1) as nat);
    }
}

/// Replacing a live slot by another live one frees nothing.
proof fn lemma_freed_refs_keep(s0: Seq<Option<Object>>, s: Seq<Option<Object>>, i: int, v: Option<Object>, x: int, n: nat)
    requires
        0 <= i < s.len(),
        n <= s.len(),
        s[i] is Some,
        v is Some,
    ensures
        freed_refs(s0, s.update(i, v), x, n) == freed_refs(s0, s, x, n),
    decreases n,
{
    if n > 0 {
        lemma_freed_refs_keep(s0, s, i, v, x, (n - 1) as nat);
    }
}

/// The bookkeeping of a cascade of releases that started from `s0` with
/// the references `pend0` to give up, and has reached `s` with `pending`
/// still to give up: static objects are untouched; a surviving object has
/// lost exactly the references given up to it so far (by `pend0` and by
/// the objects freed since); a freed object had no more references than
/// were given up to it.
pub open spec fn accounted(
    s0: Seq<Option<Object>>,
    pend0: Seq<id>,
    s: Seq<Option<Object>>,
    pending: Seq<id>,
) -> bool {
    &&& s.len() == s0.len()
    &&& forall|k: int|
        0 <= k < s.len() && s0[k] is Some && s0[k]->0.is_static ==> #[trigger] s[k] == s0[k]
    &&& forall|k: int|
        0 <= k < s.len() && #[trigger] s[k] is Some && !s[k]->0.is_static ==> s[k]->0.retain_count
            + occurrences(pend0, k + 1) + freed_refs(s0, s, k + 1, s.len())
            == s0[k]->0.retain_count + occurrences(pending, k + 1)
    &&& forall|k: int|
        0 <= k < s.len() && s0[k] is Some && #[trigger] s[k] is None ==> s0[k]->0.retain_count
            + occurrences(pending, k + 1) <= occurrences(pend0, k + 1) + freed_refs(s0, s, k + 1, s.len())
}

/// What giving up the references `pending` does to `s0`, giving `s1`: a
/// static object is untouched; every other object that is still live has
/// lost exactly one reference for each time it occurs in `pending` or among
/// the references held by an object that was deallocated; an object that
/// was deallocated had no more references than were given up to it.
pub open spec fn released_all(s0: Seq<Option<Object>>, pending: Seq<id>, s1: Seq<Option<Object>>) -> bool {
    accounted(s0, pending, s1, Seq::empty())
}

/// At the start of a cascade everything is accounted for.
proof fn lemma_accounted_start(s0: Seq<Option<Object>>, pend0: Seq<id>)
    ensures
        accounted(s0, pend0, s0, pend0),
{
    assert forall|k: int| 0 <= k < s0.len() && #[trigger] s0[k] is Some && !s0[k]->0.is_static implies s0[k]->0.retain_count
        + occurrences(pend0, k + 1) + freed_refs(s0, s0, k + 1, s0.len())
        == s0[k]->0.retain_count + occurrences(pend0, k + 1) by {
        lemma_freed_refs_none(s0, k + 1, s0.len());
    }
}

/// Popping a reference to nothing, to a dead object or to a static one
/// keeps the accounts.
proof fn lemma_accounted_skip(s0: Seq<Option<Object>>, pend0: Seq<id>, s: Seq<Option<Object>>, pending: Seq<id>)
    requires
        accounted(s0, pend0, s, pending),
        shrunk(s0, s),
        pending.len() > 0,
        ({
            let p = pending.last();
            p == 0 || p > s.len() || s[p - 1] is None || s[p - 1]->0.is_static
        }),
    ensures
        accounted(s0, pend0, s, pending.drop_last()),
{
    let p = pending.last();
    assert forall|k: int| 0 <= k < s.len() && #[trigger] s[k] is Some && !s[k]->0.is_static implies s[k]->0.retain_count
        + occurrences(pend0, k + 1) + freed_refs(s0, s, k + 1, s.len())
        == s0[k]->0.retain_count + occurrences(pending.drop_last(), k + 1) by {
        assert(p as int != k + 1);
    }
}

/// Popping a reference to a live object with more than one reference
/// takes one off its count.
proof fn lemma_accounted_decrement(s0: Seq<Option<Object>>, pend0: Seq<id>, s: Seq<Option<Object>>, pending: Seq<id>, i: int)
    requires
        accounted(s0, pend0, s, pending),
        shrunk(s0, s),
        pending.len() > 0,
        pending.last() == i + 1,
        0 <= i < s.len(),
        s[i] is Some,
        !s[i]->0.is_static,
        s[i]->0.retain_count > 1,
    ensures
        accounted(s0, pend0, s.update(i, Some(Object {
            retain_count: (s[i]->0.retain_count - 1) as u32,
            is_static: false,
            host: s[i]->0.host,
        })), pending.drop_last()),
{
    let v = Some(Object { retain_count: (s[i]->0.retain_count - 1) as u32, is_static: false, host: s[i]->0.host });
    let s2 = s.update(i, v);
    let pd = pending.drop_last();
    assert(s0[i] is Some);
    assert forall|k: int| 0 <= k < s2.len() && #[trigger] s2[k] is Some && !s2[k]->0.is_static implies s2[k]->0.retain_count
        + occurrences(pend0, k + 1) + freed_refs(s0, s2, k + 1, s2.len())
        == s0[k]->0.retain_count + occurrences(pd, k + 1) by {
        lemma_freed_refs_keep(s0, s, i, v, k + 1, s.len());
        assert(s[k] is Some);
    }
    assert forall|k: int| 0 <= k < s2.len() && s0[k] is Some && #[trigger] s2[k] is None implies s0[k]->0.retain_count
        + occurrences(pd, k + 1) <= occurrences(pend0, k + 1) + freed_refs(s0, s2, k + 1, s2.len()) by {
        lemma_freed_refs_keep(s0, s, i, v, k + 1, s.len());
        assert(s[k] is None);
    }
    assert forall|k: int| 0 <= k < s2.len() && s0[k] is Some && s0[k]->0.is_static implies #[trigger] s2[k] == s0[k] by {
        assert(s[k] == s0[k]);
    }
}

/// Popping the last reference to a live object frees it and puts the
/// references it held on the list.
proof fn lemma_accounted_free(s0: Seq<Option<Object>>, pend0: Seq<id>, s: Seq<Option<Object>>, pending: Seq<id>, i: int)
    requires
        accounted(s0, pend0, s, pending),
        shrunk(s0, s),
        pending.len() > 0,
        pending.last() == i + 1,
        0 <= i < s.len(),
        s[i] is Some,
        !s[i]->0.is_static,
        s[i]->0.retain_count <= 1,
    ensures
        accounted(s0, pend0, s.update(i, None), pending.drop_last() + children(s[i]->0.host)),
{
    let s2 = s.update(i, None);
    let more = children(s[i]->0.host);
    let pd = pending.drop_last() + more;
    assert(s0[i] is Some);
    assert(s0[i]->0.host == s[i]->0.host);
    assert forall|k: int| 0 <= k < s2.len() && #[trigger] s2[k] is Some && !s2[k]->0.is_static implies s2[k]->0.retain_count
        + occurrences(pend0, k + 1) + freed_refs(s0, s2, k + 1, s2.len())
        == s0[k]->0.retain_count + occurrences(pd, k + 1) by {
        lemma_freed_refs_free(s0, s, i, k + 1, s.len());
        lemma_occurrences_append(pending.drop_last(), more, k + 1);
        assert(s[k] is Some);
    }
    assert forall|k: int| 0 <= k < s2.len() && s0[k] is Some && #[trigger] s2[k] is None implies s0[k]->0.retain_count
        + occurrences(pd, k + 1) <= occurrences(pend0, k + 1) + freed_refs(s0, s2, k + 1, s2.len()) by {
        lemma_freed_refs_free(s0, s, i, k + 1, s.len());
        lemma_occurrences_append(pending.drop_last(), more, k + 1);
        if k != i {
            assert(s[k] is None);
        } else {
            assert(s[k] is Some);
        }
    }
    assert forall|k: int| 0 <= k < s2.len() && s0[k] is Some && s0[k]->0.is_static implies #[trigger] s2[k] == s0[k] by {
        assert(s[k] == s0[k]);
    }
}

/// `s1` is `s0` after objects were released: no slot was filled, and every
/// object still live kept its data and class of life, with at most the
/// retain count it had.
pub open spec fn shrunk(s0: Seq<Option<Object>>, s1: Seq<Option<Object>>) -> bool {
    &&& s1.len() == s0.len()
    &&& forall|i: int| 0 <= i < s1.len() && #[trigger] s1[i] is Some ==> {
        &&& s0[i] is Some
        &&& s1[i]->0.host == s0[i]->0.host
        &&& s1[i]->0.is_static == s0[i]->0.is_static
        &&& s1[i]->0.retain_count <= s0[i]->0.retain_count
    }
}

/// `s0` with the retain count of the object in slot `i` set to `rc`.
pub open spec fn with_count(s0: Seq<Option<Object>>, i: int, rc: int) -> Seq<Option<Object>> {
    s0.update(i, Some(Object { retain_count: rc as u32, is_static: s0[i]->0.is_static, host: s0[i]->0.host }))
}

/// What releasing `o` does to the store `s0`, giving `s1`: nothing for
/// `nil`, a dead object or a static one; otherwise the retain count drops by
/// one, and an object whose last reference it was is deallocated and gives
/// up the references it held, which may deallocate more objects, as
/// [released_all] accounts for.
pub open spec fn released(s0: Seq<Option<Object>>, s1: Seq<Option<Object>>, o: id) -> bool {
    let i = o - 1;
    if o == 0 || o > s0.len() || s0[i] is None || s0[i]->0.is_static {
        s1 == s0
    } else if s0[i]->0.retain_count > 1 {
        s1 == with_count(s0, i, s0[i]->0.retain_count - 1)
    } else {
        &&& s1[i] is None
        &&& shrunk(s0, s1)
        &&& released_all(s0.update(i, None), children(s0[i]->0.host), s1)
        &&& children(s0[i]->0.host).len() == 0 ==> s1 == s0.update(i, None)
    }
}

/// `ms` is a run of stores from releasing each of `xs` in turn.
pub open spec fn release_run(ms: Seq<Seq<Option<Object>>>, xs: Seq<id>) -> bool {
    &&& ms.len() == xs.len() + 1
    &&& forall|k: int| 0 <= k < xs.len() ==> released(#[trigger] ms[k], ms[k + 1], xs[k])
}

/// `s1` is `s0` after releasing each of `xs` in turn.
pub open spec fn released_seq(s0: Seq<Option<Object>>, s1: Seq<Option<Object>>, xs: Seq<id>) -> bool {
    exists|ms: Seq<Seq<Option<Object>>>| #[trigger] release_run(ms, xs) && ms[0] == s0 && ms.last() == s1
}

/// A release only ever shrinks the store.
pub proof fn lemma_released_shrunk(s0: Seq<Option<Object>>, s1: Seq<Option<Object>>, o: id)
    requires
        released(s0, s1, o),
    ensures
        shrunk(s0, s1),
{
    let i = o - 1;
    if o == 0 || o > s0.len() || s0[i] is None || s0[i]->0.is_static {
    } else if s0[i]->0.retain_count > 1 {
        assert forall|k: int| 0 <= k < s1.len() && #[trigger] s1[k] is Some implies {
            &&& s0[k] is Some
            &&& s1[k]->0.host == s0[k]->0.host
            &&& s1[k]->0.is_static == s0[k]->0.is_static
            &&& s1[k]->0.retain_count <= s0[k]->0.retain_count
        } by {
            if k == i {
            }
        }
    }
}

/// What retaining `o` does: the retain count of a live, non-static object
/// rises by one; anything else is left as it was.
pub open spec fn retained(s0: Seq<Option<Object>>, o: id) -> Seq<Option<Object>> {
    let i = o - 1;
    if o == 0 || o > s0.len() || s0[i] is None || s0[i]->0.is_static {
        s0
    } else {
        with_count(s0, i, s0[i]->0.retain_count + 1)
    }
}

/// Every live object has at least one reference, as allocation, retain
/// and release keep it.
pub open spec fn counts_positive(s: Seq<Option<Object>>) -> bool {
    forall|i: int| 0 <= i < s.len() && #[trigger] s[i] is Some ==> s[i]->0.retain_count >= 1
}

/// Releasing an object right after retaining it gives back the store as
/// it was.
pub proof fn law_retain_then_release(s: Seq<Option<Object>>, o: id, s1: Seq<Option<Object>>)
    requires
        counts_positive(s),
        1 <= o <= s.len() && s[o - 1] is Some && !s[o - 1]->0.is_static ==> s[o - 1]->0.retain_count < u32::MAX,
        released(retained(s, o), s1, o),
    ensures
        s1 == s,
{
    if 1 <= o <= s.len() && s[o - 1] is Some && !s[o - 1]->0.is_static {
        let i = o - 1;
        let r = retained(s, o);
        assert(s[i] is Some);
        assert(r[i]->0.retain_count == s[i]->0.retain_count + 1);
        assert(r[i]->0.retain_count > 1);
        assert(s1 == with_count(r, i, r[i]->0.retain_count - 1));
        let obj = s[i]->0;
        assert(s1[i] == Some(Object { retain_count: obj.retain_count, is_static: obj.is_static, host: obj.host }));
        assert(s1[i] == s[i]);
        assert(s1 =~= s);
    }
}

/// The object store.
pub struct ObjC {
    pub objects: Vec<Option<Object>>,
}

impl ObjC {
    /// `o` names a live object.
    pub open spec fn live(&self, o: id) -> bool {
        1 <= o <= self.objects@.len() && self.objects@[o - 1] is Some
    }

    /// The object `o` names.
    pub open spec fn obj(&self, o: id) -> Object {
        self.objects@[o - 1]->0
    }

    /// The host data of `o`.
    pub open spec fn host_of(&self, o: id) -> HostObject {
        self.obj(o).host
    }

    /// `o` is live and not static, so retain and release act on it.
    pub open spec fn counted(&self, o: id) -> bool {
        self.live(o) && !self.obj(o).is_static
    }

    /// A retain of `o` cannot overflow its count.
    pub open spec fn can_retain(&self, o: id) -> bool {
        self.counted(o) ==> self.obj(o).retain_count < u32::MAX
    }

    /// Another object can be allocated.
    pub open spec fn has_room(&self) -> bool {
        self.objects@.len() + 1 < u32::MAX
    }

    /// An empty store.
    pub fn new() -> (s: ObjC)
        ensures
            s.objects@ == Seq::<Option<Object>>::empty(),
            counts_positive(s.objects@),
    {
        ObjC { objects: Vec::new() }
    }

    /// Allocates an object with one reference, held by the caller.
    pub fn alloc_object(&mut self, host: HostObject) -> (o: id)
        requires
            old(self).has_room(),
        ensures
            counts_positive(old(self).objects@) ==> counts_positive(final(self).objects@),
            o == old(self).objects@.len() + 1,
            final(self).objects@ == old(self).objects@.push(Some(Object { retain_count: 1, is_static: false, host })),
    {
        self.objects.push(Some(Object { retain_count: 1, is_static: false, host }));
        self.objects.len() as u32
    }

    /// Allocates a static object: it lives as long as the store and its
    /// retain count stays at the maximum.
    pub fn alloc_static_object(&mut self, host: HostObject) -> (o: id)
        requires
            old(self).has_room(),
        ensures
            counts_positive(old(self).objects@) ==> counts_positive(final(self).objects@),
            o == old(self).objects@.len() + 1,
            final(self).objects@ == old(self).objects@.push(Some(Object { retain_count: u32::MAX, is_static: true, host })),
    {
        self.objects.push(Some(Object { retain_count: u32::MAX, is_static: true, host }));
        self.objects.len() as u32
    }

    /// Whether `o` names a live object.
    pub fn is_live(&self, o: id) -> (b: bool)
        ensures
            b == self.live(o),
    {
        if o == nil || o as usize > self.objects.len() {
            return false;
        }
        self.objects[(o - 1) as usize].is_some()
    }

    /// The host data of a live object.
    pub fn host(&self, o: id) -> (h: &HostObject)
        requires
            self.live(o),
        ensures
            *h == self.host_of(o),
    {
        match &self.objects[(o - 1) as usize] {
            Some(obj) => &obj.host,
            None => vstd::pervasive::unreached(),
        }
    }

    /// Gives a live object new host data and returns the old.
    pub fn replace_host(&mut self, o: id, h: HostObject) -> (prev: HostObject)
        requires
            old(self).live(o),
        ensures
            prev == old(self).host_of(o),
            final(self).objects@ == old(self).objects@.update(o - 1, Some(Object {
                retain_count: old(self).obj(o).retain_count,
                is_static: old(self).obj(o).is_static,
                host: h,
            })),
    {
        let i = (o - 1) as usize;
        let mut slot: Option<Object> = None;
        std::mem::swap(&mut self.objects[i], &mut slot);
        match slot {
            Some(obj) => {
                self.objects[i] = Some(Object { retain_count: obj.retain_count, is_static: obj.is_static, host: h });
                obj.host
            },
            None => vstd::pervasive::unreached(),
        }
    }

    /// The retain count of `o`: 0 for `nil`, the maximum for a static object.
    pub fn retain_count(&self, o: id) -> (n: u32)
        requires
            o == nil || self.live(o),
        ensures
            n == if o == nil { 0 } else { self.obj(o).retain_count },
    {
        if o == nil {
            return 0;
        }
        match &self.objects[(o - 1) as usize] {
            Some(obj) => obj.retain_count,
            None => vstd::pervasive::unreached(),
        }
    }

    /// `retain`: one more reference to `o`, which is returned.
    pub fn retain(&mut self, o: id) -> (r: id)
        requires
            old(self).can_retain(o),
        ensures
            r == o,
            final(self).objects@ == retained(old(self).objects@, o),
            counts_positive(old(self).objects@) ==> counts_positive(final(self).objects@),
    {
        if o == nil || o as usize > self.objects.len() {
            return o;
        }
        let i = (o - 1) as usize;
        let mut slot: Option<Object> = None;
        std::mem::swap(&mut self.objects[i], &mut slot);
        match slot {
            None => {},
            Some(obj) => {
                if obj.is_static {
                    self.objects[i] = Some(obj);
                } else {
                    self.objects[i] = Some(Object {
                        retain_count: obj.retain_count + 1,
                        is_static: false,
                        host: obj.host,
                    });
                }
            },
        }
        proof {
            assert(self.objects@ =~= retained(old(self).objects@, o));
        }
        o
    }

    /// `release`: one reference to `o` fewer; see [released].
    pub fn release(&mut self, o: id)
        ensures
            released(old(self).objects@, final(self).objects@, o),
            counts_positive(old(self).objects@) ==> counts_positive(final(self).objects@),
    {
        if o == nil || o as usize > self.objects.len() {
            return;
        }
        let i = (o - 1) as usize;
        let mut slot: Option<Object> = None;
        std::mem::swap(&mut self.objects[i], &mut slot);
        match slot {
            None => {
                assert(self.objects@ =~= old(self).objects@);
            },
            Some(obj) => {
                if obj.is_static {
                    self.objects[i] = Some(obj);
                    assert(self.objects@ =~= old(self).objects@);
                } else if obj.retain_count > 1 {
                    self.objects[i] = Some(Object {
                        retain_count: obj.retain_count - 1,
                        is_static: false,
                        host: obj.host,
                    });
                    assert(self.objects@ =~= with_count(old(self).objects@, i as int, old(self).objects@[i as int]->0.retain_count - 1));
                    assert(released(old(self).objects@, self.objects@, o));
                } else {
                    let pending = children_of(&obj.host);
                    proof {
                        let s0 = old(self).objects@;
                        assert(self.objects@ =~= s0.update(i as int, None));
                        assert(shrunk(s0, self.objects@));
                    }
                    let ghost s_mid = self.objects@;
                    if pending.len() > 0 {
                        self.release_all(pending);
                        proof {
                            let s0 = old(self).objects@;
                            let s1 = self.objects@;
                            assert forall|k: int| 0 <= k < s1.len() && #[trigger] s1[k] is Some implies {
                                &&& s0[k] is Some
                                &&& s1[k]->0.host == s0[k]->0.host
                                &&& s1[k]->0.is_static == s0[k]->0.is_static
                                &&& s1[k]->0.retain_count <= s0[k]->0.retain_count
                            } by {
                                assert(s_mid[k] is Some);
                            }
                            if s1[i as int] is Some {
                                assert(s_mid[i as int] is Some);
                            }
                            assert(released(s0, s1, o));
                        }
                    } else {
                        proof {
                            lemma_accounted_start(s_mid, Seq::<id>::empty());
                            assert(pending@ =~= Seq::<id>::empty());
                        }
                        assert(released(old(self).objects@, self.objects@, o));
                    }
                }
            },
        }
    }

    /// Releases each of `xs` in turn.
    pub fn release_each(&mut self, xs: &Vec<id>)
        ensures
            released_seq(old(self).objects@, final(self).objects@, xs@),
    {
        let ghost mut ms: Seq<Seq<Option<Object>>> = seq![self.objects@];
        let mut i: usize = 0;
        while i < xs.len()
            invariant
                i <= xs@.len(),
                release_run(ms, xs@.take(i as int)),
                ms[0] == old(self).objects@,
                ms.last() == self.objects@,
            decreases xs@.len() - i,
        {
            let ghost m = self.objects@;
            self.release(xs[i]);
            proof {
                let ms2 = ms.push(self.objects@);
                assert forall|k: int| 0 <= k < i + 1 implies released(#[trigger] ms2[k], ms2[k + 1], xs@.take(i + 1)[k]) by {
                    if k < i {
                        assert(ms2[k] == ms[k] && ms2[k + 1] == ms[k + 1]);
                        assert(xs@.take(i + 1)[k] == xs@.take(i as int)[k]);
                    }
                }
                ms = ms2;
            }
            i = i + 1;
        }
        assert(xs@.take(xs@.len() as int) =~= xs@);
    }

    /// Releases each of `pending`, and what that deallocates gives up its
    /// references in turn.
    fn release_all(&mut self, pending: Vec<id>)
        ensures
            shrunk(old(self).objects@, final(self).objects@),
            released_all(old(self).objects@, pending@, final(self).objects@),
            counts_positive(old(self).objects@) ==> counts_positive(final(self).objects@),
    {
        let ghost s0 = self.objects@;
        let ghost pend0 = pending@;
        proof {
            lemma_accounted_start(s0, pend0);
        }
        let mut pending = pending;
        while pending.len() > 0
            invariant
                shrunk(s0, self.objects@),
                s0 == old(self).objects@,
                accounted(s0, pend0, self.objects@, pending@),
                counts_positive(s0) ==> counts_positive(self.objects@),
            decreases live_count(self.objects@), pending@.len(),
        {
            let ghost pending_before = pending@;
            let p = pending.pop().unwrap();
            proof {
                if p == nil || (p as usize) > self.objects.len() {
                    lemma_accounted_skip(s0, pend0, self.objects@, pending_before);
                }
            }
            if p != nil && (p as usize) <= self.objects.len() {
                let i = (p - 1) as usize;
                let ghost s_before = self.objects@;
                let mut slot: Option<Object> = None;
                std::mem::swap(&mut self.objects[i], &mut slot);
                match slot {
                    None => {
                        assert(self.objects@ =~= s_before);
                        proof {
                            lemma_accounted_skip(s0, pend0, s_before, pending_before);
                        }
                    },
                    Some(obj) => {
                        if obj.is_static {
                            self.objects[i] = Some(obj);
                            assert(self.objects@ =~= s_before);
                            proof {
                                lemma_accounted_skip(s0, pend0, s_before, pending_before);
                            }
                        } else if obj.retain_count > 1 {
                            self.objects[i] = Some(Object {
                                retain_count: obj.retain_count - 1,
                                is_static: false,
                                host: obj.host,
                            });
                            proof {
                                lemma_live_count_update(s_before, i as int, self.objects@[i as int]);
                                assert(self.objects@ =~= s_before.update(i as int, self.objects@[i as int]));
                                lemma_accounted_decrement(s0, pend0, s_before, pending_before, i as int);
                            }
                        } else {
                            let more = children_of(&obj.host);
                            append_ids(&mut pending, &more);
                            proof {
                                lemma_live_count_update(s_before, i as int, None);
                                assert(self.objects@ =~= s_before.update(i as int, None));
                                lemma_accounted_free(s0, pend0, s_before, pending_before, i as int);
                            }
                        }
                    },
                }
            }
        }
    }
}

} // verus!

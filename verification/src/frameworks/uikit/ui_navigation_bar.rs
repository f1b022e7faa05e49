//! `UINavigationBar`: its delegate, its stack of navigation items, its
//! colors and translucency.
//!
//! Deallocation gives up the references to the delegate, the colors and
//! the items (see `crate::objc::children`).

use vstd::prelude::*;
use crate::objc::{id, nil, ObjC, HostObject, Object, retained, released, released_seq, lemma_released_shrunk};
use crate::environment::{Environment, only_objc_changed};

verus! {

/// A navigation bar: its delegate, its stack of items (top last), its
/// colors and whether it is translucent.
pub struct UINavigationBarHostObject {
    pub delegate: id,
    pub items: Vec<id>,
    pub bar_tint_color: id,
    pub tint_color: id,
    pub translucent: bool,
}

impl UINavigationBarHostObject {
    /// A translucent bar with no delegate, items or colors.
    pub fn new() -> (r: Self)
        ensures
            r.delegate == nil,
            r.items@ == Seq::<id>::empty(),
            r.bar_tint_color == nil,
            r.tint_color == nil,
            r.translucent,
    {
        let items: Vec<id> = Vec::new();
        assert(items@ =~= Seq::<id>::empty());
        Self { delegate: nil, items, bar_tint_color: nil, tint_color: nil, translucent: true }
    }
}

/// The fields of a navigation bar, its items as a sequence.
pub struct BarView {
    pub delegate: id,
    pub items: Seq<id>,
    pub bar_tint_color: id,
    pub tint_color: id,
    pub translucent: bool,
}

/// The fields of a bar that hold a retained object.
#[derive(Clone, Copy, PartialEq, Eq, Structural)]
pub enum BarField {
    Delegate,
    BarTintColor,
    TintColor,
}

/// The object a bar holds in field `f`.
pub open spec fn field_of(v: BarView, f: BarField) -> id {
    match f {
        BarField::Delegate => v.delegate,
        BarField::BarTintColor => v.bar_tint_color,
        BarField::TintColor => v.tint_color,
    }
}

/// `v` with field `f` holding `x`.
pub open spec fn with_field(v: BarView, f: BarField, x: id) -> BarView {
    match f {
        BarField::Delegate => BarView { delegate: x, ..v },
        BarField::BarTintColor => BarView { bar_tint_color: x, ..v },
        BarField::TintColor => BarView { tint_color: x, ..v },
    }
}

/// `v` with the item stack `items`.
pub open spec fn with_items(v: BarView, items: Seq<id>) -> BarView {
    BarView { items, ..v }
}

/// `o` is a live navigation bar in the store `s`.
pub open spec fn is_bar_in(s: Seq<Option<Object>>, o: id) -> bool {
    1 <= o <= s.len() && s[o - 1] is Some && s[o - 1]->0.host is NavigationBar
}

/// The fields of the navigation bar `o` in the store `s`.
pub open spec fn bar_in(s: Seq<Option<Object>>, o: id) -> BarView {
    let h = s[o - 1]->0.host->NavigationBar_0;
    BarView {
        delegate: h.delegate,
        items: h.items@,
        bar_tint_color: h.bar_tint_color,
        tint_color: h.tint_color,
        translucent: h.translucent,
    }
}

/// `o` is a live navigation bar.
pub open spec fn is_bar(objc: &ObjC, o: id) -> bool {
    is_bar_in(objc.objects@, o)
}

/// The fields of the navigation bar `o`.
pub open spec fn bar_of(objc: &ObjC, o: id) -> BarView {
    bar_in(objc.objects@, o)
}

/// `s1` is `s0` with the navigation bar `o` holding the fields `v`.
pub open spec fn bar_updated(s0: Seq<Option<Object>>, s1: Seq<Option<Object>>, o: id, v: BarView) -> bool {
    &&& s1.len() == s0.len()
    &&& is_bar_in(s0, o)
    &&& is_bar_in(s1, o)
    &&& s1[o - 1]->0.retain_count == s0[o - 1]->0.retain_count
    &&& s1[o - 1]->0.is_static == s0[o - 1]->0.is_static
    &&& bar_in(s1, o) == v
    &&& forall|i: int| 0 <= i < s1.len() && i != o - 1 ==> #[trigger] s1[i] == s0[i]
}

/// The fields of a navigation bar, its items copied.
fn get_bar(objc: &ObjC, o: id) -> (r: (id, Vec<id>, id, id, bool))
    requires
        is_bar(objc, o),
    ensures
        r.0 == bar_of(objc, o).delegate,
        r.1@ == bar_of(objc, o).items,
        r.2 == bar_of(objc, o).bar_tint_color,
        r.3 == bar_of(objc, o).tint_color,
        r.4 == bar_of(objc, o).translucent,
{
    match objc.host(o) {
        HostObject::NavigationBar(h) => (h.delegate, crate::objc::copy_ids(&h.items), h.bar_tint_color,
            h.tint_color, h.translucent),
        _ => vstd::pervasive::unreached(),
    }
}

/// Sets the fields of a navigation bar.
fn set_bar(objc: &mut ObjC, o: id, delegate: id, items: Vec<id>, bar_tint_color: id, tint_color: id, translucent: bool)
    requires
        is_bar(old(objc), o),
    ensures
        bar_updated(old(objc).objects@, final(objc).objects@, o, BarView {
            delegate, items: items@, bar_tint_color, tint_color, translucent,
        }),
{
    objc.replace_host(o, HostObject::NavigationBar(UINavigationBarHostObject {
        delegate,
        items,
        bar_tint_color,
        tint_color,
        translucent,
    }));
}

/// Whether `o` is a live navigation bar.
fn check_bar(objc: &ObjC, o: id) -> (r: bool)
    ensures
        r == is_bar(objc, o),
{
    if !objc.is_live(o) {
        return false;
    }
    match objc.host(o) {
        HostObject::NavigationBar(_) => true,
        _ => false,
    }
}

/// `+[UINavigationBar allocWithZone:]`: a new bar; see
/// [UINavigationBarHostObject::new].
pub fn allocWithZone(env: &mut Environment) -> (r: id)
    requires
        old(env).wf(),
        old(env).objc.has_room(),
    ensures
        only_objc_changed(old(env), final(env)),
        r == old(env).objc.objects@.len() + 1,
        final(env).objc.objects@.len() == old(env).objc.objects@.len() + 1,
        final(env).objc.objects@.take(old(env).objc.objects@.len() as int) == old(env).objc.objects@,
        is_bar(&final(env).objc, r),
        final(env).objc.obj(r).retain_count == 1,
        !final(env).objc.obj(r).is_static,
        bar_of(&final(env).objc, r) == (BarView {
            delegate: nil, items: Seq::empty(), bar_tint_color: nil, tint_color: nil, translucent: true,
        }),
{
    let r = env.objc.alloc_object(HostObject::NavigationBar(UINavigationBarHostObject::new()));
    assert(env.objc.objects@.take(old(env).objc.objects@.len() as int) =~= old(env).objc.objects@);
    r
}

/// `-[UINavigationBar init]`: the bar itself, as `NSObject`'s `init`
/// gives it.
pub fn init(env: &mut Environment, this: id) -> (r: id)
    ensures
        *final(env) == *old(env),
        r == this,
{
    this
}

/// Replaces the object a bar holds in field `f`: the old one (if any) is
/// released first, then `value` (if any) is retained and stored. Should
/// the release deallocate the bar itself, nothing more is done.
fn set_retained_field(env: &mut Environment, this: id, f: BarField, value: id)
    requires
        old(env).wf(),
        is_bar(&old(env).objc, this),
        old(env).objc.can_retain(value),
    ensures
        only_objc_changed(old(env), final(env)),
        exists|m: Seq<Option<Object>>| #[trigger] released(old(env).objc.objects@, m, field_of(bar_of(&old(env).objc, this), f)) && {
            &&& is_bar_in(m, this) ==> bar_updated(retained(m, value), final(env).objc.objects@, this,
                    with_field(bar_of(&old(env).objc, this), f, value))
            &&& !is_bar_in(m, this) ==> final(env).objc.objects@ == m
        },
{
    let (d, items, bt, t, tr) = get_bar(&env.objc, this);
    let prev = match f {
        BarField::Delegate => d,
        BarField::BarTintColor => bt,
        BarField::TintColor => t,
    };
    let ghost v0 = bar_of(&env.objc, this);
    assert(prev == field_of(v0, f));
    if prev != nil {
        env.objc.release(prev);
    } else {
        assert(released(old(env).objc.objects@, env.objc.objects@, prev));
    }
    let ghost m = env.objc.objects@;
    proof { lemma_released_shrunk(old(env).objc.objects@, m, prev); }
    assert(released(old(env).objc.objects@, m, field_of(bar_of(&old(env).objc, this), f)));
    if !check_bar(&env.objc, this) {
        return;
    }
    assert(bar_in(m, this) == v0) by {
        assert(m[this - 1] is Some);
    }
    if value != nil {
        proof {
            if env.objc.counted(value) {
                assert(m[value - 1] is Some);
            }
        }
        env.objc.retain(value);
    }
    assert(env.objc.objects@ == retained(m, value));
    let (d2, items2, bt2, t2, tr2) = get_bar(&env.objc, this);
    match f {
        BarField::Delegate => set_bar(&mut env.objc, this, value, items2, bt2, t2, tr2),
        BarField::BarTintColor => set_bar(&mut env.objc, this, d2, items2, value, t2, tr2),
        BarField::TintColor => set_bar(&mut env.objc, this, d2, items2, bt2, value, tr2),
    }
    assert(bar_updated(retained(m, value), env.objc.objects@, this, with_field(v0, f, value)));
}

/// `-[UINavigationBar setDelegate:]`: the old delegate is released, the
/// new one retained; see [set_retained_field].
pub fn setDelegate(env: &mut Environment, this: id, delegate: id)
    requires
        old(env).wf(),
        is_bar(&old(env).objc, this),
        old(env).objc.can_retain(delegate),
    ensures
        only_objc_changed(old(env), final(env)),
        exists|m: Seq<Option<Object>>| #[trigger] released(old(env).objc.objects@, m, bar_of(&old(env).objc, this).delegate) && {
            &&& is_bar_in(m, this) ==> bar_updated(retained(m, delegate), final(env).objc.objects@, this,
                    BarView { delegate, ..bar_of(&old(env).objc, this) })
            &&& !is_bar_in(m, this) ==> final(env).objc.objects@ == m
        },
{
    set_retained_field(env, this, BarField::Delegate, delegate)
}

/// `-[UINavigationBar delegate]`.
pub fn delegate(env: &mut Environment, this: id) -> (r: id)
    requires
        is_bar(&old(env).objc, this),
    ensures
        *final(env) == *old(env),
        r == bar_of(&old(env).objc, this).delegate,
{
    get_bar(&env.objc, this).0
}

/// `-[UINavigationBar pushNavigationItem:animated:]`: a non-null item is
/// retained and becomes the top item.
pub fn pushNavigationItem(env: &mut Environment, this: id, item: id, animated: bool)
    requires
        old(env).wf(),
        is_bar(&old(env).objc, this),
        old(env).objc.can_retain(item),
    ensures
        only_objc_changed(old(env), final(env)),
        item == nil ==> *final(env) == *old(env),
        item != nil ==> bar_updated(retained(old(env).objc.objects@, item), final(env).objc.objects@, this,
            BarView { items: bar_of(&old(env).objc, this).items.push(item), ..bar_of(&old(env).objc, this) }),
{
    if item == nil {
        return;
    }
    env.objc.retain(item);
    let (d, mut items, bt, t, tr) = get_bar(&env.objc, this);
    items.push(item);
    set_bar(&mut env.objc, this, d, items, bt, t, tr);
}

/// `-[UINavigationBar popNavigationItemAnimated:]`: takes off and returns
/// the top item (its reference goes to the caller), or null when there is
/// none.
pub fn popNavigationItemAnimated(env: &mut Environment, this: id, animated: bool) -> (r: id)
    requires
        old(env).wf(),
        is_bar(&old(env).objc, this),
    ensures
        only_objc_changed(old(env), final(env)),
        ({
            let v = bar_of(&old(env).objc, this);
            if v.items.len() == 0 {
                r == nil && *final(env) == *old(env)
            } else {
                r == v.items.last() && bar_updated(old(env).objc.objects@, final(env).objc.objects@, this,
                    BarView { items: v.items.drop_last(), ..v })
            }
        }),
{
    let (d, mut items, bt, t, tr) = get_bar(&env.objc, this);
    match items.pop() {
        None => nil,
        Some(item) => {
            set_bar(&mut env.objc, this, d, items, bt, t, tr);
            item
        },
    }
}

/// `-[UINavigationBar topItem]`: the top item, or null.
pub fn topItem(env: &mut Environment, this: id) -> (r: id)
    requires
        is_bar(&old(env).objc, this),
    ensures
        *final(env) == *old(env),
        ({
            let items = bar_of(&old(env).objc, this).items;
            r == if items.len() > 0 { items.last() } else { nil }
        }),
{
    let (_, items, _, _, _) = get_bar(&env.objc, this);
    if items.len() > 0 {
        items[items.len() - 1]
    } else {
        nil
    }
}

/// `-[UINavigationBar backItem]`: the item under the top one, or null.
pub fn backItem(env: &mut Environment, this: id) -> (r: id)
    requires
        is_bar(&old(env).objc, this),
    ensures
        *final(env) == *old(env),
        ({
            let items = bar_of(&old(env).objc, this).items;
            r == if items.len() >= 2 { items[items.len() - 2] } else { nil }
        }),
{
    let (_, items, _, _, _) = get_bar(&env.objc, this);
    if items.len() >= 2 {
        items[items.len() - 2]
    } else {
        nil
    }
}

/// `-[UINavigationBar setItems:animated:]`: empties the item stack,
/// releasing each item in order; the new items are not taken up.
pub fn setItems(env: &mut Environment, this: id, items: id, animated: bool)
    requires
        old(env).wf(),
        is_bar(&old(env).objc, this),
    ensures
        only_objc_changed(old(env), final(env)),
        exists|m: Seq<Option<Object>>| #[trigger] bar_updated(old(env).objc.objects@, m, this,
            with_items(bar_of(&old(env).objc, this), Seq::empty()))
            && released_seq(m, final(env).objc.objects@, bar_of(&old(env).objc, this).items),
{
    let (d, old_items, bt, t, tr) = get_bar(&env.objc, this);
    let empty: Vec<id> = Vec::new();
    assert(empty@ =~= Seq::<id>::empty());
    set_bar(&mut env.objc, this, d, empty, bt, t, tr);
    let ghost m = env.objc.objects@;
    env.objc.release_each(&old_items);
    assert(bar_updated(old(env).objc.objects@, m, this, with_items(bar_of(&old(env).objc, this), Seq::empty())));
}

/// `-[UINavigationBar setBarTintColor:]`: the old color is released, the
/// new one retained; see [set_retained_field].
pub fn setBarTintColor(env: &mut Environment, this: id, color: id)
    requires
        old(env).wf(),
        is_bar(&old(env).objc, this),
        old(env).objc.can_retain(color),
    ensures
        only_objc_changed(old(env), final(env)),
        exists|m: Seq<Option<Object>>| #[trigger] released(old(env).objc.objects@, m, bar_of(&old(env).objc, this).bar_tint_color) && {
            &&& is_bar_in(m, this) ==> bar_updated(retained(m, color), final(env).objc.objects@, this,
                    BarView { bar_tint_color: color, ..bar_of(&old(env).objc, this) })
            &&& !is_bar_in(m, this) ==> final(env).objc.objects@ == m
        },
{
    set_retained_field(env, this, BarField::BarTintColor, color)
}

/// `-[UINavigationBar setTintColor:]`: the old color is released, the new
/// one retained; see [set_retained_field].
pub fn setTintColor(env: &mut Environment, this: id, color: id)
    requires
        old(env).wf(),
        is_bar(&old(env).objc, this),
        old(env).objc.can_retain(color),
    ensures
        only_objc_changed(old(env), final(env)),
        exists|m: Seq<Option<Object>>| #[trigger] released(old(env).objc.objects@, m, bar_of(&old(env).objc, this).tint_color) && {
            &&& is_bar_in(m, this) ==> bar_updated(retained(m, color), final(env).objc.objects@, this,
                    BarView { tint_color: color, ..bar_of(&old(env).objc, this) })
            &&& !is_bar_in(m, this) ==> final(env).objc.objects@ == m
        },
{
    set_retained_field(env, this, BarField::TintColor, color)
}

/// `-[UINavigationBar setTranslucent:]`.
pub fn setTranslucent(env: &mut Environment, this: id, translucent: bool)
    requires
        old(env).wf(),
        is_bar(&old(env).objc, this),
    ensures
        only_objc_changed(old(env), final(env)),
        bar_updated(old(env).objc.objects@, final(env).objc.objects@, this,
            BarView { translucent, ..bar_of(&old(env).objc, this) }),
{
    let (d, items, bt, t, _) = get_bar(&env.objc, this);
    set_bar(&mut env.objc, this, d, items, bt, t, translucent);
}

/// `-[UINavigationBar isTranslucent]`.
pub fn isTranslucent(env: &mut Environment, this: id) -> (r: bool)
    requires
        is_bar(&old(env).objc, this),
    ensures
        *final(env) == *old(env),
        r == bar_of(&old(env).objc, this).translucent,
{
    get_bar(&env.objc, this).4
}

/// `popNavigationItemAnimated:` right after `pushNavigationItem:animated:`
/// of a non-null item returns that item and leaves the bar's fields as
/// they were before the push.
pub proof fn law_push_then_pop(
    s0: Seq<Option<Object>>,
    s1: Seq<Option<Object>>,
    s2: Seq<Option<Object>>,
    bar: id,
    item: id,
    popped: id,
)
    requires
        is_bar_in(s0, bar),
        item != nil,
        bar_updated(retained(s0, item), s1, bar, BarView { items: bar_in(s0, bar).items.push(item), ..bar_in(s0, bar) }),
        popped == bar_in(s1, bar).items.last(),
        bar_updated(s1, s2, bar, BarView { items: bar_in(s1, bar).items.drop_last(), ..bar_in(s1, bar) }),
    ensures
        popped == item,
        bar_in(s2, bar) == bar_in(s0, bar),
{
    assert(bar_in(s1, bar).items.drop_last() =~= bar_in(s0, bar).items);
}

} // verus!

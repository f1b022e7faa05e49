//! `UIActionSheet`: its title, delegate and buttons. Showing and
//! dismissing the sheet only log.
//!
//! Deallocation gives up the references to the title, the delegate and
//! the button titles (see `crate::objc::children`).

use vstd::prelude::*;
use crate::objc::{id, nil, ObjC, HostObject, Object, retained};
use crate::environment::{Environment, only_objc_changed};
use crate::frameworks::foundation::{NSInteger, retain_each, retained_all, can_retain_all, lemma_retained_all_len};

verus! {

/// An action sheet: its title, delegate and button titles, and which of
/// the buttons cancels and which destroys (-1 for none).
pub struct UIActionSheetHostObject {
    pub title: id,
    pub delegate: id,
    pub cancel_button_index: i32,
    pub destructive_button_index: i32,
    pub buttons: Vec<id>,
}

impl UIActionSheetHostObject {
    /// An action sheet with no title, delegate or buttons.
    pub fn new() -> (r: Self)
        ensures
            r.title == nil,
            r.delegate == nil,
            r.cancel_button_index == -1,
            r.destructive_button_index == -1,
            r.buttons@ == Seq::<id>::empty(),
    {
        let buttons: Vec<id> = Vec::new();
        assert(buttons@ =~= Seq::<id>::empty());
        Self { title: nil, delegate: nil, cancel_button_index: -1, destructive_button_index: -1, buttons }
    }
}

/// The fields of an action sheet, its buttons as a sequence.
pub struct SheetView {
    pub title: id,
    pub delegate: id,
    pub cancel_button_index: i32,
    pub destructive_button_index: i32,
    pub buttons: Seq<id>,
}

/// `o` is a live action sheet in the store `s`.
pub open spec fn is_sheet_in(s: Seq<Option<Object>>, o: id) -> bool {
    1 <= o <= s.len() && s[o - 1] is Some && s[o - 1]->0.host is ActionSheet
}

/// The fields of the action sheet `o` in the store `s`.
pub open spec fn sheet_in(s: Seq<Option<Object>>, o: id) -> SheetView {
    let h = s[o - 1]->0.host->ActionSheet_0;
    SheetView {
        title: h.title,
        delegate: h.delegate,
        cancel_button_index: h.cancel_button_index,
        destructive_button_index: h.destructive_button_index,
        buttons: h.buttons@,
    }
}

/// `o` is a live action sheet.
pub open spec fn is_sheet(objc: &ObjC, o: id) -> bool {
    is_sheet_in(objc.objects@, o)
}

/// The fields of the action sheet `o`.
pub open spec fn sheet_of(objc: &ObjC, o: id) -> SheetView {
    sheet_in(objc.objects@, o)
}

/// `s1` is `s0` with the action sheet `o` holding the fields `v`.
pub open spec fn sheet_updated(s0: Seq<Option<Object>>, s1: Seq<Option<Object>>, o: id, v: SheetView) -> bool {
    &&& s1.len() == s0.len()
    &&& is_sheet_in(s0, o)
    &&& is_sheet_in(s1, o)
    &&& s1[o - 1]->0.retain_count == s0[o - 1]->0.retain_count
    &&& s1[o - 1]->0.is_static == s0[o - 1]->0.is_static
    &&& sheet_in(s1, o) == v
    &&& forall|i: int| 0 <= i < s1.len() && i != o - 1 ==> #[trigger] s1[i] == s0[i]
}

/// The buttons of an action sheet, copied, with its other fields.
fn get_sheet(objc: &ObjC, o: id) -> (r: (id, id, i32, i32, Vec<id>))
    requires
        is_sheet(objc, o),
    ensures
        r.0 == sheet_of(objc, o).title,
        r.1 == sheet_of(objc, o).delegate,
        r.2 == sheet_of(objc, o).cancel_button_index,
        r.3 == sheet_of(objc, o).destructive_button_index,
        r.4@ == sheet_of(objc, o).buttons,
{
    match objc.host(o) {
        HostObject::ActionSheet(h) => (h.title, h.delegate, h.cancel_button_index, h.destructive_button_index,
            crate::objc::copy_ids(&h.buttons)),
        _ => vstd::pervasive::unreached(),
    }
}

/// Sets the fields of an action sheet.
fn set_sheet(objc: &mut ObjC, o: id, title: id, delegate: id, cancel: i32, destructive: i32, buttons: Vec<id>)
    requires
        is_sheet(old(objc), o),
    ensures
        sheet_updated(old(objc).objects@, final(objc).objects@, o, SheetView {
            title, delegate, cancel_button_index: cancel, destructive_button_index: destructive, buttons: buttons@,
        }),
{
    objc.replace_host(o, HostObject::ActionSheet(UIActionSheetHostObject {
        title,
        delegate,
        cancel_button_index: cancel,
        destructive_button_index: destructive,
        buttons,
    }));
}

/// `+[UIActionSheet allocWithZone:]`: a new, empty action sheet.
pub fn allocWithZone(env: &mut Environment) -> (r: id)
    requires
        old(env).wf(),
        old(env).objc.has_room(),
    ensures
        only_objc_changed(old(env), final(env)),
        r == old(env).objc.objects@.len() + 1,
        final(env).objc.objects@.len() == old(env).objc.objects@.len() + 1,
        final(env).objc.objects@.take(old(env).objc.objects@.len() as int) == old(env).objc.objects@,
        is_sheet(&final(env).objc, r),
        final(env).objc.obj(r).retain_count == 1,
        !final(env).objc.obj(r).is_static,
        sheet_of(&final(env).objc, r) == (SheetView {
            title: nil, delegate: nil, cancel_button_index: -1i32, destructive_button_index: -1i32, buttons: Seq::empty(),
        }),
{
    let r = env.objc.alloc_object(HostObject::ActionSheet(UIActionSheetHostObject::new()));
    assert(env.objc.objects@.take(old(env).objc.objects@.len() as int) =~= old(env).objc.objects@);
    r
}

/// The buttons an action sheet starts with: the destructive one, then the
/// cancel one, each where given.
pub open spec fn initial_buttons(cancel: id, destructive: id) -> Seq<id> {
    (if destructive != nil { seq![destructive] } else { Seq::empty() })
        + (if cancel != nil { seq![cancel] } else { Seq::empty() })
}

/// The fields an action sheet has after `initWithTitle:...`.
pub open spec fn sheet_after_init(title: id, delegate: id, cancel: id, destructive: id) -> SheetView {
    let b = initial_buttons(cancel, destructive);
    SheetView {
        title,
        delegate,
        cancel_button_index: if cancel != nil { (b.len() - 1) as i32 } else { -1i32 },
        destructive_button_index: if destructive != nil { 0i32 } else { -1i32 },
        buttons: b,
    }
}

/// After `initWithTitle:...` a sheet has one button for each title given
/// (cancel and destructive) and no other; when a cancel title is given,
/// whether or not a destructive one is, the cancel index is that of a
/// button holding it, and likewise for a destructive title; an index with
/// no title given is -1.
pub proof fn law_init_buttons(title: id, delegate: id, cancel: id, destructive: id)
    ensures
        ({
            let v = sheet_after_init(title, delegate, cancel, destructive);
            &&& v.title == title
            &&& v.delegate == delegate
            &&& v.buttons.len() == (if cancel != nil { 1int } else { 0int }) + (if destructive != nil { 1int } else { 0int })
            &&& cancel != nil ==> 0 <= v.cancel_button_index < v.buttons.len()
                && v.buttons[v.cancel_button_index as int] == cancel
            &&& cancel == nil ==> v.cancel_button_index == -1
            &&& destructive != nil ==> 0 <= v.destructive_button_index < v.buttons.len()
                && v.buttons[v.destructive_button_index as int] == destructive
            &&& destructive == nil ==> v.destructive_button_index == -1
            &&& forall|i: int| 0 <= i < v.buttons.len() ==> #[trigger] v.buttons[i] == cancel || v.buttons[i] == destructive
        }),
{
}

/// `-[UIActionSheet initWithTitle:delegate:cancelButtonTitle:
/// destructiveButtonTitle:otherButtonTitles:]`: retains the title,
/// delegate and the two button titles (those given), and makes the
/// buttons the destructive one then the cancel one. The other titles are
/// not looked at. Buttons held before are dropped without being released.
pub fn initWithTitle(
    env: &mut Environment,
    this: id,
    title: id,
    delegate: id,
    cancel: id,
    destructive: id,
    others: id,
) -> (r: id)
    requires
        old(env).wf(),
        is_sheet(&old(env).objc, this),
        can_retain_all(&old(env).objc, seq![title, delegate, cancel, destructive]),
    ensures
        only_objc_changed(old(env), final(env)),
        r == this,
        sheet_updated(retained_all(old(env).objc.objects@, seq![title, delegate, cancel, destructive]),
            final(env).objc.objects@, this, sheet_after_init(title, delegate, cancel, destructive)),
{
    let args: Vec<id> = vec![title, delegate, cancel, destructive];
    retain_each(&mut env.objc, &args);
    proof {
        lemma_retained_all_len(old(env).objc.objects@, args@);
        crate::frameworks::foundation::lemma_retained_all_host(old(env).objc.objects@, args@, this - 1);
    }
    let mut buttons: Vec<id> = Vec::new();
    let mut cancel_index: i32 = -1;
    let mut destructive_index: i32 = -1;
    if destructive != nil {
        destructive_index = buttons.len() as i32;
        buttons.push(destructive);
    }
    if cancel != nil {
        cancel_index = buttons.len() as i32;
        buttons.push(cancel);
    }
    assert(buttons@ =~= initial_buttons(cancel, destructive));
    set_sheet(&mut env.objc, this, title, delegate, cancel_index, destructive_index, buttons);
    this
}

/// `-[UIActionSheet addButtonWithTitle:]`: -1 for a null title; else the
/// title is retained and added as the last button, whose index is
/// returned.
pub fn addButtonWithTitle(env: &mut Environment, this: id, title: id) -> (r: NSInteger)
    requires
        old(env).wf(),
        is_sheet(&old(env).objc, this),
        sheet_of(&old(env).objc, this).buttons.len() < i32::MAX,
        old(env).objc.can_retain(title),
    ensures
        only_objc_changed(old(env), final(env)),
        title == nil ==> r == -1 && *final(env) == *old(env),
        title != nil ==> {
            let v = sheet_of(&old(env).objc, this);
            &&& r == v.buttons.len()
            &&& sheet_updated(retained(old(env).objc.objects@, title), final(env).objc.objects@, this,
                    SheetView { buttons: v.buttons.push(title), ..v })
        },
{
    if title == nil {
        return -1;
    }
    env.objc.retain(title);
    let (t, d, c, x, mut buttons) = get_sheet(&env.objc, this);
    let index = buttons.len() as i32;
    buttons.push(title);
    set_sheet(&mut env.objc, this, t, d, c, x, buttons);
    index
}

/// `-[UIActionSheet buttonTitleAtIndex:]`: the title of the button at
/// `index`, null when there is none.
pub fn buttonTitleAtIndex(env: &mut Environment, this: id, index: NSInteger) -> (r: id)
    requires
        is_sheet(&old(env).objc, this),
    ensures
        *final(env) == *old(env),
        r == if 0 <= index < sheet_of(&old(env).objc, this).buttons.len() {
            sheet_of(&old(env).objc, this).buttons[index as int]
        } else {
            nil
        },
{
    let (_, _, _, _, buttons) = get_sheet(&env.objc, this);
    if index < 0 || index as usize >= buttons.len() {
        nil
    } else {
        buttons[index as usize]
    }
}

/// `-[UIActionSheet numberOfButtons]`.
pub fn numberOfButtons(env: &mut Environment, this: id) -> (r: NSInteger)
    requires
        is_sheet(&old(env).objc, this),
        sheet_of(&old(env).objc, this).buttons.len() <= i32::MAX,
    ensures
        *final(env) == *old(env),
        r == sheet_of(&old(env).objc, this).buttons.len(),
{
    let (_, _, _, _, buttons) = get_sheet(&env.objc, this);
    buttons.len() as i32
}

} // verus!

//! Decisions of a small Wayland compositor: key bindings, the stacking order of
//! its views, which views an output frame renders, and the capabilities its
//! seat advertises.  Views are named by ids; the front of the stack is index 0.
use vstd::prelude::*;

verus! {

/// How pointer motion is interpreted.
#[derive(PartialEq, Eq, Structural, Copy, Clone, Debug)]
pub enum CursorMode {
    Passthrough,
    Move,
    Resize,
}

/// The xkbcommon keysym of Escape.
pub const XKB_KEY_ESCAPE: u32 = 0xff1b;

/// The xkbcommon keysym of F1.
pub const XKB_KEY_F1: u32 = 0xffbe;

/// The wlroots modifier bit of Alt.
pub const WLR_MODIFIER_ALT: u32 = 8;

/// The Wayland seat capability of a pointer.
pub const WL_SEAT_CAPABILITY_POINTER: u32 = 1;

/// The Wayland seat capability of a keyboard.
pub const WL_SEAT_CAPABILITY_KEYBOARD: u32 = 2;

/// What a compositor key binding does.
#[derive(PartialEq, Eq, Structural, Copy, Clone, Debug)]
pub enum KeyBinding {
    /// Stop the display.
    Terminate,
    /// Focus the view at this index of the view list, which becomes the
    /// current one.
    FocusView(usize),
    /// The key is a binding, but there is nothing to do.
    Nothing,
    /// The key is no binding; it goes to the client.
    Unhandled,
}

impl KeyBinding {
    /// Whether the compositor consumed the key.
    pub fn handled(&self) -> (r: bool)
        ensures
            r == !(*self is Unhandled),
    {
        match self {
            KeyBinding::Unhandled => false,
            _ => true,
        }
    }
}

/// The binding of keysym `sym` with `views_len` views, of which the one at
/// `views_idx` is current: Escape terminates; F1 moves to the next view,
/// cyclically, when there are at least two; every other key is unhandled.
pub open spec fn spec_keybinding(sym: u32, views_len: usize, views_idx: usize) -> KeyBinding {
    if sym == XKB_KEY_ESCAPE {
        KeyBinding::Terminate
    } else if sym == XKB_KEY_F1 {
        if views_len >= 2 {
            KeyBinding::FocusView(((views_idx + 1) % (views_len as int)) as usize)
        } else {
            KeyBinding::Nothing
        }
    } else {
        KeyBinding::Unhandled
    }
}

/// Decides what keysym `sym` does as a compositor binding.
pub fn handle_keybinding(sym: u32, views_len: usize, views_idx: usize) -> (r: KeyBinding)
    requires
        sym == XKB_KEY_F1 && views_len >= 2 ==> views_idx < usize::MAX,
    ensures
        r == spec_keybinding(sym, views_len, views_idx),
        r matches KeyBinding::FocusView(i) ==> i < views_len,
{
    if sym == XKB_KEY_ESCAPE {
        KeyBinding::Terminate
    } else if sym == XKB_KEY_F1 {
        if views_len >= 2 {
            KeyBinding::FocusView((views_idx + 1) % views_len)
        } else {
            KeyBinding::Nothing
        }
    } else {
        KeyBinding::Unhandled
    }
}

/// Whether a key event is offered to the bindings: Alt is held and the key
/// went down.
pub fn bindings_apply(modifiers: u32, pressed: bool) -> (r: bool)
    ensures
        r == ((modifiers & WLR_MODIFIER_ALT) != 0 && pressed),
{
    (modifiers & WLR_MODIFIER_ALT) != 0 && pressed
}

/// The xkbcommon keycode of a libinput keycode.
pub fn xkb_keycode(libinput_keycode: u32) -> (r: u32)
    requires
        libinput_keycode + 8 <= u32::MAX,
    ensures
        r == libinput_keycode + 8,
{
    libinput_keycode + 8
}

/// The capabilities a seat advertises: always a pointer, and a keyboard once
/// one is attached.
pub fn seat_capabilities(has_keyboard: bool) -> (r: u32)
    ensures
        r == if has_keyboard {
            WL_SEAT_CAPABILITY_POINTER | WL_SEAT_CAPABILITY_KEYBOARD
        } else {
            WL_SEAT_CAPABILITY_POINTER
        },
{
    if has_keyboard {
        WL_SEAT_CAPABILITY_POINTER | WL_SEAT_CAPABILITY_KEYBOARD
    } else {
        WL_SEAT_CAPABILITY_POINTER
    }
}

/// `k` is the first position of `view` in `views`.
pub open spec fn first_position(views: Seq<u64>, view: u64, k: int) -> bool {
    &&& 0 <= k < views.len()
    &&& views[k] == view
    &&& forall|j: int| 0 <= j < k ==> views[j] != view
}

/// The first position of `view` in `views`, if it occurs.
fn find_view(views: &Vec<u64>, view: u64) -> (r: Option<usize>)
    ensures
        r matches Some(k) ==> first_position(views@, view, k as int),
        r is None ==> !views@.contains(view),
{
    let mut i: usize = 0;
    while i < views.len()
        invariant
            i <= views@.len(),
            forall|j: int| 0 <= j < i ==> views@[j] != view,
        decreases views@.len() - i,
    {
        if views[i] == view {
            return Some(i);
        }
        i = i + 1;
    }
    None
}

/// Moves `view` to the front of the stack, as focusing it does; a view that is
/// not in the stack leaves it unchanged.
pub fn raise_view(views: &mut Vec<u64>, view: u64)
    ensures
        !old(views)@.contains(view) ==> final(views)@ == old(views)@,
        old(views)@.contains(view) ==> exists|k: int|
            first_position(old(views)@, view, k) && final(views)@ == seq![view] + old(
                views,
            )@.remove(k),
{
    match find_view(views, view) {
        None => {},
        Some(k) => {
            let v = views.remove(k);
            views.insert(0, v);
            assert(final(views)@ =~= seq![view] + old(views)@.remove(k as int));
        },
    }
}

/// Adds the view of a new surface at the back of the stack; only toplevel
/// surfaces get a view.
pub fn add_toplevel_view(views: &mut Vec<u64>, view: u64, is_toplevel: bool)
    ensures
        is_toplevel ==> final(views)@ == old(views)@.push(view),
        !is_toplevel ==> final(views)@ == old(views)@,
{
    if is_toplevel {
        views.push(view);
    }
}

/// Takes a destroyed view out of the stack.  The view must be in it.
pub fn remove_view(views: &mut Vec<u64>, view: u64)
    requires
        old(views)@.contains(view),
    ensures
        exists|k: int|
            first_position(old(views)@, view, k) && final(views)@ == old(views)@.remove(k),
{
    match find_view(views, view) {
        None => {},
        Some(k) => {
            views.remove(k);
        },
    }
}

/// The mapped views at positions `k` and after, from the back of the stack to
/// the front.
pub open spec fn render_order_from(mapped: Seq<bool>, k: int) -> Seq<usize>
    decreases mapped.len() - k,
{
    if k < 0 || k >= mapped.len() {
        Seq::empty()
    } else if mapped[k] {
        render_order_from(mapped, k + 1).push(k as usize)
    } else {
        render_order_from(mapped, k + 1)
    }
}

/// The positions of the views an output frame renders, back to front: every
/// mapped view, skipping unmapped ones, from the end of the stack to its front.
pub fn render_order(mapped: &Vec<bool>) -> (r: Vec<usize>)
    ensures
        r@ == render_order_from(mapped@, 0),
{
    let mut out: Vec<usize> = Vec::new();
    let mut i: usize = mapped.len();
    while i > 0
        invariant
            i <= mapped@.len(),
            out@ == render_order_from(mapped@, i as int),
        decreases i,
    {
        i = i - 1;
        if mapped[i] {
            out.push(i);
        }
    }
    out
}

} // verus!

verus! {

/// Raising a view neither adds nor loses a view: the stack after it holds the
/// same views as before, with the raised one in front.
pub proof fn lemma_raise_permutes(views: Seq<u64>, view: u64, k: int)
    requires
        first_position(views, view, k),
    ensures
        (seq![view] + views.remove(k)).to_multiset() =~= views.to_multiset(),
        (seq![view] + views.remove(k)).len() == views.len(),
        (seq![view] + views.remove(k))[0] == view,
{
    broadcast use vstd::seq_lib::group_to_multiset_ensures;

    vstd::seq_lib::lemma_multiset_commutative(seq![view], views.remove(k));
    assert(seq![view].to_multiset() =~= vstd::multiset::Multiset::empty().insert(view)) by {
        assert(seq![view] =~= Seq::<u64>::empty().push(view));
    }
}

/// Removing a destroyed view takes exactly one occurrence of it out of the
/// stack and keeps every other view.
pub proof fn lemma_remove_view_drops_one(views: Seq<u64>, view: u64, k: int)
    requires
        first_position(views, view, k),
    ensures
        views.remove(k).to_multiset() =~= views.to_multiset().remove(view),
        views.remove(k).len() == views.len() - 1,
{
    broadcast use vstd::seq_lib::group_to_multiset_ensures;

}

/// A frame renders exactly the mapped views, each once, from the back of the
/// stack to its front.
pub proof fn lemma_render_order_exact(mapped: Seq<bool>, k: int)
    requires
        0 <= k <= mapped.len(),
        mapped.len() <= usize::MAX,
    ensures
        forall|j: int|
            0 <= j < mapped.len() ==> (#[trigger] render_order_from(mapped, k).contains(
                j as usize,
            ) <==> (k
                <= j && mapped[j])),
        forall|a: int, b: int|
            0 <= a < b < render_order_from(mapped, k).len() ==> #[trigger] render_order_from(
                mapped,
                k,
            )[a] > #[trigger] render_order_from(mapped, k)[b],
        forall|a: int|
            0 <= a < render_order_from(mapped, k).len() ==> k <= #[trigger] render_order_from(
                mapped,
                k,
            )[a] < mapped.len(),
    decreases mapped.len() - k,
{
    if k < mapped.len() {
        lemma_render_order_exact(mapped, k + 1);
        let prev = render_order_from(mapped, k + 1);
        let cur = render_order_from(mapped, k);
        if mapped[k] {
            assert(cur == prev.push(k as usize));
            assert forall|j: int| 0 <= j < mapped.len() implies (cur.contains(j as usize) <==> (k
                <= j && mapped[j])) by {
                if cur.contains(j as usize) {
                    let i = choose|i: int| 0 <= i < cur.len() && cur[i] == j as usize;
                    if i < prev.len() {
                        assert(prev.contains(j as usize));
                    }
                }
                if k < j && mapped[j] {
                    assert(prev.contains(j as usize));
                    let i = choose|i: int| 0 <= i < prev.len() && prev[i] == j as usize;
                    assert(cur[i] == j as usize);
                }
                if j == k {
                    assert(cur[prev.len() as int] == k as usize);
                }
            }
        } else {
            assert forall|j: int| 0 <= j < mapped.len() implies (cur.contains(j as usize) <==> (k
                <= j && mapped[j])) by {
                if j == k {
                    if cur.contains(j as usize) {
                        let i = choose|i: int| 0 <= i < cur.len() && cur[i] == j as usize;
                        assert(k + 1 <= cur[i]);
                    }
                }
            }
        }
    }
}

} // verus!

verus! {

/// F1 moves focus to the next view, and from the last view back to the first,
/// whenever there are at least two views: pressing it `views_len` times from
/// any view visits every view.
pub proof fn lemma_f1_cycles(views_len: usize, views_idx: usize)
    requires
        views_len >= 2,
        views_idx < views_len,
    ensures
        views_idx + 1 < views_len ==> spec_keybinding(XKB_KEY_F1, views_len, views_idx)
            == KeyBinding::FocusView((views_idx + 1) as usize),
        views_idx + 1 == views_len ==> spec_keybinding(XKB_KEY_F1, views_len, views_idx)
            == KeyBinding::FocusView(0),
{
    if views_idx + 1 < views_len {
        vstd::arithmetic::div_mod::lemma_small_mod((views_idx + 1) as nat, views_len as nat);
    }
}

} // verus!

//! Which handlers are in place.
use crate::effect::EffectView;
use crate::state::BackendView;
use vstd::prelude::*;

verus! {

/// The state with other handlers of mouse and wheel events.
pub open spec fn with_pointer(state: BackendView, mouse: bool, wheel: bool) -> BackendView {
    BackendView { mouse, wheel, ..state }
}

/// New handlers of mouse and wheel events take the place of those that were
/// there. Wherever the work stops, the old ones are gone first: with none, one
/// or both of the new ones in place.
pub proof fn law_pointer_handlers_are_replaced(state: BackendView, done: int)
    requires
        2 <= done <= 4,
    ensures
        state.mouse_effects().len() == 4,
        state.accepts_all(state.mouse_effects()),
        state.after_all(state.mouse_effects().take(done)) == with_pointer(
            state,
            done >= 3,
            done >= 4,
        ),
        state.after_all(state.clear_mouse_effects()) == with_pointer(state, false, false),
{
    let all = state.mouse_effects();
    let none = Seq::<EffectView>::empty();
    assert(state.after_all(none) == state);
    assert(all.take(0) =~= none);
    assert(all.take(1).drop_last() =~= all.take(0));
    assert(all.take(2).drop_last() =~= all.take(1));
    assert(all.take(3).drop_last() =~= all.take(2));
    assert(all.take(4).drop_last() =~= all.take(3));
    assert(all.take(2) =~= state.clear_mouse_effects());
    assert(all.take(4) =~= all);
    assert(state.accepts_all(all.take(0)));
    assert(state.accepts_all(all.take(1)));
    assert(state.accepts_all(all.take(2)));
    assert(state.accepts_all(all.take(3)));
    assert(state.accepts_all(all.take(4)));
    assert(state.after_all(all.take(1)) == state.after(all[0]));
    assert(state.after_all(all.take(2)) =~= with_pointer(state, false, false));
    assert(state.after_all(all.take(3)) =~= with_pointer(state, true, false));
    assert(state.after_all(all.take(4)) =~= with_pointer(state, true, true));
}

/// A new handler of key events takes the place of the one that was there.
/// Wherever the work stops, the old one is gone first.
pub proof fn law_key_handler_is_replaced(state: BackendView, done: int)
    requires
        1 <= done <= 3,
    ensures
        state.key_effects().len() == 3,
        state.accepts_all(state.key_effects()),
        state.after_all(state.key_effects().take(done)) == (BackendView {
            key: done >= 3,
            ..state
        }),
        state.after_all(state.clear_key_effects()) == (BackendView { key: false, ..state }),
{
    let all = state.key_effects();
    let none = Seq::<EffectView>::empty();
    assert(state.after_all(none) == state);
    assert(all.take(0) =~= none);
    assert(all.take(1).drop_last() =~= all.take(0));
    assert(all.take(2).drop_last() =~= all.take(1));
    assert(all.take(3).drop_last() =~= all.take(2));
    assert(all.take(1) =~= state.clear_key_effects());
    assert(all.take(3) =~= all);
    assert(state.accepts_all(all.take(0)));
    assert(state.accepts_all(all.take(1)));
    assert(state.accepts_all(all.take(2)));
    assert(state.accepts_all(all.take(3)));
    assert(state.after_all(all.take(1)) =~= (BackendView { key: false, ..state }));
    assert(state.after_all(all.take(2)) =~= (BackendView { key: false, ..state }));
    assert(state.after_all(all.take(3)) =~= (BackendView { key: true, ..state }));
}

} // verus!

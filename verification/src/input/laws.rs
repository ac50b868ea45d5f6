//! What holds of every `InputSystem` across its operations.
use vstd::prelude::*;
use super::{
    ActionBinding, ActionKey, ActionState, InputEvent, InputView, RegistrationFailure, apply_event_spec,
    apply_events_spec, flush_spec, fnv1a_spec, register_one, update_spec,
};

verus! {

/// A registration changes neither the frame, the pending queue nor the
/// resize; it keeps every bound action, and every registered action keeps
/// its name, its state and the frames in which it last went down and up.
/// An action it adds is up, and has gone neither down nor up yet.
pub proof fn lemma_register_one_keeps(v: InputView, name: Seq<char>, binding: ActionBinding, k: u64, c: u64, key: ActionKey)
    ensures
        ({
            let w = register_one(v, name, binding).0;
            &&& w.frame == v.frame
            &&& w.window_resized == v.window_resized
            &&& w.pending == v.pending
            &&& v.doms_agree() ==> w.doms_agree()
            &&& v.names.contains_key(k) ==> {
                &&& w.names.contains_key(k) && w.names[k] == v.names[k]
                &&& w.states.contains_key(k) == v.states.contains_key(k) && w.states[k] == v.states[k]
                &&& w.last_down.contains_key(k) == v.last_down.contains_key(k) && w.last_down[k] == v.last_down[k]
                &&& w.last_up.contains_key(k) == v.last_up.contains_key(k) && w.last_up[k] == v.last_up[k]
            }
            &&& !v.names.contains_key(k) && w.names.contains_key(k) ==> {
                &&& w.states.contains_key(k) && w.states[k] == ActionState::Up(0)
                &&& w.last_down.contains_key(k) && w.last_down[k] == 0
                &&& w.last_up.contains_key(k) && w.last_up[k] == 0
            }
            &&& v.bindings.contains_key(c) && v.bindings[c].contains(key)
                ==> w.bindings.contains_key(c) && w.bindings[c].contains(key)
        }),
{
    let w = register_one(v, name, binding).0;
    if v.doms_agree() && w.names != v.names {
        assert(w.names.dom() =~= w.states.dom());
        assert(w.last_down.dom() =~= w.states.dom());
        assert(w.last_up.dom() =~= w.states.dom());
    }
    if v.bindings.contains_key(c) && v.bindings[c].contains(key) {
        let j = choose|j: int| 0 <= j < v.bindings[c].len() && v.bindings[c][j] == key;
        let code = binding.code();
        if code == c && w.bindings[c] != v.bindings[c] {
            assert(w.bindings[c][j] == key);
        }
    }
}

/// A registration that does not fail leaves the action registered under
/// its name and bound to its binding.
pub proof fn lemma_register_one_registers(v: InputView, name: Seq<char>, binding: ActionBinding)
    requires
        register_one(v, name, binding).1 is None,
    ensures
        ({
            let w = register_one(v, name, binding).0;
            let key = ActionKey::of_name(name);
            &&& w.names.contains_key(key.0)
            &&& w.names[key.0] == name
            &&& w.bound_to(binding).contains(key)
        }),
{
    let w = register_one(v, name, binding).0;
    let key = ActionKey::of_name(name);
    let code = binding.code();
    if v.bindings.contains_key(code) && !v.bindings[code].contains(key) {
        assert(w.bindings[code][v.bindings[code].len() as int] == key);
    } else if !v.bindings.contains_key(code) {
        assert(w.bindings[code][0] == key);
    }
}

/// Carrying out the pending registrations keeps the frame and the resize
/// and every bound action; every action registered before keeps its name,
/// its state and the frames in which it last went down and up, and every
/// action it adds is up and has gone neither down nor up yet. Where none
/// fails, the queue is left empty.
pub proof fn lemma_flush_keeps(v: InputView, k: u64, c: u64, key: ActionKey)
    ensures
        ({
            let (w, failure) = flush_spec(v);
            &&& w.frame == v.frame
            &&& w.window_resized == v.window_resized
            &&& failure is None ==> w.pending.len() == 0
            &&& v.doms_agree() ==> w.doms_agree()
            &&& v.names.contains_key(k) ==> {
                &&& w.names.contains_key(k) && w.names[k] == v.names[k]
                &&& w.states.contains_key(k) == v.states.contains_key(k) && w.states[k] == v.states[k]
                &&& w.last_down.contains_key(k) == v.last_down.contains_key(k) && w.last_down[k] == v.last_down[k]
                &&& w.last_up.contains_key(k) == v.last_up.contains_key(k) && w.last_up[k] == v.last_up[k]
            }
            &&& !v.names.contains_key(k) && w.names.contains_key(k) ==> {
                &&& w.states.contains_key(k) && w.states[k] == ActionState::Up(0)
                &&& w.last_down.contains_key(k) && w.last_down[k] == 0
                &&& w.last_up.contains_key(k) && w.last_up[k] == 0
            }
            &&& v.bindings.contains_key(c) && v.bindings[c].contains(key)
                ==> w.bindings.contains_key(c) && w.bindings[c].contains(key)
        }),
    decreases v.pending.len(),
{
    if v.pending.len() > 0 {
        let (name, binding) = v.pending[0];
        let rest = InputView { pending: v.pending.drop_first(), ..v };
        lemma_register_one_keeps(rest, name, binding, k, c, key);
        let (v1, failure) = register_one(rest, name, binding);
        if failure is None {
            lemma_flush_keeps(v1, k, c, key);
        }
    }
}

/// Read after write: once an update has carried out the pending
/// registrations without failing, every action that was pending is
/// registered under its name, bound to its binding, and found by its name.
pub proof fn lemma_flush_registers(v: InputView, i: int)
    requires
        0 <= i < v.pending.len(),
        flush_spec(v).1 is None,
    ensures
        ({
            let (name, binding) = v.pending[i];
            let key = ActionKey::of_name(name);
            let w = flush_spec(v).0;
            &&& w.names.contains_key(key.0)
            &&& w.names[key.0] == name
            &&& w.bound_to(binding).contains(key)
        }),
    decreases v.pending.len(),
{
    let (name, binding) = v.pending[0];
    let rest = InputView { pending: v.pending.drop_first(), ..v };
    let (v1, failure) = register_one(rest, name, binding);
    assert(failure is None);
    if i == 0 {
        lemma_register_one_registers(rest, name, binding);
        let key = ActionKey::of_name(name);
        lemma_flush_keeps(v1, key.0, binding.code(), key);
    } else {
        assert(v1.pending == v.pending.drop_first());
        assert(v1.pending[i - 1] == v.pending[i]);
        lemma_flush_registers(v1, i - 1);
    }
}

/// Events change neither the registered names, the bindings, the pending
/// queue nor the frame.
pub proof fn lemma_events_keep_registrations(v: InputView, events: Seq<InputEvent>)
    ensures
        ({
            let w = apply_events_spec(v, events).0;
            &&& w.names == v.names
            &&& w.bindings == v.bindings
            &&& w.pending == v.pending
            &&& w.frame == v.frame
            &&& w.states.dom() == v.states.dom()
            &&& w.last_down.dom() == v.last_down.dom()
            &&& w.last_up.dom() == v.last_up.dom()
        }),
    decreases events.len(),
{
    if events.len() > 0 && events[0] != InputEvent::Quit {
        let v1 = apply_event_spec(v, events[0]);
        assert(v1.states.dom() =~= v.states.dom());
        assert(v1.last_down.dom() =~= v.last_down.dom());
        assert(v1.last_up.dom() =~= v.last_up.dom());
        lemma_events_keep_registrations(v1, events.drop_first());
    }
}

/// Read after write, for the whole update: after `register_action` and an
/// update that succeeds, `get_action` finds the action by its name, and the
/// action is bound to its binding.
pub proof fn lemma_update_registers(v: InputView, events: Seq<InputEvent>, i: int)
    requires
        0 <= i < v.pending.len(),
        update_spec(v, events).1 is Ok,
    ensures
        ({
            let (name, binding) = v.pending[i];
            let key = ActionKey::of_name(name);
            let w = update_spec(v, events).0;
            &&& w.names.contains_key(key.0)
            &&& w.names[key.0] == name
            &&& w.bound_to(binding).contains(key)
            &&& w.pending.len() == 0
        }),
{
    let (name, binding) = v.pending[i];
    let key = ActionKey::of_name(name);
    let next = InputView { frame: (v.frame + 1) as u64, ..v };
    lemma_flush_registers(next, i);
    lemma_flush_keeps(next, key.0, binding.code(), key);
    lemma_events_keep_registrations(flush_spec(next).0, events);
}

/// Each update moves the frame counter on by exactly one, whatever it
/// carries out.
pub proof fn lemma_update_advances_frame(v: InputView, events: Seq<InputEvent>)
    requires
        v.frame < u64::MAX,
    ensures
        update_spec(v, events).0.frame == v.frame + 1,
{
    let next = InputView { frame: (v.frame + 1) as u64, ..v };
    lemma_flush_keeps(next, 0, 0, ActionKey(0));
    lemma_events_keep_registrations(flush_spec(next).0, events);
}

/// Registering the same action with the same binding a second time changes
/// nothing: names and bindings are kept once.
pub proof fn lemma_register_one_idempotent(v: InputView, name: Seq<char>, binding: ActionBinding)
    requires
        register_one(v, name, binding).1 is None,
    ensures
        register_one(register_one(v, name, binding).0, name, binding) == (register_one(v, name, binding).0, None::<RegistrationFailure>),
{
    lemma_register_one_registers(v, name, binding);
}

/// The queries agree with one another: a registered action is either down
/// or up and never both, and an action that is not registered is neither
/// down, up, pressed nor released. Every query of an `InputSystem` (its
/// frame, `get_action`, and the four action queries) promises `wf` of the
/// system it reads, so this holds of any system a caller holds.
pub proof fn lemma_action_queries_agree(v: InputView, key: ActionKey)
    requires
        v.wf(),
    ensures
        v.names.contains_key(key.0) <==> (v.is_down(key) || v.is_up(key)),
        !(v.is_down(key) && v.is_up(key)),
        v.is_pressed(key) ==> v.names.contains_key(key.0),
        v.is_released(key) ==> v.names.contains_key(key.0),
{
    assert(v.names.contains_key(key.0) == v.states.contains_key(key.0));
    assert(v.last_down.contains_key(key.0) == v.states.contains_key(key.0));
    assert(v.last_up.contains_key(key.0) == v.states.contains_key(key.0));
}

/// The code of the binding that a key or mouse button event is about, and
/// whether the binding goes down; nothing for any other event.
pub open spec fn binding_event_of(event: InputEvent) -> Option<(u64, bool)> {
    match event {
        InputEvent::KeyDown(s) => Some((ActionBinding::Scancode(s).code(), true)),
        InputEvent::KeyUp(s) => Some((ActionBinding::Scancode(s).code(), false)),
        InputEvent::MouseButtonDown(b) => Some((ActionBinding::MouseButton(b).code(), true)),
        InputEvent::MouseButtonUp(b) => Some((ActionBinding::MouseButton(b).code(), false)),
        _ => None,
    }
}

/// Whether the event puts the action down (`down`) or up, through a
/// binding that it is bound to.
pub open spec fn event_moves(bindings: Map<u64, Seq<ActionKey>>, event: InputEvent, key: ActionKey, down: bool) -> bool {
    match binding_event_of(event) {
        Some((code, d)) => d == down && bindings.contains_key(code) && bindings[code].contains(key),
        None => false,
    }
}

/// Whether one of the events before the first request to quit puts the
/// action down (`down`) or up.
pub open spec fn events_move(bindings: Map<u64, Seq<ActionKey>>, events: Seq<InputEvent>, key: ActionKey, down: bool) -> bool
    decreases events.len(),
{
    if events.len() == 0 {
        false
    } else if events[0] == InputEvent::Quit {
        false
    } else {
        event_moves(bindings, events[0], key, down) || events_move(bindings, events.drop_first(), key, down)
    }
}

/// What a run of events does to one registered action: it went down in
/// the current frame exactly when it had already or one of the events put
/// it down, and likewise for up; the frames are left alone where no event
/// moved it that way, and its state where no event moved it at all.
pub proof fn lemma_events_move_action(v: InputView, events: Seq<InputEvent>, key: ActionKey)
    requires
        v.states.contains_key(key.0),
        v.last_down.contains_key(key.0),
        v.last_up.contains_key(key.0),
    ensures
        ({
            let w = apply_events_spec(v, events).0;
            let k = key.0;
            &&& w.states.contains_key(k) && w.last_down.contains_key(k) && w.last_up.contains_key(k)
            &&& (w.last_down[k] == v.frame) <==> (v.last_down[k] == v.frame || events_move(v.bindings, events, key, true))
            &&& (w.last_up[k] == v.frame) <==> (v.last_up[k] == v.frame || events_move(v.bindings, events, key, false))
            &&& !events_move(v.bindings, events, key, true) ==> w.last_down[k] == v.last_down[k]
            &&& !events_move(v.bindings, events, key, false) ==> w.last_up[k] == v.last_up[k]
            &&& !events_move(v.bindings, events, key, true) && !events_move(v.bindings, events, key, false)
                ==> w.states[k] == v.states[k]
        }),
    decreases events.len(),
{
    if events.len() > 0 && events[0] != InputEvent::Quit {
        let e = events[0];
        let v1 = apply_event_spec(v, e);
        assert(ActionKey(key.0) == key);
        match binding_event_of(e) {
            Some((code, d)) => {
                assert(v1 == super::with_binding_event(v, code, d));
                if v.bindings.contains_key(code) && v.bindings[code].contains(key) {
                    if d {
                        assert(v1.last_down[key.0] == v.frame);
                    } else {
                        assert(v1.last_up[key.0] == v.frame);
                    }
                } else {
                    assert(v1.states[key.0] == v.states[key.0]);
                    assert(v1.last_down[key.0] == v.last_down[key.0]);
                    assert(v1.last_up[key.0] == v.last_up[key.0]);
                }
            },
            None => {},
        }
        lemma_events_move_action(v1, events.drop_first(), key);
    }
}

/// Pressed and released last for the frame in which they happen: after an
/// update that carries out its registrations, a registered action reads as
/// pressed exactly when one of the update's events (before any request to
/// quit) put it down through a binding of its own, even where a later one
/// put it up again, and as released exactly when one put it up. An action
/// that no event reached keeps its state, down or up.
pub proof fn lemma_update_presses(v: InputView, events: Seq<InputEvent>, key: ActionKey)
    requires
        v.wf(),
        v.frame < u64::MAX,
        update_spec(v, events).1 is Ok,
    ensures
        ({
            let w = update_spec(v, events).0;
            &&& w.names.contains_key(key.0) ==> {
                &&& w.is_pressed(key) <==> events_move(w.bindings, events, key, true)
                &&& w.is_released(key) <==> events_move(w.bindings, events, key, false)
            }
            &&& v.names.contains_key(key.0) && !events_move(w.bindings, events, key, true)
                && !events_move(w.bindings, events, key, false) ==> {
                &&& w.is_down(key) == v.is_down(key)
                &&& w.is_up(key) == v.is_up(key)
                &&& !w.is_pressed(key)
                &&& !w.is_released(key)
            }
        }),
{
    let k = key.0;
    let next = InputView { frame: (v.frame + 1) as u64, ..v };
    lemma_flush_keeps(next, k, 0, key);
    let f = flush_spec(next).0;
    lemma_events_keep_registrations(f, events);
    let w = update_spec(v, events).0;
    assert(w == apply_events_spec(f, events).0);
    if f.names.contains_key(k) {
        assert(f.states.contains_key(k));
        assert(f.last_down.contains_key(k) && f.last_down[k] < f.frame);
        assert(f.last_up.contains_key(k) && f.last_up[k] < f.frame);
        lemma_events_move_action(f, events, key);
    }
}

/// A key going down puts every action bound to that key down as of the
/// current frame, so each reads as pressed; actions bound elsewhere keep
/// their state and the frames in which they last went down and up.
pub proof fn lemma_key_down_presses(v: InputView, scancode: i32, key: ActionKey)
    requires
        v.wf(),
    ensures
        ({
            let w = apply_event_spec(v, InputEvent::KeyDown(scancode));
            let bound = v.bound_to(ActionBinding::Scancode(scancode));
            &&& bound.contains(key) ==> w.states.contains_key(key.0) && w.states[key.0] == ActionState::Down(v.frame)
                && w.is_down(key) && w.is_pressed(key)
            &&& !bound.contains(key) && v.states.contains_key(key.0) ==> w.states[key.0] == v.states[key.0]
                && w.last_down[key.0] == v.last_down[key.0] && w.last_up[key.0] == v.last_up[key.0]
        }),
{
    let bound = v.bound_to(ActionBinding::Scancode(scancode));
    assert(ActionKey(key.0) == key);
    if bound.contains(key) {
        let code = ActionBinding::Scancode(scancode).code();
        let j = choose|j: int| 0 <= j < bound.len() && bound[j] == key;
        assert(v.bindings.contains_key(code));
        assert(v.names.contains_key(v.bindings[code][j].0));
    }
}

/// Nothing after a request to quit is applied: the events that follow it
/// leave the state as the events before it made it.
pub proof fn lemma_quit_stops_events(v: InputView, before: Seq<InputEvent>, after: Seq<InputEvent>)
    requires
        !before.contains(InputEvent::Quit),
    ensures
        apply_events_spec(v, before + seq![InputEvent::Quit] + after) == (apply_events_spec(v, before).0, true),
    decreases before.len(),
{
    if before.len() == 0 {
        assert((before + seq![InputEvent::Quit] + after)[0] == InputEvent::Quit);
    } else {
        let all = before + seq![InputEvent::Quit] + after;
        assert(all[0] == before[0]);
        assert(before[0] != InputEvent::Quit);
        assert(all.drop_first() =~= before.drop_first() + seq![InputEvent::Quit] + after);
        assert forall|j: int| 0 <= j < before.drop_first().len() implies before.drop_first()[j] != InputEvent::Quit by {
            assert(before[j + 1] != InputEvent::Quit);
        }
        lemma_quit_stops_events(apply_event_spec(v, before[0]), before.drop_first(), after);
    }
}

/// A reported name collision is genuine: the two names differ and hash to
/// the same key. Registrations keep every name filed under its own hash.
pub proof fn lemma_collision_is_genuine(v: InputView)
    requires
        v.names_hashed(),
    ensures
        flush_spec(v).0.names_hashed(),
        flush_spec(v).1 matches Some(RegistrationFailure::NameCollision { existing, new })
            ==> existing != new && ActionKey::of_name(existing) == ActionKey::of_name(new),
    decreases v.pending.len(),
{
    if v.pending.len() > 0 {
        let (name, binding) = v.pending[0];
        let rest = InputView { pending: v.pending.drop_first(), ..v };
        let (v1, failure) = register_one(rest, name, binding);
        assert(v1.names_hashed());
        if failure is None {
            lemma_collision_is_genuine(v1);
        }
    }
}

/// Registering an action again, with the same or another binding, keeps
/// what it was doing: its name, its state and the frames in which it last
/// went down and up stay as they were, and it is bound to the new binding
/// as well.
pub proof fn lemma_reregistration_keeps_state(v: InputView, i: int)
    requires
        0 <= i < v.pending.len(),
        flush_spec(v).1 is None,
        v.names.contains_key(ActionKey::of_name(v.pending[i].0).0),
    ensures
        ({
            let (name, binding) = v.pending[i];
            let k = ActionKey::of_name(name).0;
            let w = flush_spec(v).0;
            &&& w.names[k] == v.names[k]
            &&& w.states.contains_key(k) == v.states.contains_key(k) && w.states[k] == v.states[k]
            &&& w.last_down.contains_key(k) == v.last_down.contains_key(k) && w.last_down[k] == v.last_down[k]
            &&& w.last_up.contains_key(k) == v.last_up.contains_key(k) && w.last_up[k] == v.last_up[k]
            &&& w.bound_to(binding).contains(ActionKey::of_name(name))
        }),
{
    let (name, binding) = v.pending[i];
    let key = ActionKey::of_name(name);
    lemma_flush_keeps(v, key.0, 0, key);
    lemma_flush_registers(v, i);
}

/// Updates one after another, each with the events of its own frame.
pub open spec fn updates_spec(v: InputView, frames: Seq<Seq<InputEvent>>) -> InputView
    decreases frames.len(),
{
    if frames.len() == 0 {
        v
    } else {
        updates_spec(update_spec(v, frames[0]).0, frames.drop_first())
    }
}

/// Whether every one of the updates carries out its registrations.
pub open spec fn updates_succeed(v: InputView, frames: Seq<Seq<InputEvent>>) -> bool
    decreases frames.len(),
{
    frames.len() == 0 || (update_spec(v, frames[0]).1 is Ok && updates_succeed(
        update_spec(v, frames[0]).0,
        frames.drop_first(),
    ))
}

/// The last window size that the events report before any request to
/// quit, if they report one.
pub open spec fn last_resize(events: Seq<InputEvent>) -> Option<(u32, u32)>
    decreases events.len(),
{
    if events.len() == 0 || events[0] == InputEvent::Quit {
        None
    } else {
        match last_resize(events.drop_first()) {
            Some(size) => Some(size),
            None => match events[0] {
                InputEvent::WindowResized(w, h) => Some((w as u32, h as u32)),
                _ => None,
            },
        }
    }
}

/// The size left to take after the frames: the last that any of them
/// reported, or `prev` where none did.
pub open spec fn resize_after(prev: Option<(u32, u32)>, frames: Seq<Seq<InputEvent>>) -> Option<(u32, u32)>
    decreases frames.len(),
{
    if frames.len() == 0 {
        prev
    } else {
        let next = match last_resize(frames[0]) {
            Some(size) => Some(size),
            None => prev,
        };
        resize_after(next, frames.drop_first())
    }
}

/// The frame counts the updates: after `n` updates the frame has moved on
/// by exactly `n`, whether or not they carried out their registrations; so
/// an input system that starts at frame 0 is at frame `n` after `n` updates.
pub proof fn lemma_updates_count_frames(v: InputView, frames: Seq<Seq<InputEvent>>)
    requires
        v.frame + frames.len() <= u64::MAX,
    ensures
        updates_spec(v, frames).frame == v.frame + frames.len(),
    decreases frames.len(),
{
    if frames.len() > 0 {
        lemma_update_advances_frame(v, frames[0]);
        lemma_updates_count_frames(update_spec(v, frames[0]).0, frames.drop_first());
    }
}

/// The events leave the last size they report, or the one there was.
pub proof fn lemma_events_keep_last_resize(v: InputView, events: Seq<InputEvent>)
    ensures
        apply_events_spec(v, events).0.window_resized == (match last_resize(events) {
            Some(size) => Some(size),
            None => v.window_resized,
        }),
    decreases events.len(),
{
    if events.len() > 0 && events[0] != InputEvent::Quit {
        lemma_events_keep_last_resize(apply_event_spec(v, events[0]), events.drop_first());
    }
}

/// What `take_window_resized` gives back after updates that carried out
/// their registrations: the last size that their events reported (before
/// any request to quit), or, where none did, what there was before them
/// (nothing, right after a take).
pub proof fn lemma_updates_keep_last_resize(v: InputView, frames: Seq<Seq<InputEvent>>)
    requires
        updates_succeed(v, frames),
    ensures
        updates_spec(v, frames).window_resized == resize_after(v.window_resized, frames),
    decreases frames.len(),
{
    if frames.len() > 0 {
        let next = InputView { frame: (v.frame + 1) as u64, ..v };
        lemma_flush_keeps(next, 0, 0, ActionKey(0));
        lemma_events_keep_last_resize(flush_spec(next).0, frames[0]);
        lemma_updates_keep_last_resize(update_spec(v, frames[0]).0, frames.drop_first());
    }
}

/// FNV-1a hashes every byte: the empty input hashes to the offset basis
/// `0xcbf29ce484222325`, and one more byte `b` turns the hash `h` of what
/// came before into `(h ^ b) * 0x100000001b3`, taken modulo 2^64.
pub proof fn lemma_fnv1a_hashes_every_byte(s: Seq<u8>, b: u8)
    ensures
        fnv1a_spec(Seq::empty()) == 0xcbf29ce484222325u64,
        fnv1a_spec(s.push(b)) == (((fnv1a_spec(s) ^ (b as u64)) as nat * 0x100000001b3nat)
            % 0x1_0000_0000_0000_0000nat) as u64,
{
    assert(s.push(b).drop_last() =~= s);
    assert(s.push(b).last() == b);
}

/// The hash of the bytes of "confirm", which holds more than six.
pub proof fn lemma_fnv1a_known_value()
    ensures
        fnv1a_spec(seq![0x63u8, 0x6fu8, 0x6eu8, 0x66u8, 0x69u8, 0x72u8, 0x6du8]) == 0x92d2aa208a2a76afu64,
{
    lemma_fnv1a_hashes_every_byte(Seq::empty(), 0u8);
    assert(seq![0x63u8].drop_last() =~= seq![]);
    assert(0xcbf29ce484222325u64 ^ 0x63u64 == 0xcbf29ce484222346u64) by (bit_vector);
    lemma_fnv1a_hashes_every_byte(seq![], 0x63u8);
    assert(seq![].push(0x63u8) =~= seq![0x63u8]);
    assert(fnv1a_spec(seq![0x63u8]) == 0xaf63de4c8601eff2u64);

    assert(seq![0x63u8, 0x6fu8].drop_last() =~= seq![0x63u8]);
    assert(0xaf63de4c8601eff2u64 ^ 0x6fu64 == 0xaf63de4c8601ef9du64) by (bit_vector);
    lemma_fnv1a_hashes_every_byte(seq![0x63u8], 0x6fu8);
    assert(seq![0x63u8].push(0x6fu8) =~= seq![0x63u8, 0x6fu8]);
    assert(fnv1a_spec(seq![0x63u8, 0x6fu8]) == 0x8a25907b54a27c7u64);

    assert(seq![0x63u8, 0x6fu8, 0x6eu8].drop_last() =~= seq![0x63u8, 0x6fu8]);
    assert(0x8a25907b54a27c7u64 ^ 0x6eu64 == 0x8a25907b54a27a9u64) by (bit_vector);
    lemma_fnv1a_hashes_every_byte(seq![0x63u8, 0x6fu8], 0x6eu8);
    assert(seq![0x63u8, 0x6fu8].push(0x6eu8) =~= seq![0x63u8, 0x6fu8, 0x6eu8]);
    assert(fnv1a_spec(seq![0x63u8, 0x6fu8, 0x6eu8]) == 0xf604f1190d01642bu64);

    assert(seq![0x63u8, 0x6fu8, 0x6eu8, 0x66u8].drop_last() =~= seq![0x63u8, 0x6fu8, 0x6eu8]);
    assert(0xf604f1190d01642bu64 ^ 0x66u64 == 0xf604f1190d01644du64) by (bit_vector);
    lemma_fnv1a_hashes_every_byte(seq![0x63u8, 0x6fu8, 0x6eu8], 0x66u8);
    assert(seq![0x63u8, 0x6fu8, 0x6eu8].push(0x66u8) =~= seq![0x63u8, 0x6fu8, 0x6eu8, 0x66u8]);
    assert(fnv1a_spec(seq![0x63u8, 0x6fu8, 0x6eu8, 0x66u8]) == 0xbc9fa91195d6ed7u64);

    assert(seq![0x63u8, 0x6fu8, 0x6eu8, 0x66u8, 0x69u8].drop_last() =~= seq![0x63u8, 0x6fu8, 0x6eu8, 0x66u8]);
    assert(0xbc9fa91195d6ed7u64 ^ 0x69u64 == 0xbc9fa91195d6ebeu64) by (bit_vector);
    lemma_fnv1a_hashes_every_byte(seq![0x63u8, 0x6fu8, 0x6eu8, 0x66u8], 0x69u8);
    assert(seq![0x63u8, 0x6fu8, 0x6eu8, 0x66u8].push(0x69u8) =~= seq![0x63u8, 0x6fu8, 0x6eu8, 0x66u8, 0x69u8]);
    assert(fnv1a_spec(seq![0x63u8, 0x6fu8, 0x6eu8, 0x66u8, 0x69u8]) == 0x65a3828e19c32cdau64);

    assert(seq![0x63u8, 0x6fu8, 0x6eu8, 0x66u8, 0x69u8, 0x72u8].drop_last() =~= seq![0x63u8, 0x6fu8, 0x6eu8, 0x66u8, 0x69u8]);
    assert(0x65a3828e19c32cdau64 ^ 0x72u64 == 0x65a3828e19c32ca8u64) by (bit_vector);
    lemma_fnv1a_hashes_every_byte(seq![0x63u8, 0x6fu8, 0x6eu8, 0x66u8, 0x69u8], 0x72u8);
    assert(seq![0x63u8, 0x6fu8, 0x6eu8, 0x66u8, 0x69u8].push(0x72u8) =~= seq![0x63u8, 0x6fu8, 0x6eu8, 0x66u8, 0x69u8, 0x72u8]);
    assert(fnv1a_spec(seq![0x63u8, 0x6fu8, 0x6eu8, 0x66u8, 0x69u8, 0x72u8]) == 0x78037f75c6a4e178u64);

    assert(seq![0x63u8, 0x6fu8, 0x6eu8, 0x66u8, 0x69u8, 0x72u8, 0x6du8].drop_last() =~= seq![0x63u8, 0x6fu8, 0x6eu8, 0x66u8, 0x69u8, 0x72u8]);
    assert(0x78037f75c6a4e178u64 ^ 0x6du64 == 0x78037f75c6a4e115u64) by (bit_vector);
    lemma_fnv1a_hashes_every_byte(seq![0x63u8, 0x6fu8, 0x6eu8, 0x66u8, 0x69u8, 0x72u8], 0x6du8);
    assert(seq![0x63u8, 0x6fu8, 0x6eu8, 0x66u8, 0x69u8, 0x72u8].push(0x6du8) =~= seq![0x63u8, 0x6fu8, 0x6eu8, 0x66u8, 0x69u8, 0x72u8, 0x6du8]);
    assert(fnv1a_spec(seq![0x63u8, 0x6fu8, 0x6eu8, 0x66u8, 0x69u8, 0x72u8, 0x6du8]) == 0x92d2aa208a2a76afu64);
}

/// A mouse button going down puts every action bound to it down as of the
/// current frame, so each reads as down and pressed; actions bound
/// elsewhere keep their state and the frames in which they last went down
/// and up.
pub proof fn lemma_button_down_presses(v: InputView, button: u8, key: ActionKey)
    requires
        v.wf(),
    ensures
        ({
            let w = apply_event_spec(v, InputEvent::MouseButtonDown(button));
            let bound = v.bound_to(ActionBinding::MouseButton(button));
            &&& bound.contains(key) ==> w.states.contains_key(key.0) && w.states[key.0] == ActionState::Down(v.frame)
                && w.is_down(key) && w.is_pressed(key)
            &&& !bound.contains(key) && v.states.contains_key(key.0) ==> w.states[key.0] == v.states[key.0]
                && w.last_down[key.0] == v.last_down[key.0] && w.last_up[key.0] == v.last_up[key.0]
        }),
{
    let bound = v.bound_to(ActionBinding::MouseButton(button));
    assert(ActionKey(key.0) == key);
    if bound.contains(key) {
        let code = ActionBinding::MouseButton(button).code();
        let j = choose|j: int| 0 <= j < bound.len() && bound[j] == key;
        assert(v.bindings.contains_key(code));
        assert(v.names.contains_key(v.bindings[code][j].0));
    }
}

/// A key going up puts every action bound to it up as of the current
/// frame, so each reads as up and released; actions bound elsewhere keep
/// their state and the frames in which they last went down and up.
pub proof fn lemma_key_up_releases(v: InputView, scancode: i32, key: ActionKey)
    requires
        v.wf(),
    ensures
        ({
            let w = apply_event_spec(v, InputEvent::KeyUp(scancode));
            let bound = v.bound_to(ActionBinding::Scancode(scancode));
            &&& bound.contains(key) ==> w.states.contains_key(key.0) && w.states[key.0] == ActionState::Up(v.frame)
                && w.is_up(key) && w.is_released(key)
            &&& !bound.contains(key) && v.states.contains_key(key.0) ==> w.states[key.0] == v.states[key.0]
                && w.last_down[key.0] == v.last_down[key.0] && w.last_up[key.0] == v.last_up[key.0]
        }),
{
    let bound = v.bound_to(ActionBinding::Scancode(scancode));
    assert(ActionKey(key.0) == key);
    if bound.contains(key) {
        let code = ActionBinding::Scancode(scancode).code();
        let j = choose|j: int| 0 <= j < bound.len() && bound[j] == key;
        assert(v.bindings.contains_key(code));
        assert(v.names.contains_key(v.bindings[code][j].0));
    }
}

/// A mouse button going up puts every action bound to it up as of the
/// current frame, so each reads as up and released; actions bound
/// elsewhere keep their state and the frames in which they last went down
/// and up.
pub proof fn lemma_button_up_releases(v: InputView, button: u8, key: ActionKey)
    requires
        v.wf(),
    ensures
        ({
            let w = apply_event_spec(v, InputEvent::MouseButtonUp(button));
            let bound = v.bound_to(ActionBinding::MouseButton(button));
            &&& bound.contains(key) ==> w.states.contains_key(key.0) && w.states[key.0] == ActionState::Up(v.frame)
                && w.is_up(key) && w.is_released(key)
            &&& !bound.contains(key) && v.states.contains_key(key.0) ==> w.states[key.0] == v.states[key.0]
                && w.last_down[key.0] == v.last_down[key.0] && w.last_up[key.0] == v.last_up[key.0]
        }),
{
    let bound = v.bound_to(ActionBinding::MouseButton(button));
    assert(ActionKey(key.0) == key);
    if bound.contains(key) {
        let code = ActionBinding::MouseButton(button).code();
        let j = choose|j: int| 0 <= j < bound.len() && bound[j] == key;
        assert(v.bindings.contains_key(code));
        assert(v.names.contains_key(v.bindings[code][j].0));
    }
}

/// The flag that the events give back says whether a request to quit was
/// among them: it is set exactly when one of the events is `Quit`.
pub proof fn lemma_quit_flag(v: InputView, events: Seq<InputEvent>)
    ensures
        apply_events_spec(v, events).1 == events.contains(InputEvent::Quit),
    decreases events.len(),
{
    if events.len() > 0 {
        if events[0] == InputEvent::Quit {
            assert(events[0] == InputEvent::Quit);
        } else {
            lemma_quit_flag(apply_event_spec(v, events[0]), events.drop_first());
            if events.drop_first().contains(InputEvent::Quit) {
                let j = choose|j: int| 0 <= j < events.drop_first().len() && events.drop_first()[j] == InputEvent::Quit;
                assert(events[j + 1] == InputEvent::Quit);
            }
            if events.contains(InputEvent::Quit) {
                let j = choose|j: int| 0 <= j < events.len() && events[j] == InputEvent::Quit;
                assert(events.drop_first()[j - 1] == InputEvent::Quit);
            }
        }
    }
}

/// An update that carries out its registrations reports a request to quit
/// exactly when one of its events is `Quit`.
pub proof fn lemma_update_reports_quit(v: InputView, events: Seq<InputEvent>)
    ensures
        update_spec(v, events).1 is Ok ==> update_spec(v, events).1 == Ok::<bool, RegistrationFailure>(
            events.contains(InputEvent::Quit),
        ),
{
    let next = InputView { frame: (v.frame + 1) as u64, ..v };
    lemma_quit_flag(flush_spec(next).0, events);
}

} // verus!

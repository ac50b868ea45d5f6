//! Action based input: actions are registered by name, bound to a key or a
//! mouse button, and queried every frame.
use vstd::prelude::*;
use std::collections::HashMap;
use self::action_list::{ActionList, listed, list_as_slice, list_from_slice, list_growth_limit, list_push};
use self::pending_queue::{queued, queue_new, queue_pop, queue_push};
use crossbeam_queue::SegQueue;

pub mod action_list;
pub mod laws;
pub mod pending_queue;

verus! {

/// The FNV-1a 64-bit offset basis.
pub const FNV_OFFSET_BASIS: u64 = 0xcbf29ce484222325;

/// The FNV-1a 64-bit prime.
pub const FNV_PRIME: u64 = 0x00000100000001b3;

/// The 64-bit FNV-1a hash of a byte sequence.
pub open spec fn fnv1a_spec(bytes: Seq<u8>) -> u64
    decreases bytes.len(),
{
    if bytes.len() == 0 {
        FNV_OFFSET_BASIS
    } else {
        (fnv1a_spec(bytes.drop_last()) ^ (bytes.last() as u64)).wrapping_mul(FNV_PRIME)
    }
}

/// Hashes `x` with 64-bit FNV-1a.
pub fn fnv1a(x: &[u8]) -> (hash: u64)
    ensures
        hash == fnv1a_spec(x@),
{
    let mut hash: u64 = FNV_OFFSET_BASIS;
    let mut i: usize = 0;
    while i < x.len()
        invariant
            0 <= i <= x@.len(),
            hash == fnv1a_spec(x@.take(i as int)),
        decreases x@.len() - i,
    {
        assert(x@.take(i as int + 1).drop_last() =~= x@.take(i as int));
        hash = hash ^ (x[i] as u64);
        hash = hash.wrapping_mul(FNV_PRIME);
        i += 1;
    }
    assert(x@.take(x@.len() as int) =~= x@);
    hash
}

/// What an action is doing, and the frame in which it started doing it.
#[derive(Debug, Clone, Copy, PartialEq, Eq, Structural)]
pub enum ActionState {
    Up(u64),
    Down(u64),
}

impl ActionState {
    /// The frame in which the action went up or down.
    pub open spec fn since(self) -> u64 {
        match self {
            ActionState::Up(frame) => frame,
            ActionState::Down(frame) => frame,
        }
    }
}

impl Default for ActionState {
    /// A newly registered action is up, since frame 0.
    fn default() -> (state: Self)
        ensures
            state == ActionState::Up(0),
    {
        ActionState::Up(0)
    }
}

/// The identity of an action: the FNV-1a hash of its name.
#[derive(Debug, Clone, Copy, PartialEq, Eq, Structural, Hash)]
pub struct ActionKey(pub u64);

impl ActionKey {
    /// The key of the action with the given name: the FNV-1a hash of the
    /// name's UTF-8 bytes.
    pub open spec fn of_name(name: Seq<char>) -> ActionKey {
        ActionKey(fnv1a_spec(vstd::utf8::encode_utf8(name)))
    }

    /// Computes the key of the action with the given name.
    pub fn from_name(name: &str) -> (key: ActionKey)
        ensures
            key == ActionKey::of_name(name@),
    {
        ActionKey(fnv1a(name.as_bytes()))
    }
}

/// What an action is bound to: a keyboard scancode or a mouse button, each
/// by its SDL number.
#[derive(Debug, Clone, Copy, PartialEq, Eq, Structural, Hash)]
pub enum ActionBinding {
    Scancode(i32),
    MouseButton(u8),
}

impl ActionBinding {
    /// The number under which the binding is filed: a scancode's 32 bits, or
    /// a mouse button's number above them.
    pub open spec fn code_spec(&self) -> u64 {
        match *self {
            ActionBinding::Scancode(scancode) => scancode as u32 as u64,
            ActionBinding::MouseButton(button) => (0x1_0000_0000 + button) as u64,
        }
    }

    /// Computes the number under which the binding is filed.
    #[verifier::when_used_as_spec(code_spec)]
    pub fn code(&self) -> (code: u64)
        ensures
            code == self.code_spec(),
    {
        match self {
            ActionBinding::Scancode(scancode) => *scancode as u32 as u64,
            ActionBinding::MouseButton(button) => 0x1_0000_0000 + *button as u64,
        }
    }
}

/// Two different bindings are filed under different numbers.
pub proof fn lemma_binding_code_injective(a: ActionBinding, b: ActionBinding)
    ensures
        a.code() == b.code() ==> a == b,
{
    match (a, b) {
        (ActionBinding::Scancode(x), ActionBinding::Scancode(y)) => {
            assert(x as u32 as u64 == y as u32 as u64 ==> x == y) by (bit_vector);
        },
        _ => {},
    }
}

/// An input event, as the windowing layer reports it: a key (by scancode)
/// or mouse button going down or up, a request to quit, a window resize, or
/// anything else.
#[derive(Debug, Clone, Copy, PartialEq, Eq, Structural)]
pub enum InputEvent {
    KeyDown(i32),
    KeyUp(i32),
    MouseButtonDown(u8),
    MouseButtonUp(u8),
    Quit,
    WindowResized(i32, i32),
    Other,
}

/// Why registering the pending actions stopped.
pub enum InputError {
    /// Two different names hash to the same action key.
    NameCollision { existing: String, new: String },
    /// A binding's list of actions cannot grow any further.
    CapacityOverflow,
}

/// Why registering the pending actions stopped, with names taken by their
/// characters.
pub enum RegistrationFailure {
    NameCollision { existing: Seq<char>, new: Seq<char> },
    CapacityOverflow,
}

impl View for InputError {
    type V = RegistrationFailure;

    open spec fn view(&self) -> RegistrationFailure {
        match self {
            InputError::NameCollision { existing, new } => RegistrationFailure::NameCollision {
                existing: existing@,
                new: new@,
            },
            InputError::CapacityOverflow => RegistrationFailure::CapacityOverflow,
        }
    }
}

/// The state of an `InputSystem`, as its contracts speak of it.
pub struct InputView {
    /// The number of updates so far.
    pub frame: u64,
    /// The last window size reported and not yet taken.
    pub window_resized: Option<(u32, u32)>,
    /// The name of each registered action, by key.
    pub names: Map<u64, Seq<char>>,
    /// The state of each registered action after the last event that
    /// reached it, by key.
    pub states: Map<u64, ActionState>,
    /// The frame in which each registered action last went down (0 where it
    /// never did), by key.
    pub last_down: Map<u64, u64>,
    /// The frame in which each registered action last went up (0 where it
    /// never did), by key.
    pub last_up: Map<u64, u64>,
    /// The actions bound to each binding, by the binding's code, in the
    /// order in which they were bound.
    pub bindings: Map<u64, Seq<ActionKey>>,
    /// The registrations that the next update carries out, oldest first.
    pub pending: Seq<(Seq<char>, ActionBinding)>,
}

impl InputView {
    /// Every registered action has a name, a state and the frames of its
    /// last going down and up.
    pub open spec fn doms_agree(self) -> bool {
        &&& self.names.dom() == self.states.dom()
        &&& self.last_down.dom() == self.states.dom()
        &&& self.last_up.dom() == self.states.dom()
    }

    /// Every registered name is filed under its own hash.
    pub open spec fn names_hashed(self) -> bool {
        forall|k: u64| #[trigger] self.names.contains_key(k) ==> ActionKey::of_name(self.names[k]).0 == k
    }

    /// What every `InputSystem` keeps: each registered action has a name, a
    /// state and the frames of its last going down and up, its key is the
    /// hash of its name, every binding lists registered actions, each once,
    /// and nothing happened to an action after the current frame.
    pub open spec fn wf(self) -> bool {
        &&& self.doms_agree()
        &&& self.names_hashed()
        &&& forall|c: u64| #[trigger] self.bindings.contains_key(c) ==> self.bindings[c].no_duplicates()
        &&& forall|c: u64, i: int|
            self.bindings.contains_key(c) && 0 <= i < self.bindings[c].len()
                ==> self.names.contains_key(#[trigger] self.bindings[c][i].0)
        &&& forall|k: u64| #[trigger]
            self.states.contains_key(k) ==> self.states[k].since() <= self.frame
        &&& forall|k: u64| #[trigger] self.last_down.contains_key(k) ==> self.last_down[k] <= self.frame
        &&& forall|k: u64| #[trigger] self.last_up.contains_key(k) ==> self.last_up[k] <= self.frame
    }

    /// Whether the action is registered and down after the last event that
    /// reached it.
    pub open spec fn is_down(self, action: ActionKey) -> bool {
        self.states.contains_key(action.0) && self.states[action.0] is Down
    }

    /// Whether the action is registered and up after the last event that
    /// reached it.
    pub open spec fn is_up(self, action: ActionKey) -> bool {
        self.states.contains_key(action.0) && self.states[action.0] is Up
    }

    /// Whether the action is registered and went down in the current frame.
    pub open spec fn is_pressed(self, action: ActionKey) -> bool {
        self.last_down.contains_key(action.0) && self.last_down[action.0] == self.frame
    }

    /// Whether the action is registered and went up in the current frame.
    pub open spec fn is_released(self, action: ActionKey) -> bool {
        self.last_up.contains_key(action.0) && self.last_up[action.0] == self.frame
    }

    /// The actions bound to a binding; none where nothing was bound to it.
    pub open spec fn bound_to(self, binding: ActionBinding) -> Seq<ActionKey> {
        if self.bindings.contains_key(binding.code()) {
            self.bindings[binding.code()]
        } else {
            Seq::empty()
        }
    }
}

/// Carries out one registration: the action's name and state (up, never
/// down or up yet) are added where its key is new, and the action is added
/// to its binding's list where the list does not hold it yet. Stops at a
/// name whose key belongs to another name, and at a list that cannot grow.
pub open spec fn register_one(v: InputView, name: Seq<char>, binding: ActionBinding) -> (InputView, Option<RegistrationFailure>) {
    let key = ActionKey::of_name(name);
    if v.names.contains_key(key.0) && v.names[key.0] != name {
        (v, Some(RegistrationFailure::NameCollision { existing: v.names[key.0], new: name }))
    } else {
        let v1 = if v.names.contains_key(key.0) {
            v
        } else {
            InputView {
                names: v.names.insert(key.0, name),
                states: v.states.insert(key.0, ActionState::Up(0)),
                last_down: v.last_down.insert(key.0, 0),
                last_up: v.last_up.insert(key.0, 0),
                ..v
            }
        };
        let code = binding.code();
        if v1.bindings.contains_key(code) {
            let list = v1.bindings[code];
            if list.contains(key) {
                (v1, None)
            } else if list.len() >= list_growth_limit() {
                (v1, Some(RegistrationFailure::CapacityOverflow))
            } else {
                (InputView { bindings: v1.bindings.insert(code, list.push(key)), ..v1 }, None)
            }
        } else {
            (InputView { bindings: v1.bindings.insert(code, seq![key]), ..v1 }, None)
        }
    }
}

/// Carries out the pending registrations in order, up to the first that
/// fails.
pub open spec fn flush_spec(v: InputView) -> (InputView, Option<RegistrationFailure>)
    decreases v.pending.len(),
{
    if v.pending.len() == 0 {
        (v, None)
    } else {
        let (name, binding) = v.pending[0];
        let rest = InputView { pending: v.pending.drop_first(), ..v };
        let (v1, failure) = register_one(rest, name, binding);
        if failure is Some {
            (v1, failure)
        } else {
            flush_spec(v1)
        }
    }
}

/// The map with every entry of an action in `list` set to `value`.
pub open spec fn set_listed<V>(m: Map<u64, V>, list: Seq<ActionKey>, value: V) -> Map<u64, V> {
    Map::new(
        |k: u64| m.contains_key(k),
        |k: u64|
            if list.contains(ActionKey(k)) {
                value
            } else {
                m[k]
            },
    )
}

/// The binding with the given code goes down (or up) in the current frame:
/// every action bound to it takes that state, and records the frame as the
/// one in which it last went down (or up).
pub open spec fn with_binding_event(v: InputView, code: u64, down: bool) -> InputView {
    if v.bindings.contains_key(code) {
        let list = v.bindings[code];
        if down {
            InputView {
                states: set_listed(v.states, list, ActionState::Down(v.frame)),
                last_down: set_listed(v.last_down, list, v.frame),
                ..v
            }
        } else {
            InputView {
                states: set_listed(v.states, list, ActionState::Up(v.frame)),
                last_up: set_listed(v.last_up, list, v.frame),
                ..v
            }
        }
    } else {
        v
    }
}

/// What one event does: a binding going down or up does so for its
/// actions, as of the current frame, and a resize is kept until taken.
pub open spec fn apply_event_spec(v: InputView, event: InputEvent) -> InputView {
    match event {
        InputEvent::KeyDown(s) => with_binding_event(v, ActionBinding::Scancode(s).code(), true),
        InputEvent::KeyUp(s) => with_binding_event(v, ActionBinding::Scancode(s).code(), false),
        InputEvent::MouseButtonDown(b) => with_binding_event(v, ActionBinding::MouseButton(b).code(), true),
        InputEvent::MouseButtonUp(b) => with_binding_event(v, ActionBinding::MouseButton(b).code(), false),
        InputEvent::WindowResized(w, h) => InputView { window_resized: Some((w as u32, h as u32)), ..v },
        _ => v,
    }
}

/// Applies the events in order up to the first request to quit; the flag
/// says whether there was one.
pub open spec fn apply_events_spec(v: InputView, events: Seq<InputEvent>) -> (InputView, bool)
    decreases events.len(),
{
    if events.len() == 0 {
        (v, false)
    } else if events[0] == InputEvent::Quit {
        (v, true)
    } else {
        apply_events_spec(apply_event_spec(v, events[0]), events.drop_first())
    }
}

/// One update: the frame counter moves on, the pending registrations are
/// carried out, then the events are applied; the result says whether a
/// request to quit came, or why a registration failed.
pub open spec fn update_spec(v: InputView, events: Seq<InputEvent>) -> (InputView, Result<bool, RegistrationFailure>) {
    let (v1, failure) = flush_spec(InputView { frame: (v.frame + 1) as u64, ..v });
    match failure {
        Some(f) => (v1, Err(f)),
        None => {
            let (v2, quit) = apply_events_spec(v1, events);
            (v2, Ok(quit))
        },
    }
}

/// The maps and the queue behind an `InputSystem`.
struct InputState {
    frame: u64,
    window_resized: Option<(u32, u32)>,
    input_action_names: HashMap<u64, String>,
    input_action_states: HashMap<u64, ActionState>,
    action_last_down: HashMap<u64, u64>,
    action_last_up: HashMap<u64, u64>,
    binding_to_actions: HashMap<u64, ActionList>,
    pending_registered_actions: SegQueue<(String, ActionBinding)>,
}

impl View for InputState {
    type V = InputView;

    closed spec fn view(&self) -> InputView {
        InputView {
            frame: self.frame,
            window_resized: self.window_resized,
            names: self.input_action_names@.map_values(|s: String| s@),
            states: self.input_action_states@,
            last_down: self.action_last_down@,
            last_up: self.action_last_up@,
            bindings: self.binding_to_actions@.map_values(|l: ActionList| listed(l)),
            pending: queued(self.pending_registered_actions),
        }
    }
}

/// Tracks named actions, what they are bound to, and whether they are up or
/// down.
pub struct InputSystem {
    state: InputState,
}

impl InputSystem {
    /// Every `InputSystem` keeps `InputView::wf`.
    #[verifier::type_invariant]
    spec fn keeps_wf(self) -> bool {
        self.state@.wf()
    }
}

impl View for InputSystem {
    type V = InputView;

    closed spec fn view(&self) -> InputView {
        self.state@
    }
}

} // verus!

verus! {

broadcast use vstd::std_specs::hash::group_hash_axioms;

/// Whether the list holds `key`.
fn list_contains(list: &ActionList, key: ActionKey) -> (found: bool)
    ensures
        found == listed(*list).contains(key),
{
    let keys = list_as_slice(list);
    let mut i: usize = 0;
    while i < keys.len()
        invariant
            0 <= i <= keys@.len(),
            keys@ == listed(*list),
            forall|j: int| 0 <= j < i ==> keys@[j] != key,
        decreases keys@.len() - i,
    {
        if keys[i] == key {
            return true;
        }
        i += 1;
    }
    false
}

/// A key is among the first `i + 1` of a list exactly when it is among the
/// first `i` or is the `i`-th.
proof fn lemma_take_one_more(keys: Seq<ActionKey>, i: int)
    requires
        0 <= i < keys.len(),
    ensures
        forall|k: u64|
            #[trigger] keys.take(i + 1).contains(ActionKey(k)) <==> (keys.take(i).contains(ActionKey(k))
                || keys[i] == ActionKey(k)),
{
    assert forall|k: u64|
        #[trigger] keys.take(i + 1).contains(ActionKey(k)) <==> (keys.take(i).contains(ActionKey(k)) || keys[i]
            == ActionKey(k)) by {
        if keys.take(i + 1).contains(ActionKey(k)) {
            let j = choose|j: int| 0 <= j < i + 1 && #[trigger] keys.take(i + 1)[j] == ActionKey(k);
            if j < i {
                assert(keys.take(i)[j] == ActionKey(k));
            }
        }
        if keys.take(i).contains(ActionKey(k)) {
            let j = choose|j: int| 0 <= j < i && #[trigger] keys.take(i)[j] == ActionKey(k);
            assert(keys.take(i + 1)[j] == ActionKey(k));
        }
        if keys[i] == ActionKey(k) {
            assert(keys.take(i + 1)[i] == ActionKey(k));
        }
    }
}

impl InputState {
    /// No actions, no pending registrations and no resize, at frame 0.
    fn new() -> (state: Self)
        ensures
            state@ == (InputView {
                frame: 0,
                window_resized: None,
                names: Map::empty(),
                states: Map::empty(),
                last_down: Map::empty(),
                last_up: Map::empty(),
                bindings: Map::empty(),
                pending: Seq::empty(),
            }),
            state@.wf(),
    {
        let state = InputState {
            frame: 0,
            window_resized: None,
            input_action_names: HashMap::new(),
            input_action_states: HashMap::new(),
            action_last_down: HashMap::new(),
            action_last_up: HashMap::new(),
            binding_to_actions: HashMap::new(),
            pending_registered_actions: queue_new(),
        };
        assert(state@.names =~= Map::empty());
        assert(state@.bindings =~= Map::empty());
        state
    }

    /// Carries out one registration (see `register_one`).
    fn register_pending(&mut self, name: String, binding: ActionBinding) -> (r: Result<(), InputError>)
        requires
            old(self)@.wf(),
        ensures
            final(self)@ == register_one(old(self)@, name@, binding).0,
            match r {
                Ok(_) => register_one(old(self)@, name@, binding).1 is None,
                Err(e) => register_one(old(self)@, name@, binding).1 == Some(e@),
            },
            final(self)@.wf(),
    {
        let ghost v0 = self@;
        let key = ActionKey::from_name(name.as_str());
        let known = self.input_action_names.contains_key(&key.0);
        if known {
            if let Some(old_name) = self.input_action_names.get(&key.0) {
                if !(*old_name == name) {
                    return Err(InputError::NameCollision { existing: old_name.clone(), new: name });
                }
            }
        } else {
            self.input_action_names.insert(key.0, name);
            self.input_action_states.insert(key.0, ActionState::default());
            self.action_last_down.insert(key.0, 0);
            self.action_last_up.insert(key.0, 0);
            assert(self@.names =~= v0.names.insert(key.0, name@));
        }
        let ghost v1 = self@;
        assert(v1 == (if v0.names.contains_key(key.0) {
            v0
        } else {
            InputView {
                names: v0.names.insert(key.0, name@),
                states: v0.states.insert(key.0, ActionState::Up(0)),
                last_down: v0.last_down.insert(key.0, 0),
                last_up: v0.last_up.insert(key.0, 0),
                ..v0
            }
        }));
        let code = binding.code();
        match self.binding_to_actions.remove(&code) {
            Some(mut list) => {
                let ghost before = listed(list);
                if !list_contains(&list, key) {
                    if list_as_slice(&list).len() >= (isize::MAX as usize) / 16 {
                        self.binding_to_actions.insert(code, list);
                        assert(self@.bindings =~= v1.bindings);
                        return Err(InputError::CapacityOverflow);
                    }
                    list_push(&mut list, key);
                }
                self.binding_to_actions.insert(code, list);
                assert(self@.bindings =~= v1.bindings.insert(code, listed(list)));
                assert(before.contains(key) ==> self@.bindings =~= v1.bindings);
            },
            None => {
                let list = list_from_slice(&[key]);
                self.binding_to_actions.insert(code, list);
                assert(seq![key] =~= listed(list));
                assert(self@.bindings =~= v1.bindings.insert(code, seq![key]));
            },
        }
        Ok(())
    }

    /// Carries out the pending registrations in order (see `flush_spec`).
    fn flush_pending_action_registration(&mut self) -> (r: Result<(), InputError>)
        requires
            old(self)@.wf(),
        ensures
            final(self)@ == flush_spec(old(self)@).0,
            match r {
                Ok(_) => flush_spec(old(self)@).1 is None,
                Err(e) => flush_spec(old(self)@).1 == Some(e@),
            },
            final(self)@.wf(),
    {
        loop
            invariant
                self@.wf(),
                flush_spec(self@) == flush_spec(old(self)@),
            decreases self@.pending.len(),
        {
            let ghost before = self@;
            match queue_pop(&mut self.pending_registered_actions) {
                None => {
                    return Ok(());
                },
                Some((name, binding)) => {
                    assert(self@ == (InputView { pending: before.pending.drop_first(), ..before }));
                    match self.register_pending(name, binding) {
                        Ok(()) => {},
                        Err(e) => {
                            return Err(e);
                        },
                    }
                },
            }
        }
    }

    /// The binding goes down (`down`) or up in the current frame (see
    /// `with_binding_event`).
    fn binding_event(&mut self, binding: ActionBinding, down: bool)
        requires
            old(self)@.wf(),
        ensures
            final(self)@ == with_binding_event(old(self)@, binding.code(), down),
            final(self)@.wf(),
    {
        let ghost v0 = self@;
        let code = binding.code();
        let state = if down {
            ActionState::Down(self.frame)
        } else {
            ActionState::Up(self.frame)
        };
        if let Some(list) = self.binding_to_actions.get(&code) {
            let keys = list_as_slice(list);
            assert(v0.states =~= set_listed(v0.states, keys@.take(0), state));
            assert(v0.last_down =~= set_listed(v0.last_down, keys@.take(0), v0.frame));
            assert(v0.last_up =~= set_listed(v0.last_up, keys@.take(0), v0.frame));
            let mut i: usize = 0;
            while i < keys.len()
                invariant
                    0 <= i <= keys@.len(),
                    v0.wf(),
                    keys@ == v0.bindings[code],
                    v0.bindings.contains_key(code),
                    state == (if down {
                        ActionState::Down(v0.frame)
                    } else {
                        ActionState::Up(v0.frame)
                    }),
                    self@ == (if down {
                        InputView {
                            states: set_listed(v0.states, keys@.take(i as int), state),
                            last_down: set_listed(v0.last_down, keys@.take(i as int), v0.frame),
                            ..v0
                        }
                    } else {
                        InputView {
                            states: set_listed(v0.states, keys@.take(i as int), state),
                            last_up: set_listed(v0.last_up, keys@.take(i as int), v0.frame),
                            ..v0
                        }
                    }),
                decreases keys@.len() - i,
            {
                let key = keys[i];
                if self.input_action_states.contains_key(&key.0) {
                    self.input_action_states.insert(key.0, state);
                    if down {
                        self.action_last_down.insert(key.0, self.frame);
                    } else {
                        self.action_last_up.insert(key.0, self.frame);
                    }
                }
                proof {
                    lemma_take_one_more(keys@, i as int);
                }
                assert(self@.states =~= set_listed(v0.states, keys@.take(i + 1), state));
                assert(self@.last_down =~= (if down {
                    set_listed(v0.last_down, keys@.take(i + 1), v0.frame)
                } else {
                    v0.last_down
                }));
                assert(self@.last_up =~= (if down {
                    v0.last_up
                } else {
                    set_listed(v0.last_up, keys@.take(i + 1), v0.frame)
                }));
                i += 1;
            }
            assert(keys@.take(keys@.len() as int) =~= keys@);
        }
    }

    /// Applies one event (see `apply_event_spec`).
    fn apply_event(&mut self, event: InputEvent)
        requires
            old(self)@.wf(),
        ensures
            final(self)@ == apply_event_spec(old(self)@, event),
            final(self)@.wf(),
    {
        match event {
            InputEvent::KeyDown(scancode) => self.binding_event(ActionBinding::Scancode(scancode), true),
            InputEvent::KeyUp(scancode) => self.binding_event(ActionBinding::Scancode(scancode), false),
            InputEvent::MouseButtonDown(button) => self.binding_event(ActionBinding::MouseButton(button), true),
            InputEvent::MouseButtonUp(button) => self.binding_event(ActionBinding::MouseButton(button), false),
            InputEvent::WindowResized(width, height) => {
                self.window_resized = Some((width as u32, height as u32));
            },
            InputEvent::Quit | InputEvent::Other => {},
        }
    }

    /// Runs one update (see `update_spec`).
    fn update(&mut self, events: &[InputEvent]) -> (r: Result<bool, InputError>)
        requires
            old(self)@.wf(),
            old(self)@.frame < u64::MAX,
        ensures
            final(self)@ == update_spec(old(self)@, events@).0,
            match r {
                Ok(quit) => update_spec(old(self)@, events@).1 == Ok::<bool, RegistrationFailure>(quit),
                Err(e) => update_spec(old(self)@, events@).1 == Err::<bool, RegistrationFailure>(e@),
            },
            final(self)@.wf(),
    {
        self.frame = self.frame + 1;
        match self.flush_pending_action_registration() {
            Ok(()) => {},
            Err(e) => {
                return Err(e);
            },
        }
        let ghost flushed = self@;
        assert(events@.skip(0) =~= events@);
        let mut i: usize = 0;
        while i < events.len()
            invariant
                0 <= i <= events@.len(),
                self@.wf(),
                apply_events_spec(self@, events@.skip(i as int)) == apply_events_spec(flushed, events@),
                update_spec(old(self)@, events@).0 == apply_events_spec(flushed, events@).0,
                update_spec(old(self)@, events@).1 == Ok::<bool, RegistrationFailure>(
                    apply_events_spec(flushed, events@).1,
                ),
            decreases events@.len() - i,
        {
            let event = events[i];
            assert(events@.skip(i as int)[0] == event);
            if event == InputEvent::Quit {
                return Ok(true);
            }
            self.apply_event(event);
            assert(events@.skip(i as int).drop_first() =~= events@.skip(i + 1));
            i += 1;
        }
        Ok(false)
    }
}

impl InputSystem {
    /// An input system with no actions, no pending registrations and no
    /// resize, at frame 0.
    pub fn new() -> (system: Self)
        ensures
            system@ == (InputView {
                frame: 0,
                window_resized: None,
                names: Map::empty(),
                states: Map::empty(),
                last_down: Map::empty(),
                last_up: Map::empty(),
                bindings: Map::empty(),
                pending: Seq::empty(),
            }),
            system@.wf(),
    {
        InputSystem { state: InputState::new() }
    }

    /// Returns the last window size reported since the previous call, and
    /// forgets it.
    pub fn take_window_resized(&mut self) -> (resized: Option<(u32, u32)>)
        ensures
            resized == old(self)@.window_resized,
            final(self)@ == (InputView { window_resized: None, ..old(self)@ }),
            final(self)@.wf(),
    {
        proof {
            use_type_invariant(&*self);
        }
        let resized = self.state.window_resized;
        self.state.window_resized = None;
        resized
    }

    /// The current frame: the number of updates so far.
    pub fn frame(&self) -> (frame: u64)
        ensures
            frame == self@.frame,
            self@.wf(),
    {
        proof {
            use_type_invariant(self);
        }
        self.state.frame
    }

    /// Queues the registration of an action under `name`, bound to
    /// `action_binding`, and returns its key. The action becomes available
    /// at the next update.
    pub fn register_action(&mut self, name: &str, action_binding: ActionBinding) -> (key: ActionKey)
        ensures
            key == ActionKey::of_name(name@),
            final(self)@ == (InputView {
                pending: old(self)@.pending.push((name@, action_binding)),
                ..old(self)@
            }),
            final(self)@.wf(),
    {
        broadcast use vstd::string::group_string_axioms;

        proof {
            use_type_invariant(&*self);
        }
        let name = name.to_string();
        let key = ActionKey::from_name(name.as_str());
        let mut state = InputState::new();
        std::mem::swap(&mut state, &mut self.state);
        queue_push(&mut state.pending_registered_actions, (name, action_binding));
        self.state = state;
        key
    }

    /// The key of the action named `name`, where an action with that key is
    /// registered.
    pub fn get_action(&self, name: &str) -> (key: Option<ActionKey>)
        ensures
            key == (if self@.names.contains_key(ActionKey::of_name(name@).0) {
                Some(ActionKey::of_name(name@))
            } else {
                None
            }),
            self@.wf(),
    {
        proof {
            use_type_invariant(self);
        }
        let key = ActionKey::from_name(name);
        if self.state.input_action_names.contains_key(&key.0) {
            Some(key)
        } else {
            None
        }
    }

    /// Whether the action is down after the last event that reached it;
    /// `false` where it is up or not registered.
    pub fn action_down(&self, action: ActionKey) -> (down: bool)
        ensures
            down == self@.is_down(action),
            self@.wf(),
    {
        proof {
            use_type_invariant(self);
        }
        if let Some(ActionState::Down(_)) = self.state.input_action_states.get(&action.0) {
            true
        } else {
            false
        }
    }

    /// Whether the action is up after the last event that reached it;
    /// `false` where it is down or not registered.
    pub fn action_up(&self, action: ActionKey) -> (up: bool)
        ensures
            up == self@.is_up(action),
            self@.wf(),
    {
        proof {
            use_type_invariant(self);
        }
        if let Some(ActionState::Up(_)) = self.state.input_action_states.get(&action.0) {
            true
        } else {
            false
        }
    }

    /// Whether the action went down in the current frame, even where it went
    /// up again later in the frame; `false` where it is not registered.
    pub fn action_pressed(&self, action: ActionKey) -> (pressed: bool)
        ensures
            pressed == self@.is_pressed(action),
            self@.wf(),
    {
        proof {
            use_type_invariant(self);
        }
        if let Some(frame) = self.state.action_last_down.get(&action.0) {
            *frame == self.state.frame
        } else {
            false
        }
    }

    /// Whether the action went up in the current frame, even where it went
    /// down again later in the frame; `false` where it is not registered.
    pub fn action_released(&self, action: ActionKey) -> (released: bool)
        ensures
            released == self@.is_released(action),
            self@.wf(),
    {
        proof {
            use_type_invariant(self);
        }
        if let Some(frame) = self.state.action_last_up.get(&action.0) {
            *frame == self.state.frame
        } else {
            false
        }
    }

    /// Runs one frame's update: moves the frame counter on, carries out the
    /// pending registrations, then applies `events` in order up to the first
    /// request to quit. Returns whether one came, or why a registration
    /// failed (see `update_spec`). Call it once per frame, with the events
    /// polled for that frame, before anything that reads the actions.
    pub fn update(&mut self, events: &[InputEvent]) -> (r: Result<bool, InputError>)
        requires
            old(self)@.frame < u64::MAX,
        ensures
            final(self)@ == update_spec(old(self)@, events@).0,
            match r {
                Ok(quit) => update_spec(old(self)@, events@).1 == Ok::<bool, RegistrationFailure>(quit),
                Err(e) => update_spec(old(self)@, events@).1 == Err::<bool, RegistrationFailure>(e@),
            },
            r matches Ok(quit) ==> quit == events@.contains(InputEvent::Quit),
            final(self)@.wf(),
    {
        proof {
            use_type_invariant(&*self);
            laws::lemma_update_reports_quit(self@, events@);
        }
        let mut state = InputState::new();
        std::mem::swap(&mut state, &mut self.state);
        let r = state.update(events);
        self.state = state;
        r
    }
}

} // verus!

use fern::input::{fnv1a, ActionBinding, ActionKey, ActionState, InputError, InputEvent, InputSystem};

const SPACE: i32 = 44;
const LEFT_BUTTON: u8 = 1;

fn ready(system: &mut InputSystem) {
    match system.update(&[]) {
        Ok(quit) => assert!(!quit),
        Err(_) => panic!("registration failed"),
    }
}

#[test]
fn fnv1a_known_values() {
    assert_eq!(fnv1a(b""), 0xcbf29ce484222325);
    assert_eq!(fnv1a(b"a"), 0xaf63dc4c8601ec8c);
    assert_eq!(fnv1a(b"foobar"), 0x85944171f73967e8);
}

#[test]
fn action_key_hashes_utf8_bytes() {
    assert_eq!(ActionKey::from_name("space"), ActionKey(0x436cf28ab247e3e5));
    assert_eq!(ActionKey::from_name("\u{e9}"), ActionKey(0x0ac21707b7181e01));
}

#[test]
fn action_state_default_is_up_at_frame_zero() {
    assert_eq!(ActionState::default(), ActionState::Up(0));
}

#[test]
fn binding_codes_differ() {
    assert_ne!(ActionBinding::Scancode(1).code(), ActionBinding::MouseButton(1).code());
    assert_ne!(ActionBinding::Scancode(-1).code(), ActionBinding::Scancode(1).code());
    assert_eq!(ActionBinding::MouseButton(3).code(), 0x1_0000_0003);
}

#[test]
fn new_system_is_empty() {
    let system = InputSystem::new();
    assert_eq!(system.frame(), 0);
    assert_eq!(system.get_action("space"), None);
    assert!(!system.action_down(ActionKey::from_name("space")));
    assert!(!system.action_up(ActionKey::from_name("space")));
}

#[test]
fn registered_action_is_found_after_update_only() {
    let mut system = InputSystem::new();
    let key = system.register_action("space", ActionBinding::Scancode(SPACE));
    assert_eq!(key, ActionKey::from_name("space"));
    assert_eq!(system.get_action("space"), None);
    ready(&mut system);
    assert_eq!(system.get_action("space"), Some(key));
    assert!(system.action_up(key));
    assert!(!system.action_down(key));
    assert!(!system.action_released(key));
}

#[test]
fn update_advances_the_frame() {
    let mut system = InputSystem::new();
    ready(&mut system);
    ready(&mut system);
    assert_eq!(system.frame(), 2);
    let quit = system.update(&[InputEvent::Quit]);
    assert!(matches!(quit, Ok(true)));
    assert_eq!(system.frame(), 3);
}

#[test]
fn key_down_presses_every_action_bound_to_it() {
    let mut system = InputSystem::new();
    let jump = system.register_action("jump", ActionBinding::Scancode(SPACE));
    let confirm = system.register_action("confirm", ActionBinding::Scancode(SPACE));
    let fire = system.register_action("fire", ActionBinding::MouseButton(LEFT_BUTTON));
    ready(&mut system);
    let quit = system.update(&[InputEvent::KeyDown(SPACE)]);
    assert!(matches!(quit, Ok(false)));
    assert!(system.action_down(jump) && system.action_pressed(jump));
    assert!(system.action_down(confirm) && system.action_pressed(confirm));
    assert!(system.action_up(fire) && !system.action_pressed(fire));
}

#[test]
fn pressing_lasts_one_frame() {
    let mut system = InputSystem::new();
    let jump = system.register_action("jump", ActionBinding::Scancode(SPACE));
    ready(&mut system);
    assert!(matches!(system.update(&[InputEvent::KeyDown(SPACE)]), Ok(false)));
    assert!(system.action_pressed(jump));
    ready(&mut system);
    assert!(system.action_down(jump));
    assert!(!system.action_pressed(jump));
    assert!(!system.action_released(jump));
}

#[test]
fn key_up_releases() {
    let mut system = InputSystem::new();
    let jump = system.register_action("jump", ActionBinding::Scancode(SPACE));
    ready(&mut system);
    assert!(matches!(system.update(&[InputEvent::KeyDown(SPACE)]), Ok(false)));
    assert!(matches!(system.update(&[InputEvent::KeyUp(SPACE)]), Ok(false)));
    assert!(system.action_up(jump));
    assert!(system.action_released(jump));
    assert!(!system.action_down(jump));
}

#[test]
fn last_event_of_a_frame_wins() {
    let mut system = InputSystem::new();
    let fire = system.register_action("fire", ActionBinding::MouseButton(LEFT_BUTTON));
    ready(&mut system);
    let events = [InputEvent::MouseButtonDown(LEFT_BUTTON), InputEvent::MouseButtonUp(LEFT_BUTTON)];
    assert!(matches!(system.update(&events), Ok(false)));
    assert!(system.action_released(fire));
    assert!(system.action_up(fire));
    assert!(!system.action_down(fire));
}

#[test]
fn down_and_up_in_one_frame_is_pressed_and_released() {
    let mut system = InputSystem::new();
    let jump = system.register_action("jump", ActionBinding::Scancode(SPACE));
    ready(&mut system);
    let events = [InputEvent::KeyDown(SPACE), InputEvent::KeyUp(SPACE)];
    assert!(matches!(system.update(&events), Ok(false)));
    assert!(system.action_pressed(jump));
    assert!(system.action_released(jump));
    assert!(system.action_up(jump));
    ready(&mut system);
    assert!(!system.action_pressed(jump));
    assert!(!system.action_released(jump));
}

#[test]
fn up_and_down_in_one_frame_is_released_and_pressed() {
    let mut system = InputSystem::new();
    let jump = system.register_action("jump", ActionBinding::Scancode(SPACE));
    ready(&mut system);
    assert!(matches!(system.update(&[InputEvent::KeyDown(SPACE)]), Ok(false)));
    let events = [InputEvent::KeyUp(SPACE), InputEvent::KeyDown(SPACE)];
    assert!(matches!(system.update(&events), Ok(false)));
    assert!(system.action_released(jump));
    assert!(system.action_pressed(jump));
    assert!(system.action_down(jump));
}

#[test]
fn actions_no_event_reaches_are_left_alone() {
    let mut system = InputSystem::new();
    let jump = system.register_action("jump", ActionBinding::Scancode(SPACE));
    let fire = system.register_action("fire", ActionBinding::MouseButton(LEFT_BUTTON));
    ready(&mut system);
    assert!(matches!(system.update(&[InputEvent::KeyDown(SPACE)]), Ok(false)));
    let events = [InputEvent::MouseButtonDown(LEFT_BUTTON), InputEvent::KeyDown(SPACE + 1)];
    assert!(matches!(system.update(&events), Ok(false)));
    assert!(system.action_down(jump));
    assert!(!system.action_pressed(jump));
    assert!(!system.action_released(jump));
    assert!(system.action_pressed(fire));
}

#[test]
fn frame_counts_every_update() {
    let mut system = InputSystem::new();
    for n in 1..=5u64 {
        let events = if n % 2 == 0 { vec![InputEvent::Quit] } else { vec![] };
        assert!(system.update(&events).is_ok());
        assert_eq!(system.frame(), n);
    }
}

#[test]
fn last_resize_across_updates_is_taken() {
    let mut system = InputSystem::new();
    assert!(matches!(system.update(&[InputEvent::WindowResized(640, 480)]), Ok(false)));
    assert!(matches!(system.update(&[InputEvent::WindowResized(800, 600)]), Ok(false)));
    assert!(matches!(system.update(&[InputEvent::Other]), Ok(false)));
    assert_eq!(system.take_window_resized(), Some((800, 600)));
    assert!(matches!(system.update(&[]), Ok(false)));
    assert_eq!(system.take_window_resized(), None);
}

#[test]
fn registering_again_keeps_the_state() {
    let mut system = InputSystem::new();
    let jump = system.register_action("jump", ActionBinding::Scancode(SPACE));
    ready(&mut system);
    assert!(matches!(system.update(&[InputEvent::KeyDown(SPACE)]), Ok(false)));
    let again = system.register_action("jump", ActionBinding::MouseButton(LEFT_BUTTON));
    assert_eq!(again, jump);
    ready(&mut system);
    assert!(system.action_down(jump));
    assert_eq!(system.get_action("jump"), Some(jump));
    assert!(matches!(system.update(&[InputEvent::MouseButtonUp(LEFT_BUTTON)]), Ok(false)));
    assert!(system.action_released(jump));
    assert!(system.action_up(jump));
}

#[test]
fn quit_stops_the_events_after_it() {
    let mut system = InputSystem::new();
    let jump = system.register_action("jump", ActionBinding::Scancode(SPACE));
    ready(&mut system);
    let events = [InputEvent::Quit, InputEvent::KeyDown(SPACE), InputEvent::WindowResized(10, 20)];
    assert!(matches!(system.update(&events), Ok(true)));
    assert!(!system.action_down(jump));
    assert_eq!(system.take_window_resized(), None);
}

#[test]
fn window_resize_is_taken_once() {
    let mut system = InputSystem::new();
    let events = [InputEvent::WindowResized(800, 600), InputEvent::WindowResized(1024, 768)];
    assert!(matches!(system.update(&events), Ok(false)));
    assert_eq!(system.take_window_resized(), Some((1024, 768)));
    assert_eq!(system.take_window_resized(), None);
}

#[test]
fn other_events_change_nothing() {
    let mut system = InputSystem::new();
    let jump = system.register_action("jump", ActionBinding::Scancode(SPACE));
    ready(&mut system);
    assert!(matches!(system.update(&[InputEvent::Other, InputEvent::KeyDown(SPACE + 1)]), Ok(false)));
    assert!(system.action_up(jump));
    assert!(!system.action_released(jump));
    assert_eq!(system.take_window_resized(), None);
}

#[test]
fn registering_twice_keeps_one_action() {
    let mut system = InputSystem::new();
    let first = system.register_action("jump", ActionBinding::Scancode(SPACE));
    let second = system.register_action("jump", ActionBinding::Scancode(SPACE));
    assert_eq!(first, second);
    ready(&mut system);
    let third = system.register_action("jump", ActionBinding::MouseButton(LEFT_BUTTON));
    ready(&mut system);
    assert_eq!(system.get_action("jump"), Some(first));
    assert!(matches!(system.update(&[InputEvent::MouseButtonDown(LEFT_BUTTON)]), Ok(false)));
    assert!(system.action_pressed(third));
}

#[test]
fn registration_happens_before_the_events_of_the_same_update() {
    let mut system = InputSystem::new();
    let jump = system.register_action("jump", ActionBinding::Scancode(SPACE));
    assert!(matches!(system.update(&[InputEvent::KeyDown(SPACE)]), Ok(false)));
    assert!(system.action_pressed(jump));
}

#[test]
fn input_error_names_both_names() {
    let error = InputError::NameCollision { existing: String::from("a"), new: String::from("b") };
    match error {
        InputError::NameCollision { existing, new } => {
            assert_eq!(existing, "a");
            assert_eq!(new, "b");
        }
        InputError::CapacityOverflow => panic!("wrong variant"),
    }
}

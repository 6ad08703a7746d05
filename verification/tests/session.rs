use norse_haptic::ActionSet;
use norse_haptic::ActionSuggestedBinding;
use norse_haptic::ActionType;
use norse_haptic::Device;
use norse_haptic::Error;
use norse_haptic::Event;
use norse_haptic::Handle;
use norse_haptic::Instance;
use norse_haptic::Interner;
use norse_haptic::Path;
use norse_haptic::Session;

/// Instance and session plus one action set holding one action of the
/// given type, bound to the given source path under the desktop profile.
fn bound_action(ty: ActionType, source: &str) -> (Instance, Session, ActionSet, Handle) {
    let mut instance = Instance::create().unwrap();
    let system = instance.create_system().unwrap();
    let session = instance.create_session(&system).unwrap();
    let mut set = instance.create_action_set("game").unwrap();
    let action = set.create_action("act", ty, &[]).unwrap();
    let source_path = instance.string_to_path(source);
    let profile = instance.string_to_path("/interaction_profiles/norse/desktop");
    instance.suggest_interaction_profile_bindings(
        profile,
        &mut set,
        &[ActionSuggestedBinding { action, binding: source_path }],
    );
    (instance, session, set, action)
}

#[test]
fn reset_zeroes_mouse_delta() {
    let mut interner = Interner::new();
    let mut mouse = Device::new_mouse(&mut interner);
    mouse.apply_motion(12, -9);
    mouse.reset();
    let state = mouse.get_mouse();
    assert_eq!(state.delta_x, 0);
    assert_eq!(state.delta_y, 0);
}

#[test]
fn end_to_end_delta_x_scalar() {
    let (_instance, mut session, set, action) =
        bound_action(ActionType::FloatInput, "/user/mouse/input/delta_x/scalar");
    session.attach_action_sets(std::slice::from_ref(&set));
    session.sync_actions(std::slice::from_ref(&set), &[Event::MouseMotion { dx: 5, dy: 0 }]);
    let state = session.get_action_state_float(&set, action, Path::null()).unwrap();
    assert_eq!(state.current_state, 5);
}

#[test]
fn backlog_of_two_motion_events_reports_both_deltas() {
    // Two synchronization cycles; the motion events all sit queued until
    // the second drains them.  The deltas combine additively: 3 + 4 = 7.
    let (_instance, mut session, set, action) =
        bound_action(ActionType::FloatInput, "/user/mouse/input/delta_x/scalar");
    session.sync_actions(std::slice::from_ref(&set), &[]);
    session.sync_actions(
        std::slice::from_ref(&set),
        &[Event::MouseMotion { dx: 3, dy: 0 }, Event::MouseMotion { dx: 4, dy: 0 }],
    );
    let state = session.get_action_state_float(&set, action, Path::null()).unwrap();
    assert_eq!(state.current_state, 7);
}

#[test]
fn each_tick_resets_the_accumulated_delta() {
    // Motion drained by an earlier tick is cleared by the next tick's
    // reset step: only the delta since the last synchronization remains.
    let (_instance, mut session, set, action) =
        bound_action(ActionType::FloatInput, "/user/mouse/input/delta_x/scalar");
    session.sync_actions(std::slice::from_ref(&set), &[Event::MouseMotion { dx: 3, dy: 0 }]);
    session.sync_actions(std::slice::from_ref(&set), &[Event::MouseMotion { dx: 4, dy: 0 }]);
    let state = session.get_action_state_float(&set, action, Path::null()).unwrap();
    assert_eq!(state.current_state, 4);
}

#[test]
fn negative_motion_accumulates() {
    let (_instance, mut session, set, action) =
        bound_action(ActionType::FloatInput, "/user/mouse/input/delta_x/scalar");
    session.sync_actions(
        std::slice::from_ref(&set),
        &[Event::MouseMotion { dx: 3, dy: 0 }, Event::MouseMotion { dx: -4, dy: 0 }],
    );
    let state = session.get_action_state_float(&set, action, Path::null()).unwrap();
    assert_eq!(state.current_state, -1);
}

#[test]
fn vertical_delta_reads_through_its_own_mapping() {
    let (_instance, mut session, set, action) =
        bound_action(ActionType::FloatInput, "/user/mouse/input/delta_y/scalar");
    session.sync_actions(std::slice::from_ref(&set), &[Event::MouseMotion { dx: 5, dy: -2 }]);
    let state = session.get_action_state_float(&set, action, Path::null()).unwrap();
    assert_eq!(state.current_state, -2);
}

#[test]
fn accumulation_saturates_at_the_bounds() {
    let (_instance, mut session, set, action) =
        bound_action(ActionType::FloatInput, "/user/mouse/input/delta_x/scalar");
    session.sync_actions(
        std::slice::from_ref(&set),
        &[Event::MouseMotion { dx: i64::MAX, dy: 0 }, Event::MouseMotion { dx: i64::MAX, dy: 0 }],
    );
    let state = session.get_action_state_float(&set, action, Path::null()).unwrap();
    assert_eq!(state.current_state, i64::MAX);
}

#[test]
fn unbound_boolean_action_reads_false_without_error() {
    let mut instance = Instance::create().unwrap();
    let system = instance.create_system().unwrap();
    let session = instance.create_session(&system).unwrap();
    let mut set = instance.create_action_set("game").unwrap();
    let action = set.create_action("jump", ActionType::BooleanInput, &[]).unwrap();
    let state = session.get_action_state_boolean(&set, action, Path::null()).unwrap();
    assert!(!state.current_state);
}

#[test]
fn unbound_float_action_reads_zero_without_error() {
    let mut instance = Instance::create().unwrap();
    let system = instance.create_system().unwrap();
    let session = instance.create_session(&system).unwrap();
    let mut set = instance.create_action_set("game").unwrap();
    let action = set.create_action("move", ActionType::FloatInput, &[]).unwrap();
    let state = session.get_action_state_float(&set, action, Path::null()).unwrap();
    assert_eq!(state.current_state, 0);
}

#[test]
fn float_action_queried_as_boolean_is_type_mismatch() {
    let (_instance, session, set, action) =
        bound_action(ActionType::FloatInput, "/user/mouse/input/delta_x/scalar");
    let err = session.get_action_state_boolean(&set, action, Path::null()).unwrap_err();
    assert_eq!(err, Error::TypeMismatch);
}

#[test]
fn boolean_action_queried_as_float_is_type_mismatch() {
    let (_instance, session, set, action) =
        bound_action(ActionType::BooleanInput, "/user/mouse/input/left/click");
    let err = session.get_action_state_float(&set, action, Path::null()).unwrap_err();
    assert_eq!(err, Error::TypeMismatch);
}

#[test]
fn vibration_action_has_no_readable_state() {
    let mut instance = Instance::create().unwrap();
    let system = instance.create_system().unwrap();
    let session = instance.create_session(&system).unwrap();
    let mut set = instance.create_action_set("game").unwrap();
    let action = set.create_action("rumble", ActionType::VibrationOutput, &[]).unwrap();
    assert_eq!(
        session.get_action_state_float(&set, action, Path::null()).unwrap_err(),
        Error::TypeMismatch
    );
    assert_eq!(
        session.get_action_state_boolean(&set, action, Path::null()).unwrap_err(),
        Error::TypeMismatch
    );
}

#[test]
fn click_source_reads_true() {
    let (_instance, mut session, set, action) =
        bound_action(ActionType::BooleanInput, "/user/mouse/input/left/click");
    session.sync_actions(std::slice::from_ref(&set), &[]);
    let state = session.get_action_state_boolean(&set, action, Path::null()).unwrap();
    assert!(state.current_state);
}

#[test]
fn key_and_unknown_events_change_no_state() {
    let (_instance, mut session, set, action) =
        bound_action(ActionType::FloatInput, "/user/mouse/input/delta_x/scalar");
    session.sync_actions(
        std::slice::from_ref(&set),
        &[Event::Key { code: 30 }, Event::Unknown],
    );
    let state = session.get_action_state_float(&set, action, Path::null()).unwrap();
    assert_eq!(state.current_state, 0);
}

#[test]
fn binding_before_session_creation_resolves_identically() {
    // Paths are process-stable, so a binding recorded before the session
    // exists names the same device the session later registers.
    let mut instance = Instance::create().unwrap();
    let mut set = instance.create_action_set("game").unwrap();
    let action = set.create_action("move", ActionType::FloatInput, &[]).unwrap();
    let source_path = instance.string_to_path("/user/mouse/input/delta_x/scalar");
    let profile = instance.string_to_path("/interaction_profiles/norse/desktop");
    instance.suggest_interaction_profile_bindings(
        profile,
        &mut set,
        &[ActionSuggestedBinding { action, binding: source_path }],
    );
    let system = instance.create_system().unwrap();
    let mut session = instance.create_session(&system).unwrap();
    session.sync_actions(std::slice::from_ref(&set), &[Event::MouseMotion { dx: 5, dy: 0 }]);
    let state = session.get_action_state_float(&set, action, Path::null()).unwrap();
    assert_eq!(state.current_state, 5);
}

#[test]
fn boolean_valued_source_contributes_nothing_to_a_scalar_action() {
    let (_instance, mut session, set, action) =
        bound_action(ActionType::FloatInput, "/user/mouse/input/left/click");
    session.sync_actions(std::slice::from_ref(&set), &[Event::MouseMotion { dx: 5, dy: 0 }]);
    let state = session.get_action_state_float(&set, action, Path::null()).unwrap();
    assert_eq!(state.current_state, 0);
}

#[test]
fn scalar_valued_source_contributes_nothing_to_a_boolean_action() {
    let (_instance, mut session, set, action) =
        bound_action(ActionType::BooleanInput, "/user/mouse/input/delta_x/scalar");
    session.sync_actions(std::slice::from_ref(&set), &[Event::MouseMotion { dx: 5, dy: 0 }]);
    let state = session.get_action_state_boolean(&set, action, Path::null()).unwrap();
    assert!(!state.current_state);
}

#[test]
fn error_descriptions_name_each_kind() {
    assert_eq!(Error::TypeMismatch.describe(), "type mismatch");
    assert_eq!(Error::UnknownPath.describe(), "unknown path");
    assert_eq!(Error::DeviceEnumerationFailed.describe(), "device enumeration failed");
}

use norse_haptic::ActionSuggestedBinding;
use norse_haptic::ActionType;
use norse_haptic::Event;
use norse_haptic::Instance;
use norse_haptic::Path;

#[test]
fn non_desktop_profile_suggestion_is_silently_discarded() {
    let mut instance = Instance::create().unwrap();
    let system = instance.create_system().unwrap();
    let mut session = instance.create_session(&system).unwrap();
    let mut set = instance.create_action_set("game").unwrap();
    let action = set.create_action("move", ActionType::FloatInput, &[]).unwrap();
    let source_path = instance.string_to_path("/user/mouse/input/delta_x/scalar");
    let other_profile = instance.string_to_path("/interaction_profiles/acme/gamepad");
    instance.suggest_interaction_profile_bindings(
        other_profile,
        &mut set,
        &[ActionSuggestedBinding { action, binding: source_path }],
    );
    session.sync_actions(std::slice::from_ref(&set), &[Event::MouseMotion { dx: 9, dy: 0 }]);
    let state = session.get_action_state_float(&set, action, Path::null()).unwrap();
    assert_eq!(state.current_state, 0);
}

#[test]
fn repeated_suggestion_duplicates_the_source() {
    // Lists are append-only: the same binding suggested twice feeds the
    // action twice, so one 5-count motion reads as 10.
    let mut instance = Instance::create().unwrap();
    let system = instance.create_system().unwrap();
    let mut session = instance.create_session(&system).unwrap();
    let mut set = instance.create_action_set("game").unwrap();
    let action = set.create_action("move", ActionType::FloatInput, &[]).unwrap();
    let source_path = instance.string_to_path("/user/mouse/input/delta_x/scalar");
    let profile = instance.string_to_path("/interaction_profiles/norse/desktop");
    let binding = ActionSuggestedBinding { action, binding: source_path };
    instance.suggest_interaction_profile_bindings(profile, &mut set, &[binding, binding]);
    session.sync_actions(std::slice::from_ref(&set), &[Event::MouseMotion { dx: 5, dy: 0 }]);
    let state = session.get_action_state_float(&set, action, Path::null()).unwrap();
    assert_eq!(state.current_state, 10);
}

#[test]
fn source_at_unknown_user_path_contributes_nothing() {
    let mut instance = Instance::create().unwrap();
    let system = instance.create_system().unwrap();
    let mut session = instance.create_session(&system).unwrap();
    let mut set = instance.create_action_set("game").unwrap();
    let action = set.create_action("move", ActionType::FloatInput, &[]).unwrap();
    let source_path = instance.string_to_path("/user/gamepad/input/delta_x/scalar");
    let profile = instance.string_to_path("/interaction_profiles/norse/desktop");
    instance.suggest_interaction_profile_bindings(
        profile,
        &mut set,
        &[ActionSuggestedBinding { action, binding: source_path }],
    );
    session.sync_actions(std::slice::from_ref(&set), &[Event::MouseMotion { dx: 6, dy: 0 }]);
    let state = session.get_action_state_float(&set, action, Path::null()).unwrap();
    assert_eq!(state.current_state, 0);
}

#[test]
fn source_at_unmapped_input_path_contributes_nothing() {
    let mut instance = Instance::create().unwrap();
    let system = instance.create_system().unwrap();
    let mut session = instance.create_session(&system).unwrap();
    let mut set = instance.create_action_set("game").unwrap();
    let action = set.create_action("move", ActionType::FloatInput, &[]).unwrap();
    let source_path = instance.string_to_path("/user/mouse/input/wheel/scalar");
    let profile = instance.string_to_path("/interaction_profiles/norse/desktop");
    instance.suggest_interaction_profile_bindings(
        profile,
        &mut set,
        &[ActionSuggestedBinding { action, binding: source_path }],
    );
    session.sync_actions(std::slice::from_ref(&set), &[Event::MouseMotion { dx: 6, dy: 0 }]);
    let state = session.get_action_state_float(&set, action, Path::null()).unwrap();
    assert_eq!(state.current_state, 0);
}

#[test]
fn two_sources_feed_one_action_additively() {
    // The source grouping exists to let several physical inputs feed one
    // logical action; scalar sources sum.
    let mut instance = Instance::create().unwrap();
    let system = instance.create_system().unwrap();
    let mut session = instance.create_session(&system).unwrap();
    let mut set = instance.create_action_set("game").unwrap();
    let action = set.create_action("move", ActionType::FloatInput, &[]).unwrap();
    let x_path = instance.string_to_path("/user/mouse/input/delta_x/scalar");
    let y_path = instance.string_to_path("/user/mouse/input/delta_y/scalar");
    let profile = instance.string_to_path("/interaction_profiles/norse/desktop");
    instance.suggest_interaction_profile_bindings(
        profile,
        &mut set,
        &[
            ActionSuggestedBinding { action, binding: x_path },
            ActionSuggestedBinding { action, binding: y_path },
        ],
    );
    session.sync_actions(std::slice::from_ref(&set), &[Event::MouseMotion { dx: 2, dy: 7 }]);
    let state = session.get_action_state_float(&set, action, Path::null()).unwrap();
    assert_eq!(state.current_state, 9);
}

#[test]
fn handles_index_actions_in_creation_order() {
    let mut instance = Instance::create().unwrap();
    let mut set = instance.create_action_set("game").unwrap();
    let first = set.create_action("a", ActionType::BooleanInput, &[]).unwrap();
    let second = set.create_action("b", ActionType::FloatInput, &[]).unwrap();
    assert_eq!(first.idx, 0);
    assert_eq!(second.idx, 1);
}

#[test]
fn subpaths_declare_one_slot_each() {
    let mut instance = Instance::create().unwrap();
    let left = instance.string_to_path("/user/hand/left");
    let right = instance.string_to_path("/user/hand/right");
    let mut set = instance.create_action_set("game").unwrap();
    let action = set.create_action("grab", ActionType::BooleanInput, &[left, right]).unwrap();
    assert_eq!(action.idx, 0);
    let system = instance.create_system().unwrap();
    let session = instance.create_session(&system).unwrap();
    let state = session.get_action_state_boolean(&set, action, left).unwrap();
    assert!(!state.current_state);
}

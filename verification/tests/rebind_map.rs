use rebind::{Action, Button, ButtonTuple, InputRebind, MouseTranslationData, RebindBuilder, Size};

#[derive(Clone, Copy, Debug, Eq, Hash, PartialEq, Ord, PartialOrd)]
struct Act(u64);

impl Action for Act {
    fn spec_rank(&self) -> u64 {
        self.0
    }

    fn rank(&self) -> u64 {
        self.0
    }
}

#[test]
fn insert_action_starts_with_no_buttons() {
    let mut rebind: InputRebind<Act> = InputRebind::default();
    assert_eq!(rebind.insert_action(Act(1)), None);
    assert_eq!(rebind.get_bindings(&Act(1)), Some(&ButtonTuple(None, None, None)));
    assert_eq!(rebind.get_bindings(&Act(2)), None);
}

#[test]
fn insert_action_again_returns_and_resets_the_buttons() {
    let mut rebind: InputRebind<Act> = InputRebind::default();
    let buttons = ButtonTuple(Some(Button::Keyboard(1)), Some(Button::Mouse(2)), None);
    assert_eq!(rebind.insert_action_with_buttons(Act(1), buttons), None);
    assert_eq!(rebind.insert_action(Act(1)), Some(buttons));
    assert_eq!(rebind.get_bindings(&Act(1)), Some(&ButtonTuple(None, None, None)));
}

#[test]
fn insert_action_with_buttons_returns_the_former_buttons() {
    let mut rebind: InputRebind<Act> = InputRebind::default();
    let first = ButtonTuple(Some(Button::Keyboard(1)), None, None);
    let second = ButtonTuple(None, None, Some(Button::Keyboard(2)));
    assert_eq!(rebind.insert_action_with_buttons(Act(9), first), None);
    assert_eq!(rebind.insert_action_with_buttons(Act(9), second), Some(first));
    assert_eq!(rebind.get_bindings(&Act(9)), Some(&second));
}

#[test]
fn get_bindings_mut_changes_the_buttons_in_place() {
    let mut rebind: InputRebind<Act> = InputRebind::default();
    rebind.insert_action(Act(1));
    rebind.insert_action_with_buttons(Act(2), ButtonTuple(Some(Button::Keyboard(5)), None, None));
    let mut action = Act(1);
    assert!(rebind.get_bindings_mut(&mut action).unwrap().insert_inplace(Button::Mouse(1)));
    assert_eq!(action, Act(1));
    assert_eq!(rebind.get_bindings(&Act(1)), Some(&ButtonTuple(Some(Button::Mouse(1)), None, None)));
    assert_eq!(
        rebind.get_bindings(&Act(2)),
        Some(&ButtonTuple(Some(Button::Keyboard(5)), None, None))
    );
    let mut missing = Act(3);
    assert_eq!(rebind.get_bindings_mut(&mut missing), None);
    assert_eq!(rebind.get_bindings(&Act(3)), None);
}

#[test]
fn default_rebind_has_a_viewport_of_800_by_600() {
    let rebind: InputRebind<Act> = InputRebind::default();
    assert_eq!(*rebind.get_viewport_size(), Size { width: 800, height: 600 });
    assert_eq!(*rebind.get_x_scroll_inverted(), false);
    assert_eq!(*rebind.get_y_scroll_inverted(), false);
    assert_eq!(*rebind.get_x_motion_inverted(), false);
    assert_eq!(*rebind.get_y_motion_inverted(), false);
}

#[test]
fn each_setting_is_changed_by_itself() {
    let mut rebind: InputRebind<Act> = InputRebind::new(Size { width: 1, height: 2 });
    *rebind.get_x_scroll_inverted_mut() = true;
    assert_eq!(
        (
            *rebind.get_x_scroll_inverted(),
            *rebind.get_y_scroll_inverted(),
            *rebind.get_x_motion_inverted(),
            *rebind.get_y_motion_inverted(),
        ),
        (true, false, false, false)
    );
    *rebind.get_y_scroll_inverted_mut() = true;
    *rebind.get_x_scroll_inverted_mut() = false;
    *rebind.get_x_motion_inverted_mut() = true;
    assert_eq!(
        (
            *rebind.get_x_scroll_inverted(),
            *rebind.get_y_scroll_inverted(),
            *rebind.get_x_motion_inverted(),
            *rebind.get_y_motion_inverted(),
        ),
        (false, true, true, false)
    );
    *rebind.get_y_motion_inverted_mut() = true;
    *rebind.get_viewport_size_mut() = Size { width: 7, height: 9 };
    assert_eq!(*rebind.get_y_motion_inverted(), true);
    assert_eq!(*rebind.get_viewport_size(), Size { width: 7, height: 9 });
}

#[test]
fn builder_carries_its_settings_into_what_it_builds() {
    let builder: RebindBuilder<Act> = RebindBuilder::new(Size { width: 5, height: 6 })
        .x_scroll_inverted(true)
        .y_motion_inverted(true)
        .viewport_size(Size { width: 50, height: 60 });
    assert_eq!(*builder.get_x_scroll_inverted(), true);
    assert_eq!(*builder.get_y_scroll_inverted(), false);
    assert_eq!(*builder.get_x_motion_inverted(), false);
    assert_eq!(*builder.get_y_motion_inverted(), true);
    assert_eq!(*builder.get_viewport_size(), Size { width: 50, height: 60 });
    let rebind = builder.build_rebind();
    assert_eq!(*rebind.get_x_scroll_inverted(), true);
    assert_eq!(*rebind.get_y_scroll_inverted(), false);
    assert_eq!(*rebind.get_x_motion_inverted(), false);
    assert_eq!(*rebind.get_y_motion_inverted(), true);
    assert_eq!(*rebind.get_viewport_size(), Size { width: 50, height: 60 });
}

#[test]
fn builder_setters_can_be_undone() {
    let builder: RebindBuilder<Act> = RebindBuilder::default()
        .y_scroll_inverted(true)
        .x_motion_inverted(true)
        .y_scroll_inverted(false);
    assert_eq!(*builder.get_y_scroll_inverted(), false);
    assert_eq!(*builder.get_x_motion_inverted(), true);
    assert_eq!(*builder.get_viewport_size(), Size { width: 800, height: 600 });
}

#[test]
fn last_binding_of_a_button_wins_in_the_builder() {
    let rebind = RebindBuilder::default()
        .with_action_mapping(Button::Keyboard(1), Act(1))
        .with_action_mapping(Button::Keyboard(2), Act(1))
        .with_action_mapping(Button::Keyboard(1), Act(2))
        .build_rebind();
    assert_eq!(rebind.get_bindings(&Act(1)), Some(&ButtonTuple(Some(Button::Keyboard(2)), None, None)));
    assert_eq!(rebind.get_bindings(&Act(2)), Some(&ButtonTuple(Some(Button::Keyboard(1)), None, None)));
}

#[test]
fn builder_converts_through_from_as_through_its_methods() {
    let make = || {
        RebindBuilder::new(Size { width: 2, height: 3 })
            .with_action_mapping(Button::Mouse(1), Act(1))
            .with_action_mapping(Button::Mouse(0), Act(1))
    };
    let translator: rebind::InputTranslator<Act> = make().into();
    assert_eq!(translator, make().build_translator());
    let rebind: InputRebind<Act> = make().into();
    assert_eq!(rebind, make().build_rebind());
    assert_eq!(
        rebind.get_bindings(&Act(1)),
        Some(&ButtonTuple(Some(Button::Mouse(0)), Some(Button::Mouse(1)), None))
    );
    let plain = MouseTranslationData::new(Size { width: 2, height: 3 });
    assert_eq!(*rebind.get_viewport_size(), plain.viewport_size);
}

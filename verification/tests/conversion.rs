use rebind::{
    Action, Button, ButtonTuple, Input, InputRebind, InputTranslator, RebindBuilder, Size,
    Translated,
};

#[derive(Clone, Copy, Debug, Eq, Hash, PartialEq, Ord, PartialOrd)]
struct Act(u64);

impl Action for Act {
    fn spec_rank(&self) -> u64 {
        self.0
    }

    fn rank(&self) -> u64 {
        self.0
    }
}

fn key(code: u32) -> Button {
    Button::Keyboard(code)
}

fn pressed(translator: &InputTranslator<Act>, button: Button) -> Option<Act> {
    match translator.translate(&Input::Press(button)) {
        Some(Translated::Press(action)) => Some(action),
        _ => None,
    }
}

#[test]
fn shared_button_goes_to_the_action_of_higher_rank() {
    for _ in 0..20 {
        let mut rebind: InputRebind<Act> = InputRebind::default();
        rebind.insert_action_with_buttons(Act(1), ButtonTuple(Some(key(75)), None, None));
        rebind.insert_action_with_buttons(Act(2), ButtonTuple(None, Some(key(75)), None));
        let translator = rebind.into_translator();
        assert_eq!(pressed(&translator, key(75)), Some(Act(2)));
    }
}

#[test]
fn shared_buttons_go_to_the_higher_rank_whatever_the_order_of_insertion() {
    let mut rebind: InputRebind<Act> = InputRebind::default();
    for n in 0..60u32 {
        let low = Act(u64::from(n));
        let high = Act(u64::from(n) + 1000);
        let shared = ButtonTuple(Some(key(n)), Some(Button::Mouse(n)), None);
        if n % 2 == 0 {
            rebind.insert_action_with_buttons(low, shared);
            rebind.insert_action_with_buttons(high, shared);
        } else {
            rebind.insert_action_with_buttons(high, shared);
            rebind.insert_action_with_buttons(low, shared);
        }
    }
    let translator = rebind.into_translator();
    for n in 0..60u32 {
        assert_eq!(pressed(&translator, key(n)), Some(Act(u64::from(n) + 1000)));
        assert_eq!(pressed(&translator, Button::Mouse(n)), Some(Act(u64::from(n) + 1000)));
    }
}

#[test]
fn fourth_button_of_an_action_is_dropped() {
    let translator = RebindBuilder::default()
        .with_action_mapping(key(40), Act(7))
        .with_action_mapping(key(10), Act(7))
        .with_action_mapping(key(30), Act(7))
        .with_action_mapping(key(20), Act(7))
        .build_translator();
    let rebind = translator.into_rebind();
    assert_eq!(
        rebind.get_bindings(&Act(7)),
        Some(&ButtonTuple(Some(key(10)), Some(key(20)), Some(key(30))))
    );
    assert!(!rebind.get_bindings(&Act(7)).unwrap().contains(key(40)));
}

#[test]
fn truncation_goes_by_the_order_of_buttons_not_by_the_order_of_binding() {
    let translator = RebindBuilder::default()
        .with_action_mapping(Button::Hat { id: 0, state: 1, which: 0 }, Act(1))
        .with_action_mapping(Button::Controller { id: 0, button: 3 }, Act(1))
        .with_action_mapping(Button::Mouse(2), Act(1))
        .with_action_mapping(key(900), Act(1))
        .with_action_mapping(Button::Mouse(1), Act(1))
        .build_translator();
    let rebind = translator.into_rebind();
    assert_eq!(
        rebind.get_bindings(&Act(1)),
        Some(&ButtonTuple(Some(key(900)), Some(Button::Mouse(1)), Some(Button::Mouse(2))))
    );
}

#[test]
fn fewer_than_three_buttons_are_padded_with_empty_slots() {
    let translator = RebindBuilder::default()
        .with_action_mapping(key(5), Act(1))
        .with_action_mapping(key(9), Act(2))
        .with_action_mapping(key(3), Act(2))
        .build_translator();
    let rebind = translator.into_rebind();
    assert_eq!(rebind.get_bindings(&Act(1)), Some(&ButtonTuple(Some(key(5)), None, None)));
    assert_eq!(
        rebind.get_bindings(&Act(2)),
        Some(&ButtonTuple(Some(key(3)), Some(key(9)), None))
    );
    assert_eq!(rebind.get_bindings(&Act(3)), None);
}

#[test]
fn many_actions_each_keep_their_own_buttons() {
    let mut builder: RebindBuilder<Act> = RebindBuilder::default();
    for n in 0..50u32 {
        builder = builder
            .with_action_mapping(key(3 * n + 2), Act(u64::from(n % 10)))
            .with_action_mapping(key(3 * n), Act(u64::from(n)))
            .with_action_mapping(key(3 * n + 1), Act(u64::from(n)));
    }
    let rebind = builder.build_rebind();
    for n in 10..50u32 {
        assert_eq!(
            rebind.get_bindings(&Act(u64::from(n))),
            Some(&ButtonTuple(Some(key(3 * n)), Some(key(3 * n + 1)), None))
        );
    }
    for n in 0..10u32 {
        assert_eq!(
            rebind.get_bindings(&Act(u64::from(n))),
            Some(&ButtonTuple(Some(key(3 * n)), Some(key(3 * n + 1)), Some(key(3 * n + 2))))
        );
    }
}

#[test]
fn action_without_buttons_does_not_survive_the_translator() {
    let mut rebind: InputRebind<Act> = InputRebind::default();
    rebind.insert_action(Act(1));
    rebind.insert_action_with_buttons(Act(2), ButtonTuple(Some(key(1)), None, None));
    let back = rebind.into_translator().into_rebind();
    assert_eq!(back.get_bindings(&Act(1)), None);
    assert_eq!(back.get_bindings(&Act(2)), Some(&ButtonTuple(Some(key(1)), None, None)));
}

#[test]
fn empty_views_convert_to_empty_views() {
    let rebind: InputRebind<Act> = InputRebind::new(Size { width: 1, height: 2 });
    let translator = rebind.into_translator();
    assert_eq!(pressed(&translator, key(0)), None);
    let back = translator.into_rebind();
    assert_eq!(back.get_bindings(&Act(0)), None);
    assert_eq!(*back.get_viewport_size(), Size { width: 1, height: 2 });
}

#[test]
fn round_trip_gives_the_same_translator() {
    let mut rebind: InputRebind<Act> = InputRebind::new(Size { width: 640, height: 480 });
    *rebind.get_y_scroll_inverted_mut() = true;
    rebind.insert_action(Act(0));
    rebind.insert_action_with_buttons(Act(3), ButtonTuple(Some(key(9)), None, Some(key(4))));
    rebind.insert_action_with_buttons(
        Act(1),
        ButtonTuple(Some(Button::Mouse(1)), Some(key(2)), Some(key(1))),
    );
    rebind.insert_action_with_buttons(Act(2), ButtonTuple(None, Some(key(7)), None));
    let first = rebind.into_translator();
    let second = first.clone().into_rebind().into_translator();
    assert_eq!(first, second);
    assert_eq!(pressed(&second, key(4)), Some(Act(3)));
    assert_eq!(pressed(&second, Button::Mouse(1)), Some(Act(1)));
}

#[test]
fn round_trip_holds_with_shared_buttons_too() {
    let mut rebind: InputRebind<Act> = InputRebind::default();
    rebind.insert_action_with_buttons(Act(1), ButtonTuple(Some(key(1)), Some(key(2)), Some(key(3))));
    rebind.insert_action_with_buttons(Act(2), ButtonTuple(Some(key(3)), Some(key(4)), None));
    let first = rebind.into_translator();
    assert_eq!(pressed(&first, key(3)), Some(Act(2)));
    let back = first.clone().into_rebind();
    assert_eq!(back.get_bindings(&Act(1)), Some(&ButtonTuple(Some(key(1)), Some(key(2)), None)));
    assert_eq!(back.get_bindings(&Act(2)), Some(&ButtonTuple(Some(key(3)), Some(key(4)), None)));
    assert_eq!(first, back.into_translator());
}

#[test]
fn conversions_carry_the_axis_settings() {
    let mut rebind: InputRebind<Act> = InputRebind::new(Size { width: 10, height: 20 });
    *rebind.get_x_motion_inverted_mut() = true;
    *rebind.get_y_scroll_inverted_mut() = true;
    let back = rebind.clone().into_translator().into_rebind();
    assert_eq!(*back.get_x_motion_inverted(), true);
    assert_eq!(*back.get_y_motion_inverted(), false);
    assert_eq!(*back.get_x_scroll_inverted(), false);
    assert_eq!(*back.get_y_scroll_inverted(), true);
    assert_eq!(*back.get_viewport_size(), Size { width: 10, height: 20 });
    assert_eq!(back, rebind);
}

#[test]
fn from_converts_as_the_methods_do() {
    let mut rebind: InputRebind<Act> = InputRebind::default();
    rebind.insert_action_with_buttons(Act(4), ButtonTuple(Some(key(8)), None, None));
    let translator = InputTranslator::from(rebind.clone());
    assert_eq!(translator, rebind.clone().into_translator());
    let back = InputRebind::from(translator);
    assert_eq!(back, rebind);
}

use input::keyboard::Key;
use rebind::{Action, Button, ButtonTuple, Input, InputRebind, InputTranslator, RebindBuilder, Translated};

#[derive(Clone, Copy, Debug, Eq, Hash, PartialEq, Ord, PartialOrd)]
enum TestAction {
    Action1,
    Action2,
    Action3,
    Action4,
    Action5,
}

impl Action for TestAction {
    fn spec_rank(&self) -> u64 {
        self.rank()
    }

    fn rank(&self) -> u64 {
        match self {
            TestAction::Action1 => 1,
            TestAction::Action2 => 2,
            TestAction::Action3 => 3,
            TestAction::Action4 => 4,
            TestAction::Action5 => 5,
        }
    }
}

type TestBuilder = RebindBuilder<TestAction>;
type TestTranslator = InputTranslator<TestAction>;
type TestRebind = InputRebind<TestAction>;

fn keyboard(key: Key) -> Button {
    Button::Keyboard(u32::from(key))
}

fn create_prepopulated_builder() -> TestBuilder {
    RebindBuilder::default()
        .with_action_mapping(keyboard(Key::Up), TestAction::Action1)
        .with_action_mapping(keyboard(Key::W), TestAction::Action1)
        .with_action_mapping(keyboard(Key::Down), TestAction::Action2)
        .with_action_mapping(keyboard(Key::S), TestAction::Action2)
        .with_action_mapping(keyboard(Key::Left), TestAction::Action3)
        .with_action_mapping(keyboard(Key::A), TestAction::Action3)
        .with_action_mapping(keyboard(Key::Right), TestAction::Action4)
        .with_action_mapping(keyboard(Key::D), TestAction::Action4)
}

#[test]
fn test_translator_get_action_from_buttonpress() {
    let translator = create_prepopulated_builder().build_translator();

    assert_eq!(
        translator.translate(&Input::Press(keyboard(Key::Down))).unwrap(),
        Translated::Press(TestAction::Action2)
    );

    assert_eq!(
        translator.translate(&Input::Press(keyboard(Key::D))).unwrap(),
        Translated::Press(TestAction::Action4)
    );

    assert_eq!(
        translator.translate(&Input::Press(keyboard(Key::Left))).unwrap(),
        Translated::Press(TestAction::Action3)
    );

    assert_eq!(
        translator.translate(&Input::Press(keyboard(Key::W))).unwrap(),
        Translated::Press(TestAction::Action1)
    );
}

#[test]
fn test_conversion_from_rebind_to_translator() {
    let translator = create_prepopulated_builder().build_translator();

    let translator_clone = translator.clone();
    let converted_translator =
        Into::<TestTranslator>::into(Into::<TestRebind>::into(translator));

    assert_eq!(translator_clone, converted_translator);
}

#[test]
fn test_add_button_to_translator_using_rebind() {
    let q_key: Button = keyboard(Key::Q);
    let e_key: Button = keyboard(Key::E);

    let translator = create_prepopulated_builder().build_translator();
    let mut rebind = translator.into_rebind();
    rebind.insert_action_with_buttons(
        TestAction::Action5,
        ButtonTuple(Some(q_key), Some(e_key), None),
    );

    let translator = rebind.into_translator();

    assert_eq!(
        translator.translate(&Input::Press(q_key)),
        Some(Translated::Press(TestAction::Action5))
    );
    assert_eq!(
        translator.translate(&Input::Press(e_key)),
        Some(Translated::Press(TestAction::Action5))
    );
}

#[test]
fn bound_button_translates_and_unbound_button_does_not() {
    let translator = TestBuilder::default()
        .with_action_mapping(keyboard(Key::Up), TestAction::Action1)
        .with_action_mapping(keyboard(Key::W), TestAction::Action1)
        .with_action_mapping(keyboard(Key::Down), TestAction::Action2)
        .with_action_mapping(keyboard(Key::D), TestAction::Action4)
        .build_translator();

    assert_eq!(
        translator.translate(&Input::Press(keyboard(Key::Down))),
        Some(Translated::Press(TestAction::Action2))
    );
    assert_eq!(translator.translate(&Input::Press(keyboard(Key::Q))), None);
}

#[test]
fn release_translates_like_press() {
    let translator = create_prepopulated_builder().build_translator();
    assert_eq!(
        translator.translate(&Input::Release(keyboard(Key::S))),
        Some(Translated::Release(TestAction::Action2))
    );
    assert_eq!(translator.translate(&Input::Release(keyboard(Key::Q))), None);
}

#[test]
fn other_events_translate_to_nothing() {
    let translator = create_prepopulated_builder().build_translator();
    assert_eq!(translator.translate(&Input::Other), None);
}

#[test]
fn button_of_another_kind_is_another_button() {
    let translator = TestBuilder::default()
        .with_action_mapping(Button::Keyboard(1), TestAction::Action1)
        .build_translator();
    assert_eq!(translator.translate(&Input::Press(Button::Mouse(1))), None);
    assert_eq!(
        translator.translate(&Input::Press(Button::Controller { id: 0, button: 1 })),
        None
    );
    assert_eq!(
        translator.translate(&Input::Press(Button::Keyboard(1))),
        Some(Translated::Press(TestAction::Action1))
    );
}

#[test]
fn empty_translator_translates_no_button() {
    let translator = TestTranslator::new(rebind::Size { width: 0, height: 0 });
    assert_eq!(translator.translate(&Input::Press(keyboard(Key::A))), None);
}

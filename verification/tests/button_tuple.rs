use rebind::{Button, ButtonTuple};

#[test]
fn new_tuple_is_empty() {
    assert_eq!(ButtonTuple::new(), ButtonTuple(None, None, None));
    assert_eq!(ButtonTuple::default(), ButtonTuple(None, None, None));
    assert!(!ButtonTuple::new().contains(Button::Keyboard(0)));
}

#[test]
fn insert_fills_slots_from_the_left() {
    let mut t = ButtonTuple::new();
    assert!(t.insert_inplace(Button::Keyboard(7)));
    assert_eq!(t, ButtonTuple(Some(Button::Keyboard(7)), None, None));
    assert!(t.insert_inplace(Button::Mouse(2)));
    assert_eq!(t, ButtonTuple(Some(Button::Keyboard(7)), Some(Button::Mouse(2)), None));
    assert!(t.insert_inplace(Button::Keyboard(3)));
    assert_eq!(
        t,
        ButtonTuple(Some(Button::Keyboard(7)), Some(Button::Mouse(2)), Some(Button::Keyboard(3)))
    );
}

#[test]
fn insert_takes_the_first_empty_slot() {
    let mut t = ButtonTuple(Some(Button::Keyboard(1)), None, Some(Button::Keyboard(3)));
    assert!(t.insert_inplace(Button::Keyboard(2)));
    assert_eq!(
        t,
        ButtonTuple(Some(Button::Keyboard(1)), Some(Button::Keyboard(2)), Some(Button::Keyboard(3)))
    );
}

#[test]
fn fourth_button_is_refused() {
    let mut t = ButtonTuple::new();
    assert!(t.insert_inplace(Button::Keyboard(1)));
    assert!(t.insert_inplace(Button::Keyboard(2)));
    assert!(t.insert_inplace(Button::Mouse(1)));
    let before = t;
    assert!(!t.insert_inplace(Button::Keyboard(4)));
    assert_eq!(t, before);
    assert_eq!(
        t,
        ButtonTuple(Some(Button::Keyboard(1)), Some(Button::Keyboard(2)), Some(Button::Mouse(1)))
    );
    assert!(!t.contains(Button::Keyboard(4)));
}

#[test]
fn contains_finds_a_button_in_any_slot() {
    let t = ButtonTuple(Some(Button::Keyboard(1)), None, Some(Button::Mouse(3)));
    assert!(t.contains(Button::Keyboard(1)));
    assert!(t.contains(Button::Mouse(3)));
    assert!(!t.contains(Button::Mouse(1)));
    assert!(!t.contains(Button::Keyboard(3)));
}

#[test]
fn find_code_gives_the_button_of_the_code() {
    let t = ButtonTuple(Some(Button::Keyboard(1)), None, Some(Button::Mouse(3)));
    assert_eq!(t.find_code(1), Some(Button::Keyboard(1)));
    assert_eq!(t.find_code(0x1_0000_0000_0003), Some(Button::Mouse(3)));
    assert_eq!(t.find_code(3), None);
}

#[test]
fn iterating_gives_three_slots_in_order() {
    let t = ButtonTuple(Some(Button::Keyboard(1)), None, Some(Button::Mouse(3)));
    let mut it = t.iter();
    assert_eq!(it.next(), Some(Some(Button::Keyboard(1))));
    assert_eq!(it.next(), Some(None));
    assert_eq!(it.next(), Some(Some(Button::Mouse(3))));
    assert_eq!(it.next(), None);
    assert_eq!(it.next(), None);

    let mut again = t.into_iter();
    assert_eq!(again.next(), Some(Some(Button::Keyboard(1))));
}

#[test]
fn codes_order_buttons_by_kind_and_then_by_their_numbers() {
    assert_eq!(Button::Keyboard(0x61).code(), 0x61);
    assert_eq!(Button::Keyboard(u32::MAX).code(), 0xFFFF_FFFF);
    assert_eq!(Button::Mouse(0).code(), 0x1_0000_0000_0000);
    assert_eq!(Button::Mouse(3).code(), 0x1_0000_0000_0003);
    assert_eq!(Button::Controller { id: 2, button: 5 }.code(), 0x2_0000_0002_0500);
    assert_eq!(Button::Hat { id: 1, state: 4, which: 9 }.code(), 0x3_0000_0001_0409);
    assert_eq!(
        Button::Hat { id: u32::MAX, state: 255, which: 255 }.code(),
        0x3_FFFF_FFFF_FFFF
    );
    assert!(Button::Keyboard(u32::MAX).code() < Button::Mouse(0).code());
    assert!(Button::Mouse(u32::MAX).code() < Button::Controller { id: 0, button: 0 }.code());
    assert!(
        Button::Controller { id: u32::MAX, button: 255 }.code()
            < Button::Hat { id: 0, state: 0, which: 0 }.code()
    );
}

#[test]
fn codes_follow_the_derived_order() {
    let buttons = [
        Button::Keyboard(0),
        Button::Keyboard(5),
        Button::Mouse(0),
        Button::Mouse(8),
        Button::Controller { id: 0, button: 9 },
        Button::Controller { id: 1, button: 0 },
        Button::Hat { id: 0, state: 1, which: 7 },
        Button::Hat { id: 0, state: 2, which: 0 },
        Button::Hat { id: 3, state: 0, which: 0 },
    ];
    for i in 0..buttons.len() {
        for j in 0..buttons.len() {
            assert_eq!(buttons[i] < buttons[j], buttons[i].code() < buttons[j].code());
        }
    }
}

#[test]
fn present_button_is_not_stored_twice() {
    let k = Button::Keyboard(75);
    let mut t = ButtonTuple(Some(k), None, None);
    assert!(t.insert_inplace(k));
    assert_eq!(t, ButtonTuple(Some(k), None, None));

    let mut later = ButtonTuple(None, Some(Button::Mouse(1)), Some(k));
    assert!(later.insert_inplace(k));
    assert_eq!(later, ButtonTuple(None, Some(Button::Mouse(1)), Some(k)));
    assert!(later.insert_inplace(Button::Mouse(1)));
    assert_eq!(later, ButtonTuple(None, Some(Button::Mouse(1)), Some(k)));
}

#[test]
fn present_button_in_a_full_tuple_finds_no_room() {
    let k = Button::Keyboard(75);
    let mut t = ButtonTuple(Some(Button::Keyboard(1)), Some(k), Some(Button::Keyboard(2)));
    assert!(!t.insert_inplace(k));
    assert_eq!(t, ButtonTuple(Some(Button::Keyboard(1)), Some(k), Some(Button::Keyboard(2))));
}

#[test]
fn inserting_never_makes_a_button_occupy_two_slots() {
    let buttons = [Button::Keyboard(1), Button::Mouse(1), Button::Keyboard(1), Button::Mouse(1),
        Button::Keyboard(2), Button::Keyboard(3)];
    let mut t = ButtonTuple::new();
    for b in buttons {
        t.insert_inplace(b);
        let slots = [t.0, t.1, t.2];
        for i in 0..3 {
            for j in (i + 1)..3 {
                assert!(slots[i].is_none() || slots[i] != slots[j]);
            }
        }
    }
    assert_eq!(
        t,
        ButtonTuple(Some(Button::Keyboard(1)), Some(Button::Mouse(1)), Some(Button::Keyboard(2)))
    );
}

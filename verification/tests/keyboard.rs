use unicorn::keyboard::Key;

#[test]
fn keys_are_equal_when_variant_and_character_agree() {
    assert_eq!(Key::Char('a'), Key::Char('a'));
    assert_eq!(Key::Ctrl('a'), Key::Ctrl('a'));
    assert_eq!(Key::Backspace, Key::Backspace);
    assert_ne!(Key::Char('a'), Key::Char('b'));
    assert_ne!(Key::Char('a'), Key::Ctrl('a'));
    assert_ne!(Key::Ctrl('x'), Key::Ctrl('X'));
    assert_ne!(Key::Backspace, Key::Delete);
    assert_ne!(Key::Up, Key::Down);
}

#[test]
fn keys_are_plain_values() {
    let key = Key::Ctrl('x');
    let copy = key;
    assert_eq!(key, copy);
    assert_eq!(format!("{:?}", Key::Char('q')), "Char('q')");
}

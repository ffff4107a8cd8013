use unicorn::keyboard::Key;
use unicorn::keymap::{KeyMap, KeyMapState};

#[test]
fn empty_keymap_matches_nothing() {
    let mut keymap: KeyMap<u32> = KeyMap::new();
    for key in [Key::Char('a'), Key::Ctrl('x'), Key::Up, Key::Enter] {
        assert_eq!(keymap.check_key(key), KeyMapState::NoMatch);
    }
}

#[test]
fn single_key_binding_matches() {
    let mut keymap = KeyMap::new();
    keymap.bind_key(Key::Tab, 7u32);
    assert_eq!(keymap.check_key(Key::Tab), KeyMapState::Match(7));
    assert_eq!(keymap.check_key(Key::Enter), KeyMapState::NoMatch);
    assert_eq!(keymap.check_key(Key::Tab), KeyMapState::Match(7));
}

#[test]
fn bind_key_is_bind_keys_of_one_key() {
    let mut by_key = KeyMap::new();
    by_key.bind_key(Key::Ctrl('k'), 'k');
    let mut by_keys = KeyMap::new();
    by_keys.bind_keys(&[Key::Ctrl('k')], 'k');
    for key in [Key::Ctrl('k'), Key::Char('k'), Key::Ctrl('j')] {
        assert_eq!(by_key.check_key(key), by_keys.check_key(key));
    }
}

#[test]
fn char_and_ctrl_of_one_character_are_different_keys() {
    let mut keymap = KeyMap::new();
    keymap.bind_key(Key::Ctrl('a'), 1u8);
    keymap.bind_key(Key::Char('a'), 2u8);
    assert_eq!(keymap.check_key(Key::Ctrl('a')), KeyMapState::Match(1));
    assert_eq!(keymap.check_key(Key::Char('a')), KeyMapState::Match(2));
    assert_eq!(keymap.check_key(Key::Char('A')), KeyMapState::NoMatch);
}

#[test]
fn long_sequence_continues_until_its_last_key() {
    let keys = [Key::Ctrl('x'), Key::Char('r'), Key::Up, Key::Up, Key::Enter];
    let mut keymap = KeyMap::new();
    keymap.bind_keys(&keys, 42u32);
    for _ in 0..2 {
        for key in &keys[..4] {
            assert_eq!(keymap.check_key(*key), KeyMapState::Continue);
        }
        assert_eq!(keymap.check_key(keys[4]), KeyMapState::Match(42));
    }
}

#[test]
fn sequences_with_a_shared_front_have_their_own_values() {
    let mut keymap = KeyMap::new();
    keymap.bind_keys(&[Key::Ctrl('x'), Key::Ctrl('c')], 1u32);
    keymap.bind_keys(&[Key::Ctrl('x'), Key::Ctrl('s')], 2u32);
    keymap.bind_keys(&[Key::Ctrl('x'), Key::Char('r'), Key::Char('t')], 3u32);
    assert_eq!(keymap.check_key(Key::Ctrl('x')), KeyMapState::Continue);
    assert_eq!(keymap.check_key(Key::Ctrl('c')), KeyMapState::Match(1));
    assert_eq!(keymap.check_key(Key::Ctrl('x')), KeyMapState::Continue);
    assert_eq!(keymap.check_key(Key::Ctrl('s')), KeyMapState::Match(2));
    assert_eq!(keymap.check_key(Key::Ctrl('x')), KeyMapState::Continue);
    assert_eq!(keymap.check_key(Key::Char('r')), KeyMapState::Continue);
    assert_eq!(keymap.check_key(Key::Char('t')), KeyMapState::Match(3));
}

#[test]
fn second_key_alone_is_not_bound() {
    let mut keymap = KeyMap::new();
    keymap.bind_keys(&[Key::Ctrl('x'), Key::Ctrl('c')], 1u32);
    assert_eq!(keymap.check_key(Key::Ctrl('c')), KeyMapState::NoMatch);
}

#[test]
fn failed_lookup_starts_over_at_the_root() {
    let mut keymap = KeyMap::new();
    keymap.bind_keys(&[Key::Up, Key::Down], 1u32);
    keymap.bind_key(Key::Down, 2u32);
    assert_eq!(keymap.check_key(Key::Up), KeyMapState::Continue);
    assert_eq!(keymap.check_key(Key::Left), KeyMapState::NoMatch);
    // Not `Match(1)`: the failed `Up` is forgotten.
    assert_eq!(keymap.check_key(Key::Down), KeyMapState::Match(2));
    assert_eq!(keymap.check_key(Key::Left), KeyMapState::NoMatch);
    assert_eq!(keymap.check_key(Key::Up), KeyMapState::Continue);
    assert_eq!(keymap.check_key(Key::Down), KeyMapState::Match(1));
}

#[test]
fn failing_key_is_not_looked_up_again_from_the_root() {
    let mut keymap = KeyMap::new();
    keymap.bind_keys(&[Key::Up, Key::Down], 1u32);
    keymap.bind_key(Key::Left, 2u32);
    assert_eq!(keymap.check_key(Key::Up), KeyMapState::Continue);
    // `Left` is bound on its own, but here it is the second key of a chord.
    assert_eq!(keymap.check_key(Key::Left), KeyMapState::NoMatch);
    assert_eq!(keymap.check_key(Key::Left), KeyMapState::Match(2));
}

#[test]
fn rebinding_overwrites() {
    let mut keymap = KeyMap::new();
    keymap.bind_key(Key::Enter, 1u32);
    keymap.bind_key(Key::Enter, 2u32);
    assert_eq!(keymap.check_key(Key::Enter), KeyMapState::Match(2));
    keymap.bind_keys(&[Key::Up, Key::Up], 3u32);
    keymap.bind_keys(&[Key::Up, Key::Up], 4u32);
    assert_eq!(keymap.check_key(Key::Up), KeyMapState::Continue);
    assert_eq!(keymap.check_key(Key::Up), KeyMapState::Match(4));
    assert_eq!(keymap.check_key(Key::Enter), KeyMapState::Match(2));
}

#[test]
fn binding_order_does_not_matter() {
    let bindings: [(&[Key], u32); 4] = [
        (&[Key::Ctrl('x'), Key::Ctrl('c')], 1),
        (&[Key::Ctrl('q')], 2),
        (&[Key::Ctrl('x'), Key::Ctrl('s')], 3),
        (&[Key::Up, Key::Up, Key::Down], 4),
    ];
    let mut forward = KeyMap::new();
    for (keys, value) in bindings {
        forward.bind_keys(keys, value);
    }
    let mut backward = KeyMap::new();
    for (keys, value) in bindings.iter().rev() {
        backward.bind_keys(keys, *value);
    }
    let input = [
        Key::Ctrl('x'),
        Key::Ctrl('c'),
        Key::Ctrl('q'),
        Key::Ctrl('x'),
        Key::Ctrl('s'),
        Key::Up,
        Key::Up,
        Key::Down,
        Key::Up,
        Key::Ctrl('q'),
        Key::Ctrl('q'),
    ];
    let expected = [
        KeyMapState::Continue,
        KeyMapState::Match(1),
        KeyMapState::Match(2),
        KeyMapState::Continue,
        KeyMapState::Match(3),
        KeyMapState::Continue,
        KeyMapState::Continue,
        KeyMapState::Match(4),
        KeyMapState::Continue,
        KeyMapState::NoMatch,
        KeyMapState::Match(2),
    ];
    for (key, state) in input.iter().zip(expected) {
        assert_eq!(forward.check_key(*key), state);
        assert_eq!(backward.check_key(*key), state);
    }
}

#[test]
fn bound_front_of_a_longer_sequence_matches_at_once() {
    let mut short_first = KeyMap::new();
    short_first.bind_key(Key::Ctrl('x'), 1u32);
    short_first.bind_keys(&[Key::Ctrl('x'), Key::Ctrl('c')], 2u32);
    let mut long_first = KeyMap::new();
    long_first.bind_keys(&[Key::Ctrl('x'), Key::Ctrl('c')], 2u32);
    long_first.bind_key(Key::Ctrl('x'), 1u32);
    for keymap in [&mut short_first, &mut long_first] {
        assert_eq!(keymap.check_key(Key::Ctrl('x')), KeyMapState::Match(1));
        assert_eq!(keymap.check_key(Key::Ctrl('c')), KeyMapState::NoMatch);
        assert_eq!(keymap.check_key(Key::Ctrl('x')), KeyMapState::Match(1));
    }
}

#[test]
fn binding_keeps_the_traversal_position() {
    let mut keymap = KeyMap::new();
    keymap.bind_keys(&[Key::Up, Key::Down], 1u32);
    assert_eq!(keymap.check_key(Key::Up), KeyMapState::Continue);
    keymap.bind_keys(&[Key::Up, Key::Left], 2u32);
    keymap.bind_key(Key::Left, 3u32);
    assert_eq!(keymap.check_key(Key::Left), KeyMapState::Match(2));
    assert_eq!(keymap.check_key(Key::Left), KeyMapState::Match(3));
}

#[test]
fn same_input_gives_the_same_states() {
    let mut first = KeyMap::new();
    let mut second = KeyMap::new();
    for keymap in [&mut first, &mut second] {
        keymap.bind_keys(&[Key::Esc, Key::Char('a'), Key::Char('b')], 'x');
        keymap.bind_keys(&[Key::Esc, Key::Char('c')], 'y');
        keymap.bind_key(Key::Home, 'z');
    }
    let input = [
        Key::Esc,
        Key::Char('a'),
        Key::Char('c'),
        Key::Esc,
        Key::Char('c'),
        Key::Home,
        Key::End,
        Key::Esc,
        Key::Char('a'),
        Key::Char('b'),
    ];
    for key in input {
        assert_eq!(first.check_key(key), second.check_key(key));
    }
}

#[test]
fn state_is_a_copy_of_the_bound_value() {
    let mut keymap = KeyMap::new();
    keymap.bind_key(Key::PageUp, (1u8, 'a'));
    let state = keymap.check_key(Key::PageUp);
    let copy = state;
    assert_eq!(state, copy);
    assert_eq!(state.clone(), KeyMapState::Match((1, 'a')));
}

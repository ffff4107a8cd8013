//! The standard mode: plain characters are text, everything else is looked
//! up in a table of single keys and two-key chords.

use vstd::prelude::*;
use crate::buffer::Mark;
use crate::command::{Action, BuilderEvent, Command, Instruction, Operation};
use crate::keyboard::Key;
use crate::keymap::{carried, continues, resolve, starts_with, KeyMap, KeyMapState};
use crate::modes::Mode;
use crate::overlay::OverlayType;
use crate::textobject::{Anchor, Kind, Offset, TextObject};

verus! {

/// The key that opens every two-key chord of the standard bindings.
pub open spec fn chord_key() -> Key {
    Key::Ctrl('x')
}

/// The primary cursor, the mark every standard binding acts on.
pub open spec fn cursor() -> Mark {
    Mark::Cursor(0)
}

/// To the same column of the line above.
pub open spec fn line_up() -> Command {
    Command::movement(Offset::Backward(1, cursor()), Kind::Line(Anchor::Same))
}

/// To the same column of the line below.
pub open spec fn line_down() -> Command {
    Command::movement(Offset::Forward(1, cursor()), Kind::Line(Anchor::Same))
}

/// One character to the left.
pub open spec fn char_left() -> Command {
    Command::movement(Offset::Backward(1, cursor()), Kind::Char)
}

/// One character to the right.
pub open spec fn char_right() -> Command {
    Command::movement(Offset::Forward(1, cursor()), Kind::Char)
}

/// To the start of the current line.
pub open spec fn line_start() -> Command {
    Command::movement(Offset::Backward(0, cursor()), Kind::Line(Anchor::Start))
}

/// To the end of the current line.
pub open spec fn line_end() -> Command {
    Command::movement(Offset::Forward(0, cursor()), Kind::Line(Anchor::End))
}

/// Delete one character at the primary cursor, in the direction of `offset`.
pub open spec fn delete_char(offset: Offset) -> Command {
    Command {
        number: 1,
        action: Action::Operation(Operation::DeleteFromMark(cursor())),
        object: Some(TextObject { kind: Kind::Char, offset }),
    }
}

/// Delete the character before the cursor.
pub open spec fn delete_backward() -> Command {
    delete_char(Offset::Backward(1, cursor()))
}

/// Delete the character under the cursor.
pub open spec fn delete_forward() -> Command {
    delete_char(Offset::Forward(1, cursor()))
}

/// The command bound to `key` pressed on its own, if there is one.
pub open spec fn single_key_command(key: Key) -> Option<Command> {
    match key {
        Key::Ctrl(c) => {
            if c == 'q' {
                Some(Command::exit_editor())
            } else if c == 's' {
                Some(Command::save_buffer())
            } else if c == 'p' {
                Some(line_up())
            } else if c == 'n' {
                Some(line_down())
            } else if c == 'b' {
                Some(char_left())
            } else if c == 'f' {
                Some(char_right())
            } else if c == 'a' {
                Some(line_start())
            } else if c == 'e' {
                Some(line_end())
            } else if c == 'h' {
                Some(delete_backward())
            } else if c == 'd' {
                Some(delete_forward())
            } else if c == 'z' {
                Some(Command::undo())
            } else if c == 'y' {
                Some(Command::redo())
            } else {
                None
            }
        },
        Key::Up => Some(line_up()),
        Key::Down => Some(line_down()),
        Key::Left => Some(char_left()),
        Key::Right => Some(char_right()),
        Key::Tab => Some(Command::insert_tab()),
        Key::Enter => Some(Command::insert_char('\n')),
        Key::Backspace => Some(delete_backward()),
        Key::Delete => Some(delete_forward()),
        _ => None,
    }
}

/// The command bound to `key` pressed after the chord key, if there is one.
pub open spec fn chord_command(key: Key) -> Option<Command> {
    match key {
        Key::Ctrl(c) => {
            if c == 'c' {
                Some(Command::exit_editor())
            } else if c == 's' {
                Some(Command::save_buffer())
            } else if c == 'f' {
                Some(Command::once(Instruction::SetOverlay(OverlayType::SelectFile)))
            } else if c == 'b' {
                Some(Command::once(Instruction::SwitchToLastBuffer))
            } else {
                None
            }
        },
        _ => None,
    }
}

/// The command the standard bindings give to the sequence `keys`, if any:
/// a single key, or the chord key and one more.
pub open spec fn default_command(keys: Seq<Key>) -> Option<Command> {
    if keys.len() == 1 {
        single_key_command(keys[0])
    } else if keys.len() == 2 && keys[0] == chord_key() {
        chord_command(keys[1])
    } else {
        None
    }
}

/// The standard bindings as a map from key sequences to commands.
pub open spec fn default_bindings() -> Map<Seq<Key>, Command> {
    Map::new(
        |keys: Seq<Key>| default_command(keys) is Some,
        |keys: Seq<Key>| default_command(keys).unwrap(),
    )
}

/// What a key does while a chord is looked up: the event reported for `key`
/// after the keys `pending`, and the keys kept for the next one.
///
/// A match completes with its command, a continuation keeps the keys, and a
/// failed lookup drops them without a word.
pub open spec fn chord_step(pending: Seq<Key>, key: Key) -> (BuilderEvent, Seq<Key>) {
    let keys = pending.push(key);
    let state = resolve(default_bindings(), keys);
    let event = match state {
        KeyMapState::Match(command) => BuilderEvent::Complete(command),
        KeyMapState::Continue => BuilderEvent::Incomplete,
        KeyMapState::NoMatch => BuilderEvent::Incomplete,
    };
    (event, carried(state, keys))
}

/// The transition of the standard mode: the event reported for `key` in the
/// state with the keys `pending`, and the keys pending afterwards.
///
/// With no chord in progress a plain character is text. Every other key, and
/// every key at all while a chord is in progress, is chord input.
pub open spec fn step(pending: Seq<Key>, key: Key) -> (BuilderEvent, Seq<Key>) {
    if pending.len() == 0 && key is Char {
        (BuilderEvent::Complete(Command::insert_char(key->Char_0)), pending)
    } else {
        chord_step(pending, key)
    }
}

/// The default mode of the editor, with bindings in the manner of
/// non-modal editors.
pub struct StandardMode {
    keymap: KeyMap<Command>,
    match_in_progress: bool,
}

impl View for StandardMode {
    type V = Seq<Key>;

    /// The keys of the chord in progress; empty when the mode is idle.
    closed spec fn view(&self) -> Seq<Key> {
        self.keymap@.pending
    }
}

impl StandardMode {
    /// The bindings of the mode's matcher.
    pub closed spec fn bindings(&self) -> Map<Seq<Key>, Command> {
        self.keymap@.bindings
    }

    /// Create a new instance of StandardMode: idle, with the standard
    /// bindings.
    pub fn new() -> (mode: StandardMode)
        ensures
            mode.well_formed(),
            mode@ == Seq::<Key>::empty(),
            mode.bindings() == default_bindings(),
    {
        StandardMode { keymap: StandardMode::key_defaults(), match_in_progress: false }
    }

    /// Creates a KeyMap with default StandardMode key bindings
    fn key_defaults() -> (keymap: KeyMap<Command>)
        ensures
            keymap.well_formed(),
            keymap@.bindings == default_bindings(),
            keymap@.pending == Seq::<Key>::empty(),
    {
        let mut keymap = KeyMap::new();

        // Editor Commands
        keymap.bind_key(Key::Ctrl('q'), Command::exit_editor());
        keymap.bind_key(Key::Ctrl('s'), Command::save_buffer());
        keymap.bind_keys(&[Key::Ctrl('x'), Key::Ctrl('c')], Command::exit_editor());
        keymap.bind_keys(&[Key::Ctrl('x'), Key::Ctrl('s')], Command::save_buffer());

        // Cursor movement
        keymap.bind_key(
            Key::Up,
            Command::movement(Offset::Backward(1, Mark::Cursor(0)), Kind::Line(Anchor::Same)),
        );
        keymap.bind_key(
            Key::Down,
            Command::movement(Offset::Forward(1, Mark::Cursor(0)), Kind::Line(Anchor::Same)),
        );
        keymap.bind_key(
            Key::Left,
            Command::movement(Offset::Backward(1, Mark::Cursor(0)), Kind::Char),
        );
        keymap.bind_key(
            Key::Right,
            Command::movement(Offset::Forward(1, Mark::Cursor(0)), Kind::Char),
        );
        keymap.bind_key(
            Key::Ctrl('p'),
            Command::movement(Offset::Backward(1, Mark::Cursor(0)), Kind::Line(Anchor::Same)),
        );
        keymap.bind_key(
            Key::Ctrl('n'),
            Command::movement(Offset::Forward(1, Mark::Cursor(0)), Kind::Line(Anchor::Same)),
        );
        keymap.bind_key(
            Key::Ctrl('b'),
            Command::movement(Offset::Backward(1, Mark::Cursor(0)), Kind::Char),
        );
        keymap.bind_key(
            Key::Ctrl('f'),
            Command::movement(Offset::Forward(1, Mark::Cursor(0)), Kind::Char),
        );
        keymap.bind_key(
            Key::Ctrl('e'),
            Command::movement(Offset::Forward(0, Mark::Cursor(0)), Kind::Line(Anchor::End)),
        );
        keymap.bind_key(
            Key::Ctrl('a'),
            Command::movement(Offset::Backward(0, Mark::Cursor(0)), Kind::Line(Anchor::Start)),
        );

        // Editing
        keymap.bind_key(Key::Tab, Command::insert_tab());
        keymap.bind_key(Key::Enter, Command::insert_char('\n'));
        keymap.bind_key(Key::Backspace, Command {
            number: 1,
            action: Action::Operation(Operation::DeleteFromMark(Mark::Cursor(0))),
            object: Some(TextObject {
                kind: Kind::Char,
                offset: Offset::Backward(1, Mark::Cursor(0)),
            }),
        });
        keymap.bind_key(Key::Delete, Command {
            number: 1,
            action: Action::Operation(Operation::DeleteFromMark(Mark::Cursor(0))),
            object: Some(TextObject {
                kind: Kind::Char,
                offset: Offset::Forward(1, Mark::Cursor(0)),
            }),
        });
        keymap.bind_key(Key::Ctrl('h'), Command {
            number: 1,
            action: Action::Operation(Operation::DeleteFromMark(Mark::Cursor(0))),
            object: Some(TextObject {
                kind: Kind::Char,
                offset: Offset::Backward(1, Mark::Cursor(0)),
            }),
        });
        keymap.bind_key(Key::Ctrl('d'), Command {
            number: 1,
            action: Action::Operation(Operation::DeleteFromMark(Mark::Cursor(0))),
            object: Some(TextObject {
                kind: Kind::Char,
                offset: Offset::Forward(1, Mark::Cursor(0)),
            }),
        });
        keymap.bind_keys(&[Key::Ctrl('x'), Key::Ctrl('f')], Command {
            number: 1,
            action: Action::Instruction(Instruction::SetOverlay(OverlayType::SelectFile)),
            object: None,
        });
        keymap.bind_keys(&[Key::Ctrl('x'), Key::Ctrl('b')], Command {
            number: 1,
            action: Action::Instruction(Instruction::SwitchToLastBuffer),
            object: None,
        });

        // History
        keymap.bind_key(Key::Ctrl('z'), Command::undo());
        keymap.bind_key(Key::Ctrl('y'), Command::redo());

        proof {
            assert forall|keys: Seq<Key>| default_command(keys) is Some implies {
                &&& #[trigger] keymap@.bindings.contains_key(keys)
                &&& keymap@.bindings[keys] == default_command(keys).unwrap()
            } by {
                if keys.len() == 1 {
                    assert(keys =~= seq![keys[0]]);
                } else {
                    assert(keys =~= seq![keys[0], keys[1]]);
                }
            }
        }
        keymap
    }

    /// Checks a Key against the internal keymap
    ///
    /// - If there is a direct match, return the completed BuilderEvent
    /// - If there is a partial match, set match_in_progress to true which
    ///   indicates that the next key should check against the keymap too,
    ///   rather than possibly being inserted into the buffer. This allows
    ///   for non-prefixed keys to be used in keybindings. ie: C-x s rather
    ///   than C-x C-s.
    /// - If there is no match of any kind, return Incomplete
    fn check_key(&mut self, key: Key) -> (event: BuilderEvent)
        requires
            old(self).well_formed(),
        ensures
            final(self).well_formed(),
            (event, final(self)@) == chord_step(old(self)@, key),
    {
        proof {
            lemma_only_the_chord_key_continues(self@.push(key));
        }
        match self.keymap.check_key(key) {
            KeyMapState::Match(c) => {
                self.match_in_progress = false;
                BuilderEvent::Complete(c)
            },
            KeyMapState::Continue => {
                self.match_in_progress = true;
                BuilderEvent::Incomplete
            },
            KeyMapState::NoMatch => {
                self.match_in_progress = false;
                BuilderEvent::Incomplete
            },
        }
    }

    /// Whether a chord is in progress, so that the next key is chord input
    /// whatever its shape.
    pub fn match_in_progress(&self) -> (in_progress: bool)
        requires
            self.well_formed(),
        ensures
            in_progress == (self@.len() > 0),
    {
        self.match_in_progress
    }

    /// While a chord is in progress the one key taken so far is the chord
    /// key.
    pub proof fn lemma_pending_is_chord_key(&self)
        requires
            self.well_formed(),
        ensures
            self@ == Seq::<Key>::empty() || self@ == seq![chord_key()],
    {
    }
}

impl Mode for StandardMode {
    closed spec fn well_formed(&self) -> bool {
        &&& self.keymap.well_formed()
        &&& self.keymap@.bindings == default_bindings()
        &&& self.match_in_progress == (self.keymap@.pending.len() > 0)
        &&& self.keymap@.pending.len() > 0 ==> self.keymap@.pending == seq![chord_key()]
    }

    /// Given a key, pass it through the StandardMode KeyMap and return the
    /// associated Command, if any. A plain character typed while no chord is
    /// in progress is an InsertChar command.
    fn handle_key_event(&mut self, key: Key) -> (event: BuilderEvent)
        ensures
            (event, final(self)@) == step(old(self)@, key),
            old(self)@.len() == 0 && key is Char ==> final(self)@.len() == 0 && event
                == BuilderEvent::Complete(Command::insert_char(key->Char_0)),
            event matches BuilderEvent::Complete(command) ==> command.number == 1
                && has_documented_object(command),
    {
        proof {
            lemma_bound_commands_are_documented(self@.push(key));
        }
        if self.match_in_progress {
            return self.check_key(key)
        }

        if let Key::Char(c) = key {
            BuilderEvent::Complete(Command::insert_char(c))
        } else {
            self.check_key(key)
        }
    }
}

impl Default for StandardMode {
    fn default() -> (mode: Self)
        ensures
            mode.well_formed(),
            mode@ == Seq::<Key>::empty(),
            mode.bindings() == default_bindings(),
    {
        Self::new()
    }
}

/// Every bound sequence is one key, or the chord key and one more; so the
/// only sequence that continues is the chord key alone.
pub proof fn lemma_only_the_chord_key_continues(keys: Seq<Key>)
    requires
        keys.len() > 0,
    ensures
        continues(default_bindings(), keys) <==> keys == seq![chord_key()],
        default_bindings().contains_key(keys) ==> keys.len() <= 2,
{
    if keys =~= seq![chord_key()] {
        let longer = seq![chord_key(), Key::Ctrl('c')];
        assert(longer.subrange(0, 1) =~= keys);
        assert(starts_with(longer, keys));
    }
}

/// Whether a command's text object is the one the standard bindings give
/// to its action: none for an instruction; for a movement of the primary
/// cursor one unit of characters or of lines in either direction, or no
/// distance back to the start or forward to the end of the line; for a
/// deletion at the primary cursor one character in either direction.
pub open spec fn has_documented_object(command: Command) -> bool {
    match command.action {
        Action::Instruction(_) => command.object is None,
        Action::Operation(Operation::Insert(_)) => command.object is None,
        Action::Operation(Operation::MoveMark(mark)) => {
            &&& mark == cursor()
            &&& command.object matches Some(object)
            &&& object.offset.mark() == cursor()
            &&& match object.kind {
                Kind::Char => object.offset.distance() == 1,
                Kind::Line(Anchor::Same) => object.offset.distance() == 1,
                Kind::Line(Anchor::Start) => object.offset == Offset::Backward(0, cursor()),
                Kind::Line(Anchor::End) => object.offset == Offset::Forward(0, cursor()),
            }
        },
        Action::Operation(Operation::DeleteFromMark(mark)) => {
            &&& mark == cursor()
            &&& command.object matches Some(object)
            &&& object.kind == Kind::Char
            &&& object.offset.mark() == cursor()
            &&& object.offset.distance() == 1
        },
    }
}

/// Every command of the standard bindings is a valid command, is executed
/// once, and carries the text object documented for its action: exactly one
/// for a movement or a deletion, none for an instruction.
pub proof fn lemma_bound_commands_are_documented(keys: Seq<Key>)
    ensures
        default_bindings().contains_key(keys) ==> default_bindings()[keys].well_formed(),
        default_bindings().contains_key(keys) ==> default_bindings()[keys].number == 1,
        default_bindings().contains_key(keys) ==> has_documented_object(default_bindings()[keys]),
{
}

/// A plain character typed while no chord is in progress is text: the mode
/// completes at once with the insertion of exactly that character and stays
/// idle.
pub proof fn lemma_plain_character_is_text(c: char)
    ensures
        step(Seq::empty(), Key::Char(c)) == (
            BuilderEvent::Complete(Command::insert_char(c)),
            Seq::<Key>::empty(),
        ),
{
}

/// A key that is bound on its own, pressed while no chord is in progress,
/// completes at once with its command and leaves the mode idle.
pub proof fn lemma_single_key_completes(key: Key)
    requires
        single_key_command(key) is Some,
    ensures
        step(Seq::empty(), key) == (
            BuilderEvent::Complete(single_key_command(key).unwrap()),
            Seq::<Key>::empty(),
        ),
{
}

/// A key that is neither a plain character, nor bound on its own, nor the
/// chord key is consumed without effect while no chord is in progress.
pub proof fn lemma_unbound_key_is_dropped(key: Key)
    requires
        !(key is Char),
        key != chord_key(),
        single_key_command(key) is None,
    ensures
        step(Seq::empty(), key) == (BuilderEvent::Incomplete, Seq::<Key>::empty()),
{
    lemma_only_the_chord_key_continues(seq![key]);
}

/// The chord key, pressed while no chord is in progress, reports nothing
/// and leaves the mode waiting for the second key. Of a chord that is bound
/// the second key then completes with the command of that chord and the mode
/// is idle again.
pub proof fn lemma_bound_chord_completes(second: Key)
    requires
        chord_command(second) is Some,
    ensures
        step(Seq::empty(), chord_key()) == (BuilderEvent::Incomplete, seq![chord_key()]),
        step(seq![chord_key()], second) == (
            BuilderEvent::Complete(chord_command(second).unwrap()),
            Seq::<Key>::empty(),
        ),
{
    lemma_only_the_chord_key_continues(seq![chord_key()]);
}

/// The chords that share the chord key are told apart by their second key:
/// two different second keys give two different commands.
pub proof fn lemma_chords_are_distinct(second: Key, other: Key)
    requires
        chord_command(second) is Some,
        chord_command(other) is Some,
        second != other,
    ensures
        chord_command(second) != chord_command(other),
{
}

/// A second key that completes no chord ends the chord without effect: the
/// mode reports nothing and is idle again, and the key is not inserted,
/// whether or not it is a plain character.
pub proof fn lemma_failed_chord_is_dropped(second: Key)
    requires
        chord_command(second) is None,
    ensures
        step(seq![chord_key()], second) == (BuilderEvent::Incomplete, Seq::<Key>::empty()),
{
    lemma_only_the_chord_key_continues(seq![chord_key(), second]);
}

/// Any two standard modes hold the same bindings, the standard ones, so
/// their matchers resolve every key sequence alike, and every sequence of the
/// standard bindings to its command.
pub proof fn lemma_instances_resolve_alike(a: StandardMode, b: StandardMode, keys: Seq<Key>)
    requires
        a.well_formed(),
        b.well_formed(),
    ensures
        a.bindings() == default_bindings(),
        b.bindings() == default_bindings(),
        resolve(a.bindings(), keys) == resolve(b.bindings(), keys),
        default_command(keys) matches Some(command) ==> resolve(a.bindings(), keys)
            == KeyMapState::Match(command),
{
}

} // verus!

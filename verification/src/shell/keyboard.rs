//! The virtual keyboard: its keys and the text typed on it.

use crate::text::chars_of;
use vstd::prelude::*;
use vstd::string::*;

verus! {

/// One key of the virtual keyboard.
#[derive(Clone, Copy, Debug, PartialEq, Eq, Structural)]
pub enum Key {
    /// A key that types a character.
    Char(char),
    Shift,
    Space,
    Backspace,
    Enter,
    /// The key that puts the keyboard away.
    Dismiss,
}

/// The character keys of a row, parted by spaces.
pub open spec fn row_text(shift: bool, row: int) -> Seq<char> {
    if shift {
        if row == 0 {
            "! @ # $ % ^ & * ( )"@
        } else if row == 1 {
            "Q W E R T Y U I O P"@
        } else if row == 2 {
            "A S D F G H J K L"@
        } else {
            "Z X C V B N M"@
        }
    } else {
        if row == 0 {
            "1 2 3 4 5 6 7 8 9 0"@
        } else if row == 1 {
            "q w e r t y u i o p"@
        } else if row == 2 {
            "a s d f g h j k l"@
        } else {
            "z x c v b n m"@
        }
    }
}

/// The characters that are not spaces.
pub open spec fn without_spaces(text: Seq<char>) -> Seq<char>
    decreases text.len(),
{
    if text.len() == 0 {
        Seq::empty()
    } else if text.last() == ' ' {
        without_spaces(text.drop_last())
    } else {
        without_spaces(text.drop_last()).push(text.last())
    }
}

/// The character keys of a row, from left to right. There are four rows.
pub fn row_keys(shift: bool, row: usize) -> (keys: Vec<char>)
    requires
        row < 4,
    ensures
        keys@ == without_spaces(row_text(shift, row as int)),
        row == 0 && !shift ==> keys@ == seq!['1', '2', '3', '4', '5', '6', '7', '8', '9', '0'],
        row == 0 && shift ==> keys@ == seq!['!', '@', '#', '$', '%', '^', '&', '*', '(', ')'],
        row == 1 && !shift ==> keys@ == seq!['q', 'w', 'e', 'r', 't', 'y', 'u', 'i', 'o', 'p'],
        row == 1 && shift ==> keys@ == seq!['Q', 'W', 'E', 'R', 'T', 'Y', 'U', 'I', 'O', 'P'],
        row == 2 && !shift ==> keys@ == seq!['a', 's', 'd', 'f', 'g', 'h', 'j', 'k', 'l'],
        row == 2 && shift ==> keys@ == seq!['A', 'S', 'D', 'F', 'G', 'H', 'J', 'K', 'L'],
        row == 3 && !shift ==> keys@ == seq!['z', 'x', 'c', 'v', 'b', 'n', 'm'],
        row == 3 && shift ==> keys@ == seq!['Z', 'X', 'C', 'V', 'B', 'N', 'M'],
{
    proof {
        lemma_rows(shift, row as int);
    }
    let text = if shift {
        match row {
            0 => "! @ # $ % ^ & * ( )",
            1 => "Q W E R T Y U I O P",
            2 => "A S D F G H J K L",
            _ => "Z X C V B N M",
        }
    } else {
        match row {
            0 => "1 2 3 4 5 6 7 8 9 0",
            1 => "q w e r t y u i o p",
            2 => "a s d f g h j k l",
            _ => "z x c v b n m",
        }
    };
    let chars = chars_of(text);
    let mut keys: Vec<char> = Vec::new();
    let mut i: usize = 0;
    while i < chars.len()
        invariant
            i <= chars.len(),
            keys@ == without_spaces(chars@.take(i as int)),
        decreases chars.len() - i,
    {
        let ghost next = chars@.take(i + 1);
        assert(next.drop_last() =~= chars@.take(i as int));
        assert(next.last() == chars@[i as int]);
        if chars[i] != ' ' {
            keys.push(chars[i]);
        }
        i += 1;
    }
    assert(chars@.take(i as int) =~= chars@);
    keys
}

/// The virtual keyboard.
#[derive(Clone, Debug)]
pub struct Keyboard {
    /// Whether its panel exists.
    pub panel: bool,
    pub visible: bool,
    /// What was typed.
    pub text: String,
    /// Whether the next character key is shifted.
    pub shift: bool,
}

/// What a keyboard holds.
pub ghost struct KeyboardView {
    pub panel: bool,
    pub visible: bool,
    pub text: Seq<char>,
    pub shift: bool,
}

impl View for Keyboard {
    type V = KeyboardView;

    open spec fn view(&self) -> KeyboardView {
        KeyboardView {
            panel: self.panel,
            visible: self.visible,
            text: self.text@,
            shift: self.shift,
        }
    }
}

impl KeyboardView {
    /// Put away, without text.
    pub open spec fn absent() -> KeyboardView {
        KeyboardView { panel: false, visible: false, text: Seq::empty(), shift: false }
    }

    /// Just brought up.
    pub open spec fn fresh() -> KeyboardView {
        KeyboardView { panel: true, visible: true, text: Seq::empty(), shift: false }
    }

    /// Whether the keyboard is shown: it has a panel, and the panel is visible.
    pub open spec fn shown(self) -> bool {
        self.visible && self.panel
    }

    /// After being shown, `created` being whether a panel could be made for it: with a
    /// new panel it is fresh; a panel that exists comes back with its text and its
    /// shift; without a panel nothing can be shown.
    pub open spec fn brought_up(self, created: bool) -> KeyboardView {
        if self.panel {
            KeyboardView { visible: true, ..self }
        } else if created {
            KeyboardView::fresh()
        } else {
            self
        }
    }

    /// After a key press. A character key ends the shift; dismissing hides the
    /// keyboard and keeps its text.
    pub open spec fn pressed(self, key: Key) -> KeyboardView {
        match key {
            Key::Char(c) => KeyboardView { text: self.text.push(c), shift: false, ..self },
            Key::Shift => KeyboardView { shift: !self.shift, ..self },
            Key::Space => KeyboardView { text: self.text.push(' '), ..self },
            Key::Backspace => KeyboardView {
                text: if self.text.len() > 0 {
                    self.text.drop_last()
                } else {
                    self.text
                },
                ..self
            },
            Key::Enter => self,
            Key::Dismiss => KeyboardView { visible: false, ..self },
        }
    }
}

impl Keyboard {
    /// A keyboard that is put away.
    pub fn new() -> (keyboard: Keyboard)
        ensures
            keyboard@ == KeyboardView::absent(),
    {
        let text = String::new();
        Keyboard { panel: false, visible: false, text, shift: false }
    }

    /// Press a key.
    pub fn press(&mut self, key: Key)
        ensures
            final(self)@ == old(self)@.pressed(key),
    {
        match key {
            Key::Char(c) => {
                self.text.push(c);
                self.shift = false;
            },
            Key::Shift => {
                self.shift = !self.shift;
            },
            Key::Space => {
                self.text.push(' ');
            },
            Key::Backspace => {
                self.text.pop();
            },
            Key::Enter => {},
            Key::Dismiss => {
                self.visible = false;
            },
        }
    }

    /// Show the keyboard, `created` being whether a panel could be made for it where
    /// it has none. A dismissed keyboard comes back with its text and its shift.
    pub fn show(&mut self, created: bool)
        ensures
            final(self)@ == old(self)@.brought_up(created),
    {
        if self.panel {
            self.visible = true;
        } else if created {
            self.panel = true;
            self.visible = true;
            self.text = String::new();
            self.shift = false;
        }
    }

    /// Put the keyboard and its text away.
    pub fn put_away(&mut self)
        ensures
            final(self)@ == KeyboardView::absent(),
    {
        self.panel = false;
        self.visible = false;
        self.text = String::new();
        self.shift = false;
    }
}

/// Backspace takes back the last key that typed something.
pub proof fn law_backspace_undoes_typing(keyboard: KeyboardView, c: char)
    ensures
        keyboard.pressed(Key::Char(c)).pressed(Key::Backspace).text == keyboard.text,
        keyboard.pressed(Key::Space).pressed(Key::Backspace) == keyboard,
{
    assert(keyboard.text.push(c).drop_last() =~= keyboard.text);
    assert(keyboard.text.push(' ').drop_last() =~= keyboard.text);
}

/// Shift lasts for one character and toggles when pressed again.
pub proof fn law_shift_is_one_shot(keyboard: KeyboardView, c: char)
    ensures
        !keyboard.pressed(Key::Shift).pressed(Key::Char(c)).shift,
        keyboard.pressed(Key::Shift).pressed(Key::Shift) == keyboard,
{
}

/// Typing adds exactly one character; no other key but backspace changes the
/// text.
pub proof fn law_keys_change_text_by_one(keyboard: KeyboardView, key: Key)
    ensures
        keyboard.pressed(key).text.len() <= keyboard.text.len() + 1,
        keyboard.text.len() <= keyboard.pressed(key).text.len() + 1,
        (key is Shift || key is Enter || key is Dismiss) ==> keyboard.pressed(key).text
            == keyboard.text,
{
}

/// A dismissed keyboard can always be brought back, with what was typed.
pub proof fn law_dismissed_keyboard_comes_back(keyboard: KeyboardView, created: bool)
    requires
        keyboard.panel,
    ensures
        !keyboard.pressed(Key::Dismiss).shown(),
        keyboard.pressed(Key::Dismiss).brought_up(created).shown(),
        keyboard.pressed(Key::Dismiss).brought_up(created).text == keyboard.text,
        keyboard.pressed(Key::Dismiss).brought_up(created).shift == keyboard.shift,
{
}

/// A text of keys parted by spaces, with one key more.
proof fn lemma_spaced(text: Seq<char>, keys: Seq<char>, key: char)
    requires
        without_spaces(text) == keys,
        key != ' ',
    ensures
        without_spaces(text.push(' ').push(key)) == keys.push(key),
{
    reveal_with_fuel(without_spaces, 3);
    assert(text.push(' ').push(key).drop_last() =~= text.push(' '));
    assert(text.push(' ').drop_last() =~= text);
}

/// Keys parted by spaces.
spec fn spaced(keys: Seq<char>) -> Seq<char>
    decreases keys.len(),
{
    if keys.len() <= 1 {
        keys
    } else {
        spaced(keys.drop_last()).push(' ').push(keys.last())
    }
}

proof fn lemma_spaced_keys(keys: Seq<char>)
    requires
        forall|i: int| 0 <= i < keys.len() ==> #[trigger] keys[i] != ' ',
    ensures
        without_spaces(spaced(keys)) == keys,
        keys.len() > 0 ==> spaced(keys).len() == 2 * keys.len() - 1,
        forall|i: int|
            0 <= i < spaced(keys).len() ==> #[trigger] spaced(keys)[i] == if i % 2 == 0 {
                keys[i / 2]
            } else {
                ' '
            },
    decreases keys.len(),
{
    reveal_with_fuel(without_spaces, 2);
    if keys.len() == 1 {
        assert(keys.drop_last() =~= Seq::empty());
        assert(without_spaces(keys) =~= keys);
    } else if keys.len() > 1 {
        let rest = keys.drop_last();
        lemma_spaced_keys(rest);
        lemma_spaced(spaced(rest), rest, keys.last());
        assert(rest.push(keys.last()) =~= keys);
    } else {
        assert(without_spaces(keys) =~= keys);
    }
}

/// The keys of every row.
proof fn lemma_rows(shift: bool, row: int)
    requires
        0 <= row < 4,
    ensures
        ({
            let keys = without_spaces(row_text(shift, row));
            &&& row == 0 && !shift ==> keys == seq!['1', '2', '3', '4', '5', '6', '7', '8', '9', '0']
            &&& row == 0 && shift ==> keys == seq!['!', '@', '#', '$', '%', '^', '&', '*', '(', ')']
            &&& row == 1 && !shift ==> keys == seq!['q', 'w', 'e', 'r', 't', 'y', 'u', 'i', 'o', 'p']
            &&& row == 1 && shift ==> keys == seq!['Q', 'W', 'E', 'R', 'T', 'Y', 'U', 'I', 'O', 'P']
            &&& row == 2 && !shift ==> keys == seq!['a', 's', 'd', 'f', 'g', 'h', 'j', 'k', 'l']
            &&& row == 2 && shift ==> keys == seq!['A', 'S', 'D', 'F', 'G', 'H', 'J', 'K', 'L']
            &&& row == 3 && !shift ==> keys == seq!['z', 'x', 'c', 'v', 'b', 'n', 'm']
            &&& row == 3 && shift ==> keys == seq!['Z', 'X', 'C', 'V', 'B', 'N', 'M']
        }),
{
    reveal_strlit("! @ # $ % ^ & * ( )");
    reveal_strlit("Q W E R T Y U I O P");
    reveal_strlit("A S D F G H J K L");
    reveal_strlit("Z X C V B N M");
    reveal_strlit("1 2 3 4 5 6 7 8 9 0");
    reveal_strlit("q w e r t y u i o p");
    reveal_strlit("a s d f g h j k l");
    reveal_strlit("z x c v b n m");
    let keys = if row == 0 {
        if shift {
            seq!['!', '@', '#', '$', '%', '^', '&', '*', '(', ')']
        } else {
            seq!['1', '2', '3', '4', '5', '6', '7', '8', '9', '0']
        }
    } else if row == 1 {
        if shift {
            seq!['Q', 'W', 'E', 'R', 'T', 'Y', 'U', 'I', 'O', 'P']
        } else {
            seq!['q', 'w', 'e', 'r', 't', 'y', 'u', 'i', 'o', 'p']
        }
    } else if row == 2 {
        if shift {
            seq!['A', 'S', 'D', 'F', 'G', 'H', 'J', 'K', 'L']
        } else {
            seq!['a', 's', 'd', 'f', 'g', 'h', 'j', 'k', 'l']
        }
    } else {
        if shift {
            seq!['Z', 'X', 'C', 'V', 'B', 'N', 'M']
        } else {
            seq!['z', 'x', 'c', 'v', 'b', 'n', 'm']
        }
    };
    lemma_spaced_keys(keys);
    assert(row_text(shift, row) =~= spaced(keys));
}

/// Shift changes the case of the letter keys and nothing else: in every row of letters the
/// key at each place is a small letter without shift, and the same letter as a capital with
/// it.
pub proof fn law_shift_changes_the_case(row: int, place: int)
    requires
        1 <= row < 4,
        0 <= place < without_spaces(row_text(false, row)).len(),
    ensures
        ({
            let small = without_spaces(row_text(false, row));
            let capital = without_spaces(row_text(true, row));
            &&& small.len() == capital.len()
            &&& 'a' <= small[place] <= 'z'
            &&& 'A' <= capital[place] <= 'Z'
            &&& capital[place] as int - 'A' as int == small[place] as int - 'a' as int
        }),
{
    lemma_rows(false, row);
    lemma_rows(true, row);
}

/// Every letter can be typed, small and as a capital, and every digit: each has a key.
pub proof fn law_every_letter_has_a_key(letter: char)
    ensures
        'a' <= letter <= 'z' ==> exists|row: int, place: int|
            1 <= row < 4 && 0 <= place < without_spaces(row_text(false, row)).len()
                && #[trigger] without_spaces(row_text(false, row))[place] == letter,
        'A' <= letter <= 'Z' ==> exists|row: int, place: int|
            1 <= row < 4 && 0 <= place < without_spaces(row_text(true, row)).len()
                && #[trigger] without_spaces(row_text(true, row))[place] == letter,
        '0' <= letter <= '9' ==> exists|place: int|
            0 <= place < without_spaces(row_text(false, 0)).len() && #[trigger] without_spaces(
                row_text(false, 0),
            )[place] == letter,
{
    lemma_rows(false, 0);
    lemma_rows(false, 1);
    lemma_rows(false, 2);
    lemma_rows(false, 3);
    lemma_rows(true, 1);
    lemma_rows(true, 2);
    lemma_rows(true, 3);
    let small = |row: int| without_spaces(row_text(false, row));
    let capital = |row: int| without_spaces(row_text(true, row));
    let (s1, s2, s3) = (small(1), small(2), small(3));
    let (c1, c2, c3) = (capital(1), capital(2), capital(3));
    assert(s1[0] == 'q' && s1[1] == 'w' && s1[2] == 'e' && s1[3] == 'r' && s1[4] == 't');
    assert(s1[5] == 'y' && s1[6] == 'u' && s1[7] == 'i' && s1[8] == 'o' && s1[9] == 'p');
    assert(s2[0] == 'a' && s2[1] == 's' && s2[2] == 'd' && s2[3] == 'f' && s2[4] == 'g');
    assert(s2[5] == 'h' && s2[6] == 'j' && s2[7] == 'k' && s2[8] == 'l');
    assert(s3[0] == 'z' && s3[1] == 'x' && s3[2] == 'c' && s3[3] == 'v' && s3[4] == 'b');
    assert(s3[5] == 'n' && s3[6] == 'm');
    assert(c1[0] == 'Q' && c1[1] == 'W' && c1[2] == 'E' && c1[3] == 'R' && c1[4] == 'T');
    assert(c1[5] == 'Y' && c1[6] == 'U' && c1[7] == 'I' && c1[8] == 'O' && c1[9] == 'P');
    assert(c2[0] == 'A' && c2[1] == 'S' && c2[2] == 'D' && c2[3] == 'F' && c2[4] == 'G');
    assert(c2[5] == 'H' && c2[6] == 'J' && c2[7] == 'K' && c2[8] == 'L');
    assert(c3[0] == 'Z' && c3[1] == 'X' && c3[2] == 'C' && c3[3] == 'V' && c3[4] == 'B');
    assert(c3[5] == 'N' && c3[6] == 'M');
    let d = small(0);
    assert(d[0] == '1' && d[1] == '2' && d[2] == '3' && d[3] == '4' && d[4] == '5');
    assert(d[5] == '6' && d[6] == '7' && d[7] == '8' && d[8] == '9' && d[9] == '0');
}

/// Keys type what they show: a character key puts its character behind the text, the space
/// bar a space, backspace takes the last character off, and no other key touches the text.
/// Only the shift key and typing a character change the shift, and only dismissing hides
/// the keyboard.
pub proof fn law_keys_type_what_they_show(keyboard: KeyboardView, key: Key)
    ensures
        ({
            let after = keyboard.pressed(key);
            let text = keyboard.text;
            &&& key matches Key::Char(c) ==> after.text == text.push(c)
            &&& key is Space ==> after.text == text.push(' ')
            &&& key is Backspace && text.len() > 0 ==> after.text == text.take(text.len() - 1)
            &&& key is Backspace && text.len() == 0 ==> after.text.len() == 0
            &&& key is Shift || key is Enter || key is Dismiss ==> after.text == text
            &&& key is Char ==> !after.shift
            &&& key is Shift ==> after.shift == !keyboard.shift
            &&& !(key is Char || key is Shift) ==> after.shift == keyboard.shift
            &&& after.visible == (keyboard.visible && !(key is Dismiss))
            &&& after.panel == keyboard.panel
        }),
{
    if keyboard.text.len() > 0 {
        assert(keyboard.text.drop_last() =~= keyboard.text.take(keyboard.text.len() - 1));
    }
}

/// A keyboard that is brought up is shown if it has or gets a panel: a new one with no text
/// and no shift, and one that was there with the text and shift that it had. A keyboard put
/// away is not shown.
pub proof fn law_keyboard_is_shown(keyboard: KeyboardView, created: bool)
    ensures
        ({
            let after = keyboard.brought_up(created);
            &&& (keyboard.panel || created) ==> after.visible && after.panel
            &&& !keyboard.panel && created ==> after.text.len() == 0 && !after.shift
            &&& keyboard.panel || !created ==> after.text == keyboard.text && after.shift
                == keyboard.shift
            &&& !keyboard.panel && !created ==> after == keyboard
            &&& !KeyboardView::absent().visible && !KeyboardView::absent().panel
            &&& KeyboardView::absent().text.len() == 0 && !KeyboardView::absent().shift
            &&& keyboard.shown() == (keyboard.visible && keyboard.panel)
        }),
{
}

} // verus!

//! The last key press, reduced to the keys and modifiers the application
//! reacts to.
use vstd::prelude::*;

verus! {

#[derive(Debug, Default, Clone, Copy, PartialEq, Eq, Structural)]
pub enum Modifier {
    #[default]
    NoModifier,
    Shift,
    Alt,
    Ctrl,
}

#[derive(Debug, Default, Clone, Copy, PartialEq, Eq, Structural)]
pub enum Key {
    #[default]
    NoKey,
    Up,
    Down,
    Left,
    Right,
    Back,
    Forward,
    /// previous settings section (back-tab)
    Prev,
    /// next settings section (tab)
    Next,
    Enter,
    Escape,
    Backspace,
    // commands
    Quit,
    Fullscreen,
    Config,
    Calender,
    Command(char),
}

/// The key and modifier of the current event, and the character it typed.
#[derive(Debug, Default, Clone, Copy, PartialEq, Eq, Structural)]
pub struct InputMap {
    key: Key,
    modifier: Modifier,
    raw: Option<char>,
}

impl InputMap {
    pub closed spec fn spec_key(self) -> Key {
        self.key
    }

    pub closed spec fn spec_modifier(self) -> Modifier {
        self.modifier
    }

    pub closed spec fn spec_raw(self) -> Option<char> {
        self.raw
    }

    /// No key, no modifier, no character.
    pub fn new() -> (m: InputMap)
        ensures
            m.spec_key() == Key::NoKey,
            m.spec_modifier() == Modifier::NoModifier,
            m.spec_raw() is None,
    {
        InputMap { key: Key::NoKey, modifier: Modifier::NoModifier, raw: None }
    }

    /// Forgets the previous event.
    pub fn reset(&mut self)
        ensures
            final(self).spec_key() == Key::NoKey,
            final(self).spec_modifier() == Modifier::NoModifier,
            final(self).spec_raw() is None,
    {
        *self = InputMap::new();
    }

    pub fn set_input(&mut self, key: Key)
        ensures
            final(self).spec_key() == key,
            final(self).spec_modifier() == old(self).spec_modifier(),
            final(self).spec_raw() == old(self).spec_raw(),
    {
        self.key = key;
    }

    /// The command character, when the key is a plain character command.
    pub fn get_command(&self) -> (c: Option<char>)
        ensures
            c == match self.spec_key() {
                Key::Command(x) => Some(x),
                _ => None,
            },
    {
        if let Key::Command(x) = self.key {
            Some(x)
        } else {
            None
        }
    }

    /// The key and its modifier (always present; `Key::NoKey` when idle).
    pub fn get_key(&self) -> (k: Option<(Key, Modifier)>)
        ensures
            k == Some((self.spec_key(), self.spec_modifier())),
    {
        Some((self.key, self.modifier))
    }

    pub fn set_modifier(&mut self, modifier: Modifier)
        ensures
            final(self).spec_modifier() == modifier,
            final(self).spec_key() == old(self).spec_key(),
            final(self).spec_raw() == old(self).spec_raw(),
    {
        self.modifier = modifier;
    }

    /// The character the key typed, if it typed one.
    pub fn get_raw_char(&self) -> (c: Option<char>)
        ensures
            c == self.spec_raw(),
    {
        self.raw
    }

    pub fn set_raw_char(&mut self, c: Option<char>)
        ensures
            final(self).spec_raw() == c,
            final(self).spec_key() == old(self).spec_key(),
            final(self).spec_modifier() == old(self).spec_modifier(),
    {
        self.raw = c;
    }
}

/// What `set_modifier` and `set_raw_char` keep: the key.
pub open spec fn keeps_key(m0: InputMap, m1: InputMap) -> bool {
    m1.spec_key() == m0.spec_key()
}

/// What `set_input` and `set_raw_char` keep: the modifier.
pub open spec fn keeps_modifier(m0: InputMap, m1: InputMap) -> bool {
    m1.spec_modifier() == m0.spec_modifier()
}

/// The key last given to `set_input` (or cleared by `new`/`reset`) is what
/// `get_key` reports after any run of calls that leave the key alone.
pub proof fn lemma_key_stays(ms: Seq<InputMap>)
    requires
        ms.len() >= 1,
        forall|i: int| 0 <= i < ms.len() - 1 ==> keeps_key(#[trigger] ms[i], ms[i + 1]),
    ensures
        ms.last().spec_key() == ms[0].spec_key(),
    decreases ms.len(),
{
    if ms.len() > 1 {
        let d = ms.drop_last();
        assert forall|i: int| 0 <= i < d.len() - 1 implies keeps_key(#[trigger] d[i], d[i + 1]) by {
            assert(d[i] == ms[i] && d[i + 1] == ms[i + 1]);
        }
        lemma_key_stays(d);
        assert(keeps_key(ms[ms.len() - 2], ms[ms.len() - 1]));
    }
}

/// Likewise the modifier last given to `set_modifier` (or cleared) stays
/// through any run of calls that leave it alone.
pub proof fn lemma_modifier_stays(ms: Seq<InputMap>)
    requires
        ms.len() >= 1,
        forall|i: int| 0 <= i < ms.len() - 1 ==> keeps_modifier(#[trigger] ms[i], ms[i + 1]),
    ensures
        ms.last().spec_modifier() == ms[0].spec_modifier(),
    decreases ms.len(),
{
    if ms.len() > 1 {
        let d = ms.drop_last();
        assert forall|i: int| 0 <= i < d.len() - 1 implies keeps_modifier(#[trigger] d[i], d[i + 1])
            by {
            assert(d[i] == ms[i] && d[i + 1] == ms[i + 1]);
        }
        lemma_modifier_stays(d);
        assert(keeps_modifier(ms[ms.len() - 2], ms[ms.len() - 1]));
    }
}

/// A direction or answer of an earlier input model.
#[allow(dead_code)]
enum Input {
    UP,
    Left,
    Right,
    Down,
    Accept(String),
    Back(String),
}

#[allow(dead_code)]
impl Input {
    /// `1` for up, `-1` for down, `0` otherwise.
    fn to_int(&self) -> (r: i8)
        ensures
            r == match self {
                Input::UP => 1i8,
                Input::Down => -1i8,
                _ => 0i8,
            },
    {
        match self {
            Input::UP => 1,
            Input::Down => -1,
            _ => 0,
        }
    }
}

} // verus!

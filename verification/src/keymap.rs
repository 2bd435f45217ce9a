//! Chords and what they are bound to.

use vstd::prelude::*;

use crate::proto::Action;

verus! {

/// The key of a chord, without its modifiers.
#[derive(Clone, Copy, Debug, PartialEq, Eq, Structural)]
pub enum KeyCode {
    Char(char),
    Enter,
    Tab,
    Backspace,
    Escape,
    Up,
    Down,
    Left,
    Right,
    Home,
    End,
    Insert,
    Delete,
    PageUp,
    PageDown,
    Function(u8),
}

/// The modifiers of a chord.
#[derive(Clone, Copy, Debug, PartialEq, Eq, Structural)]
pub struct KeyMods {
    pub shift: bool,
    pub alt: bool,
    pub ctrl: bool,
}

impl KeyMods {
    #[verifier::allow_in_spec]
    pub fn none() -> KeyMods
        returns
            (KeyMods { shift: false, alt: false, ctrl: false }),
    {
        KeyMods { shift: false, alt: false, ctrl: false }
    }

    #[verifier::allow_in_spec]
    pub fn shifted() -> KeyMods
        returns
            (KeyMods { shift: true, alt: false, ctrl: false }),
    {
        KeyMods { shift: true, alt: false, ctrl: false }
    }
}

/// One chord: a key and the modifiers held with it.
#[derive(Clone, Copy, Debug, PartialEq, Eq, Structural)]
pub struct Key {
    pub code: KeyCode,
    pub mods: KeyMods,
}

impl Key {
    #[verifier::allow_in_spec]
    pub fn new(code: KeyCode, mods: KeyMods) -> Key
        returns
            (Key { code, mods }),
    {
        Key { code, mods }
    }

    /// A key with no modifier.
    #[verifier::allow_in_spec]
    pub fn code(code: KeyCode) -> Key
        returns
            (Key { code, mods: KeyMods::none() }),
    {
        Key { code, mods: KeyMods::none() }
    }

    /// A character with no modifier.
    #[verifier::allow_in_spec]
    pub fn char(ch: char) -> Key
        returns
            (Key { code: KeyCode::Char(ch), mods: KeyMods::none() }),
    {
        Key { code: KeyCode::Char(ch), mods: KeyMods::none() }
    }

    /// A character with control held.
    #[verifier::allow_in_spec]
    pub fn ctrl(ch: char) -> Key
        returns
            (Key {
                code: KeyCode::Char(ch),
                mods: KeyMods { shift: false, alt: false, ctrl: true },
            }),
    {
        Key { code: KeyCode::Char(ch), mods: KeyMods { shift: false, alt: false, ctrl: true } }
    }

    /// The same chord with alt held as well.
    #[verifier::allow_in_spec]
    pub fn with_alt(self) -> Key
        returns
            (Key {
                code: self.code,
                mods: KeyMods { shift: self.mods.shift, alt: true, ctrl: self.mods.ctrl },
            }),
    {
        Key {
            code: self.code,
            mods: KeyMods { shift: self.mods.shift, alt: true, ctrl: self.mods.ctrl },
        }
    }
}

/// One bound chord, with the spelling a user would write it by and the name
/// the configuration calls its action.
#[derive(Debug, PartialEq, Eq)]
pub struct Binding {
    pub key: Key,
    pub spelling: String,
    pub name: String,
    pub action: Action,
}

impl Clone for Binding {
    fn clone(&self) -> (copy: Binding)
        ensures
            copy == *self,
    {
        Binding {
            key: self.key,
            spelling: self.spelling.clone(),
            name: self.name.clone(),
            action: self.action.clone(),
        }
    }
}

/// The prefix chord, and what each chord after it is bound to.
#[derive(Clone, Debug, PartialEq, Eq)]
pub struct Keymap {
    pub prefix: Key,
    pub prefix_spelling: String,
    pub bindings: Vec<Binding>,
}

/// The first binding of `key`, if it is bound at all.
pub open spec fn bound(bindings: Seq<Binding>, key: Key) -> Option<Action>
    decreases bindings.len(),
{
    if bindings.len() == 0 {
        None
    } else if bindings[0].key == key {
        Some(bindings[0].action)
    } else {
        bound(bindings.drop_first(), key)
    }
}

/// The first binding of `action`, if any chord reaches it.
pub open spec fn first_bound(bindings: Seq<Binding>, action: Action) -> Option<Binding>
    decreases bindings.len(),
{
    if bindings.len() == 0 {
        None
    } else if bindings[0].action == action {
        Some(bindings[0])
    } else {
        first_bound(bindings.drop_first(), action)
    }
}

/// `bindings` without those of `key`.
pub open spec fn without(bindings: Seq<Binding>, key: Key) -> Seq<Binding> {
    bindings.filter(|binding: Binding| binding.key != key)
}

impl Keymap {
    /// A keymap with nothing bound.
    pub fn new(prefix: Key, prefix_spelling: String) -> (keymap: Keymap)
        ensures
            keymap.prefix == prefix,
            keymap.prefix_spelling == prefix_spelling,
            keymap.bindings@ == Seq::<Binding>::empty(),
    {
        Keymap { prefix, prefix_spelling, bindings: Vec::new() }
    }

    /// The chord that makes the next one a command.
    #[verifier::allow_in_spec]
    pub fn prefix(&self) -> Key
        returns
            (self.prefix),
    {
        self.prefix
    }

    /// What `key` is bound to behind the prefix.
    pub fn action(&self, key: Key) -> (action: Option<Action>)
        ensures
            action == bound(self.bindings@, key),
    {
        assert(self.bindings@.skip(0) =~= self.bindings@);
        let mut i: usize = 0;
        while i < self.bindings.len()
            invariant
                i <= self.bindings.len(),
                bound(self.bindings@, key) == bound(self.bindings@.skip(i as int), key),
            decreases self.bindings.len() - i,
        {
            if self.bindings[i].key == key {
                return Some(self.bindings[i].action.clone());
            }
            assert(self.bindings@.skip(i as int).drop_first() =~= self.bindings@.skip(i + 1));
            i = i + 1;
        }
        None
    }

    /// The first binding of `action`, for an action that carries nothing.
    pub fn binding_of(&self, action: &Action) -> (binding: Option<&Binding>)
        requires
            action.is_plain(),
        ensures
            match binding {
                Some(found) => first_bound(self.bindings@, *action) == Some(*found),
                None => first_bound(self.bindings@, *action) is None,
            },
    {
        assert(self.bindings@.skip(0) =~= self.bindings@);
        let mut i: usize = 0;
        while i < self.bindings.len()
            invariant
                i <= self.bindings.len(),
                action.is_plain(),
                first_bound(self.bindings@, *action) == first_bound(
                    self.bindings@.skip(i as int),
                    *action,
                ),
            decreases self.bindings.len() - i,
        {
            if self.bindings[i].action.is_action(action) {
                return Some(&self.bindings[i]);
            }
            assert(self.bindings@.skip(i as int).drop_first() =~= self.bindings@.skip(i + 1));
            i = i + 1;
        }
        None
    }

    /// Makes `key` the prefix.
    pub fn set_prefix(&mut self, key: Key, spelling: String)
        ensures
            final(self).prefix == key,
            final(self).prefix_spelling == spelling,
            final(self).bindings == old(self).bindings,
    {
        self.prefix = key;
        self.prefix_spelling = spelling;
    }

    /// Takes `key` away from whatever it was bound to.
    pub fn unbind(&mut self, key: Key)
        ensures
            final(self).prefix == old(self).prefix,
            final(self).prefix_spelling == old(self).prefix_spelling,
            final(self).bindings@ == without(old(self).bindings@, key),
    {
        let mut kept: Vec<Binding> = Vec::new();
        for i in 0..self.bindings.len()
            invariant
                *self == *old(self),
                kept@ == without(self.bindings@.take(i as int), key),
        {
            let ghost taken = self.bindings@.take(i as int);
            assert(self.bindings@.take(i + 1) =~= taken.push(self.bindings@[i as int]));
            assert(without(taken.push(self.bindings@[i as int]), key) =~= if self.bindings@[i as int].key != key {
                without(taken, key).push(self.bindings@[i as int])
            } else {
                without(taken, key)
            }) by {
                reveal(Seq::filter);
                assert(taken.push(self.bindings@[i as int]).drop_last() =~= taken);
            }
            if self.bindings[i].key != key {
                kept.push(self.bindings[i].clone());
            }
        }
        assert(self.bindings@.take(self.bindings@.len() as int) =~= self.bindings@);
        self.bindings = kept;
    }

    /// Binds `key`, in place of whatever it was bound to.
    pub fn bind(&mut self, key: Key, spelling: String, name: String, action: Action)
        ensures
            final(self).prefix == old(self).prefix,
            final(self).prefix_spelling == old(self).prefix_spelling,
            final(self).bindings@ == without(old(self).bindings@, key).push(
                Binding { key, spelling, name, action },
            ),
    {
        self.unbind(key);
        self.bindings.push(Binding { key, spelling, name, action });
    }
}

} // verus!

//! The 16-key hex keypad state and the key-event decisions.
//!
//! A window layer outside the core turns raw keyboard events into
//! [`KeyEvent`] values and hands them in; everything that is specific to
//! the CHIP-8 keypad — the fixed physical-to-logical mapping, the held-key
//! bitmask, and the "is this event a press of a mapped key" test that a
//! blocked FX0A waiter applies — is decided here.

use vstd::prelude::*;

verus! {

/// A logical hex-keypad key, 0 through F.
#[derive(Clone, Copy, Debug, PartialEq, Eq, Structural)]
pub enum Key {
    Key0,
    Key1,
    Key2,
    Key3,
    Key4,
    Key5,
    Key6,
    Key7,
    Key8,
    Key9,
    KeyA,
    KeyB,
    KeyC,
    KeyD,
    KeyE,
    KeyF,
}

/// A physical keyboard key that the fixed keypad table maps. Keys outside
/// this set never reach the core: the window layer reports them as `None`
/// in a [`KeyEvent`].
#[derive(Clone, Copy, Debug, PartialEq, Eq, Structural)]
pub enum PhysicalKey {
    Digit1,
    Digit2,
    Digit3,
    Digit4,
    Q,
    W,
    E,
    R,
    A,
    S,
    D,
    F,
    Z,
    X,
    C,
    V,
}

/// One raw keyboard transition: which mapped key, if any, and whether it
/// went down or up.
#[derive(Clone, Copy, Debug, PartialEq, Eq, Structural)]
pub struct KeyEvent {
    pub key: Option<PhysicalKey>,
    pub pressed: bool,
}

impl Key {
    /// The key's hex value, 0 through 15.
    pub open spec fn spec_value(self) -> u8 {
        match self {
            Key::Key0 => 0,
            Key::Key1 => 1,
            Key::Key2 => 2,
            Key::Key3 => 3,
            Key::Key4 => 4,
            Key::Key5 => 5,
            Key::Key6 => 6,
            Key::Key7 => 7,
            Key::Key8 => 8,
            Key::Key9 => 9,
            Key::KeyA => 10,
            Key::KeyB => 11,
            Key::KeyC => 12,
            Key::KeyD => 13,
            Key::KeyE => 14,
            Key::KeyF => 15,
        }
    }

    /// The key's hex value, 0 through 15.
    pub fn value(self) -> (v: u8)
        ensures
            v == self.spec_value(),
            v < 16,
    {
        match self {
            Key::Key0 => 0,
            Key::Key1 => 1,
            Key::Key2 => 2,
            Key::Key3 => 3,
            Key::Key4 => 4,
            Key::Key5 => 5,
            Key::Key6 => 6,
            Key::Key7 => 7,
            Key::Key8 => 8,
            Key::Key9 => 9,
            Key::KeyA => 10,
            Key::KeyB => 11,
            Key::KeyC => 12,
            Key::KeyD => 13,
            Key::KeyE => 14,
            Key::KeyF => 15,
        }
    }
}

/// The fixed keypad table: the `1 2 3 4 / Q W E R / A S D F / Z X C V`
/// block stands for logical keys `1 2 3 C / 4 5 6 D / 7 8 9 E / A 0 B F`.
pub open spec fn spec_key_of(p: PhysicalKey) -> Key {
    match p {
        PhysicalKey::Digit1 => Key::Key1,
        PhysicalKey::Digit2 => Key::Key2,
        PhysicalKey::Digit3 => Key::Key3,
        PhysicalKey::Digit4 => Key::KeyC,
        PhysicalKey::Q => Key::Key4,
        PhysicalKey::W => Key::Key5,
        PhysicalKey::E => Key::Key6,
        PhysicalKey::R => Key::KeyD,
        PhysicalKey::A => Key::Key7,
        PhysicalKey::S => Key::Key8,
        PhysicalKey::D => Key::Key9,
        PhysicalKey::F => Key::KeyE,
        PhysicalKey::Z => Key::KeyA,
        PhysicalKey::X => Key::Key0,
        PhysicalKey::C => Key::KeyB,
        PhysicalKey::V => Key::KeyF,
    }
}

/// The fixed keypad table, executable form.
pub fn key_of(p: PhysicalKey) -> (k: Key)
    ensures
        k == spec_key_of(p),
{
    match p {
        PhysicalKey::Digit1 => Key::Key1,
        PhysicalKey::Digit2 => Key::Key2,
        PhysicalKey::Digit3 => Key::Key3,
        PhysicalKey::Digit4 => Key::KeyC,
        PhysicalKey::Q => Key::Key4,
        PhysicalKey::W => Key::Key5,
        PhysicalKey::E => Key::Key6,
        PhysicalKey::R => Key::KeyD,
        PhysicalKey::A => Key::Key7,
        PhysicalKey::S => Key::Key8,
        PhysicalKey::D => Key::Key9,
        PhysicalKey::F => Key::KeyE,
        PhysicalKey::Z => Key::KeyA,
        PhysicalKey::X => Key::Key0,
        PhysicalKey::C => Key::KeyB,
        PhysicalKey::V => Key::KeyF,
    }
}

/// True iff bit `k` of the held mask `m` is set.
pub open spec fn mask_bit(m: u16, k: int) -> bool {
    (m >> (k as u16)) & 1 == 1
}

/// True iff a register value `v` names a key that is currently held:
/// values 16 and above name no key and are never held.
pub open spec fn key_down(m: u16, v: u8) -> bool {
    v < 16 && mask_bit(m, v as int)
}

/// The held mask after one event: a press sets the mapped key's bit, a
/// release clears it, and an unmapped event changes nothing.
pub open spec fn apply_event(m: u16, e: KeyEvent) -> u16 {
    match e.key {
        Some(p) => if e.pressed {
            m | (1u16 << spec_key_of(p).spec_value() as u16)
        } else {
            m & !(1u16 << spec_key_of(p).spec_value() as u16)
        },
        None => m,
    }
}

/// The held mask after a whole batch of events, applied in order.
pub open spec fn apply_events(m: u16, es: Seq<KeyEvent>) -> u16
    decreases es.len(),
{
    if es.len() == 0 {
        m
    } else {
        apply_events(apply_event(m, es[0]), es.skip(1))
    }
}

/// Setting bit `k` of a mask sets that bit and leaves the rest unchanged.
proof fn lemma_mask_set(m: u16, k: u16, j: u16)
    requires
        k < 16,
        j < 16,
    ensures
        (((m | (1u16 << k)) >> j) & 1 == 1) == (j == k || ((m >> j) & 1 == 1)),
{
    assert((((m | (1u16 << k)) >> j) & 1 == 1) == (j == k || ((m >> j) & 1 == 1)))
        by (bit_vector)
        requires
            k < 16,
            j < 16,
    ;
}

/// Clearing bit `k` of a mask clears that bit and leaves the rest unchanged.
proof fn lemma_mask_clear(m: u16, k: u16, j: u16)
    requires
        k < 16,
        j < 16,
    ensures
        (((m & !(1u16 << k)) >> j) & 1 == 1) == (j != k && ((m >> j) & 1 == 1)),
{
    assert((((m & !(1u16 << k)) >> j) & 1 == 1) == (j != k && ((m >> j) & 1 == 1)))
        by (bit_vector)
        requires
            k < 16,
            j < 16,
    ;
}

/// The live keypad state: bit `k` of `key_states` is set iff logical key
/// `k` is currently held.
pub struct InputReceiver {
    pub key_states: u16,
}

impl InputReceiver {
    /// No key held at the start.
    pub fn new() -> (r: InputReceiver)
        ensures
            r.key_states == 0,
    {
        InputReceiver { key_states: 0 }
    }

    /// Fold one raw key transition into the held mask: a press sets the
    /// mapped key's bit, a release clears it, an unmapped event changes
    /// nothing.
    pub fn on_key_event(&mut self, key: Option<PhysicalKey>, pressed: bool)
        ensures
            final(self).key_states == apply_event(
                old(self).key_states,
                KeyEvent { key, pressed },
            ),
    {
        match key {
            Some(p) => {
                let bit = key_of(p).value();
                if pressed {
                    self.key_states = self.key_states | (1u16 << bit as u16);
                } else {
                    self.key_states = self.key_states & !(1u16 << bit as u16);
                }
            },
            None => {},
        }
    }

    /// Fold a batch of raw key transitions, in order, into the held mask.
    pub fn process_key_events(&mut self, events: &Vec<KeyEvent>)
        ensures
            final(self).key_states == apply_events(old(self).key_states, events@),
    {
        assert(events@.skip(0) =~= events@);
        let mut k: usize = 0;
        while k < events.len()
            invariant
                k <= events@.len(),
                apply_events(self.key_states, events@.skip(k as int)) == apply_events(
                    old(self).key_states,
                    events@,
                ),
            decreases events@.len() - k,
        {
            let e = events[k];
            assert(events@.skip(k as int)[0] == e);
            assert(events@.skip(k as int).skip(1) =~= events@.skip(k as int + 1));
            self.on_key_event(e.key, e.pressed);
            assert((KeyEvent { key: e.key, pressed: e.pressed }) == e);
            k = k + 1;
        }
        assert(events@.skip(events@.len() as int) =~= Seq::<KeyEvent>::empty());
    }

    /// Whether the given logical key is currently held.
    pub fn is_key_pressed(&self, key: Key) -> (held: bool)
        ensures
            held == mask_bit(self.key_states, key.spec_value() as int),
    {
        let v = key.value();
        (self.key_states >> v as u16) & 1 == 1
    }

    /// Whether the key named by a raw register value is held. Values 16 and
    /// above name no key and are reported as not held.
    pub fn is_value_pressed(&self, v: u8) -> (held: bool)
        ensures
            held == key_down(self.key_states, v),
    {
        if v < 16 {
            (self.key_states >> v as u16) & 1 == 1
        } else {
            false
        }
    }
}

/// The test a blocked FX0A waiter applies to each arriving event: a press
/// of a mapped key yields that key, and every other event is discarded.
pub fn key_press_of(e: &KeyEvent) -> (r: Option<Key>)
    ensures
        r == match e.key {
            Some(p) => if e.pressed {
                Some(spec_key_of(p))
            } else {
                None::<Key>
            },
            None => None::<Key>,
        },
{
    match e.key {
        Some(p) => if e.pressed {
            Some(key_of(p))
        } else {
            None
        },
        None => None,
    }
}

/// One key event changes exactly the mapped key's held state: a press
/// holds it, a release frees it, and every other key keeps its state. An
/// unmapped event changes nothing.
pub proof fn lemma_apply_event(m: u16, e: KeyEvent, v: u8)
    requires
        v < 16,
    ensures
        key_down(apply_event(m, e), v) == match e.key {
            Some(p) => if spec_key_of(p).spec_value() == v {
                e.pressed
            } else {
                key_down(m, v)
            },
            None => key_down(m, v),
        },
{
    match e.key {
        Some(p) => {
            let k = spec_key_of(p).spec_value();
            assert(k < 16);
            if e.pressed {
                lemma_mask_set(m, k as u16, v as u16);
            } else {
                lemma_mask_clear(m, k as u16, v as u16);
            }
        },
        None => {},
    }
}

} // verus!

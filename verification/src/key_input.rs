//! Keyboard events of the interface turned into the key values that scripts receive.
use vstd::prelude::*;

verus! {

/// A key as the interface reports it. The keys that scripts see are listed in the toolkit's
/// declaration order, which orders held keys; every other key is `Other`.
#[derive(Clone, Copy, Debug, PartialEq, Eq, Structural)]
pub enum Key {
    ArrowDown,
    ArrowLeft,
    ArrowRight,
    ArrowUp,
    Escape,
    Tab,
    Backspace,
    Enter,
    Space,
    Insert,
    Delete,
    Home,
    End,
    PageUp,
    PageDown,
    Period,
    Num0,
    Num1,
    Num2,
    Num3,
    Num4,
    Num5,
    Num6,
    Num7,
    Num8,
    Num9,
    A,
    B,
    C,
    D,
    E,
    F,
    G,
    H,
    I,
    J,
    K,
    L,
    M,
    N,
    O,
    P,
    Q,
    R,
    S,
    T,
    U,
    V,
    W,
    X,
    Y,
    Z,
    Other,
}

/// The number of keys that scripts see.
pub const SCRIPT_KEY_COUNT: usize = 52;

/// The modifier keys held during a key event.
#[derive(Clone, Copy, Debug, PartialEq, Eq, Structural)]
pub struct Modifiers {
    pub alt: bool,
    pub ctrl: bool,
    pub shift: bool,
    pub mac_cmd: bool,
    pub command: bool,
}

/// An input event of the interface, as far as key handling reads it.
#[derive(Clone, Copy, Debug, PartialEq, Eq, Structural)]
pub enum InputEvent {
    Key { key: Key, pressed: bool, repeat: bool, modifiers: Modifiers },
    WindowFocused(bool),
    Other,
}

#[derive(Clone, Copy, Debug, PartialEq, Eq, Structural)]
pub enum KeyEventType {
    Pressed,
    Released,
}

/// A key event as scripts receive it.
#[derive(Clone, Copy, Debug, PartialEq, Eq, Structural)]
pub struct KeyEvent {
    pub event_type: KeyEventType,
    pub key: i64,
    pub modifiers: i64,
}

/// The key value that scripts receive for a key, if they see it at all.
pub open spec fn key_code(key: Key) -> Option<i64> {
    match key {
        Key::ArrowDown => Some(16_777_237i64),
        Key::ArrowLeft => Some(16_777_234i64),
        Key::ArrowRight => Some(16_777_236i64),
        Key::ArrowUp => Some(16_777_235i64),
        Key::Escape => Some(16_777_216i64),
        Key::Tab => Some(16_777_217i64),
        Key::Backspace => Some(16_777_219i64),
        Key::Enter => Some(16_777_220i64),
        Key::Space => Some(32i64),
        Key::Insert => Some(16_777_222i64),
        Key::Delete => Some(16_777_223i64),
        Key::Home => Some(16_777_232i64),
        Key::End => Some(16_777_233i64),
        Key::PageUp => Some(16_777_238i64),
        Key::PageDown => Some(16_777_239i64),
        Key::Period => Some(46i64),
        Key::Num0 => Some(48i64),
        Key::Num1 => Some(49i64),
        Key::Num2 => Some(50i64),
        Key::Num3 => Some(51i64),
        Key::Num4 => Some(52i64),
        Key::Num5 => Some(53i64),
        Key::Num6 => Some(54i64),
        Key::Num7 => Some(55i64),
        Key::Num8 => Some(56i64),
        Key::Num9 => Some(57i64),
        Key::A => Some(65i64),
        Key::B => Some(66i64),
        Key::C => Some(67i64),
        Key::D => Some(68i64),
        Key::E => Some(69i64),
        Key::F => Some(70i64),
        Key::G => Some(71i64),
        Key::H => Some(72i64),
        Key::I => Some(73i64),
        Key::J => Some(74i64),
        Key::K => Some(75i64),
        Key::L => Some(76i64),
        Key::M => Some(77i64),
        Key::N => Some(78i64),
        Key::O => Some(79i64),
        Key::P => Some(80i64),
        Key::Q => Some(81i64),
        Key::R => Some(82i64),
        Key::S => Some(83i64),
        Key::T => Some(84i64),
        Key::U => Some(85i64),
        Key::V => Some(86i64),
        Key::W => Some(87i64),
        Key::X => Some(88i64),
        Key::Y => Some(89i64),
        Key::Z => Some(90i64),
        Key::Other => None,
    }
}

/// The position of a key among the keys that scripts see.
pub open spec fn key_rank(key: Key) -> int {
    match key {
        Key::ArrowDown => 0,
        Key::ArrowLeft => 1,
        Key::ArrowRight => 2,
        Key::ArrowUp => 3,
        Key::Escape => 4,
        Key::Tab => 5,
        Key::Backspace => 6,
        Key::Enter => 7,
        Key::Space => 8,
        Key::Insert => 9,
        Key::Delete => 10,
        Key::Home => 11,
        Key::End => 12,
        Key::PageUp => 13,
        Key::PageDown => 14,
        Key::Period => 15,
        Key::Num0 => 16,
        Key::Num1 => 17,
        Key::Num2 => 18,
        Key::Num3 => 19,
        Key::Num4 => 20,
        Key::Num5 => 21,
        Key::Num6 => 22,
        Key::Num7 => 23,
        Key::Num8 => 24,
        Key::Num9 => 25,
        Key::A => 26,
        Key::B => 27,
        Key::C => 28,
        Key::D => 29,
        Key::E => 30,
        Key::F => 31,
        Key::G => 32,
        Key::H => 33,
        Key::I => 34,
        Key::J => 35,
        Key::K => 36,
        Key::L => 37,
        Key::M => 38,
        Key::N => 39,
        Key::O => 40,
        Key::P => 41,
        Key::Q => 42,
        Key::R => 43,
        Key::S => 44,
        Key::T => 45,
        Key::U => 46,
        Key::V => 47,
        Key::W => 48,
        Key::X => 49,
        Key::Y => 50,
        Key::Z => 51,
        Key::Other => 52,
    }
}

/// The key at a position among the keys that scripts see.
pub open spec fn rank_key(rank: u8) -> Key {
    match rank {
        0 => Key::ArrowDown,
        1 => Key::ArrowLeft,
        2 => Key::ArrowRight,
        3 => Key::ArrowUp,
        4 => Key::Escape,
        5 => Key::Tab,
        6 => Key::Backspace,
        7 => Key::Enter,
        8 => Key::Space,
        9 => Key::Insert,
        10 => Key::Delete,
        11 => Key::Home,
        12 => Key::End,
        13 => Key::PageUp,
        14 => Key::PageDown,
        15 => Key::Period,
        16 => Key::Num0,
        17 => Key::Num1,
        18 => Key::Num2,
        19 => Key::Num3,
        20 => Key::Num4,
        21 => Key::Num5,
        22 => Key::Num6,
        23 => Key::Num7,
        24 => Key::Num8,
        25 => Key::Num9,
        26 => Key::A,
        27 => Key::B,
        28 => Key::C,
        29 => Key::D,
        30 => Key::E,
        31 => Key::F,
        32 => Key::G,
        33 => Key::H,
        34 => Key::I,
        35 => Key::J,
        36 => Key::K,
        37 => Key::L,
        38 => Key::M,
        39 => Key::N,
        40 => Key::O,
        41 => Key::P,
        42 => Key::Q,
        43 => Key::R,
        44 => Key::S,
        45 => Key::T,
        46 => Key::U,
        47 => Key::V,
        48 => Key::W,
        49 => Key::X,
        50 => Key::Y,
        51 => Key::Z,
        _ => Key::Other,
    }
}

proof fn lemma_rank_identifies_key(key: Key)
    ensures
        key_code(key) is Some ==> rank_key(key_rank(key) as u8) == key,
{
}

/// The modifier value that scripts receive: one bit per held modifier.
pub open spec fn modifiers_value(modifiers: Modifiers) -> i64 {
    ((if modifiers.shift { 33_554_432int } else { 0int }) + (if modifiers.ctrl {
        67_108_864int
    } else {
        0int
    }) + (if modifiers.alt { 134_217_728int } else { 0int }) + (if modifiers.mac_cmd {
        268_435_456int
    } else {
        0int
    })) as i64
}

/// The key value that scripts receive for a key; none for keys they do not see.
pub fn script_key(key: Key) -> (r: Option<i64>)
    ensures
        r == key_code(key),
{
    match key {
        Key::ArrowDown => Some(16_777_237),
        Key::ArrowLeft => Some(16_777_234),
        Key::ArrowRight => Some(16_777_236),
        Key::ArrowUp => Some(16_777_235),
        Key::Escape => Some(16_777_216),
        Key::Tab => Some(16_777_217),
        Key::Backspace => Some(16_777_219),
        Key::Enter => Some(16_777_220),
        Key::Space => Some(32),
        Key::Insert => Some(16_777_222),
        Key::Delete => Some(16_777_223),
        Key::Home => Some(16_777_232),
        Key::End => Some(16_777_233),
        Key::PageUp => Some(16_777_238),
        Key::PageDown => Some(16_777_239),
        Key::Period => Some(46),
        Key::Num0 => Some(48),
        Key::Num1 => Some(49),
        Key::Num2 => Some(50),
        Key::Num3 => Some(51),
        Key::Num4 => Some(52),
        Key::Num5 => Some(53),
        Key::Num6 => Some(54),
        Key::Num7 => Some(55),
        Key::Num8 => Some(56),
        Key::Num9 => Some(57),
        Key::A => Some(65),
        Key::B => Some(66),
        Key::C => Some(67),
        Key::D => Some(68),
        Key::E => Some(69),
        Key::F => Some(70),
        Key::G => Some(71),
        Key::H => Some(72),
        Key::I => Some(73),
        Key::J => Some(74),
        Key::K => Some(75),
        Key::L => Some(76),
        Key::M => Some(77),
        Key::N => Some(78),
        Key::O => Some(79),
        Key::P => Some(80),
        Key::Q => Some(81),
        Key::R => Some(82),
        Key::S => Some(83),
        Key::T => Some(84),
        Key::U => Some(85),
        Key::V => Some(86),
        Key::W => Some(87),
        Key::X => Some(88),
        Key::Y => Some(89),
        Key::Z => Some(90),
        Key::Other => None,
    }
}

fn rank_of(key: Key) -> (r: usize)
    ensures
        r == key_rank(key),
{
    match key {
        Key::ArrowDown => 0,
        Key::ArrowLeft => 1,
        Key::ArrowRight => 2,
        Key::ArrowUp => 3,
        Key::Escape => 4,
        Key::Tab => 5,
        Key::Backspace => 6,
        Key::Enter => 7,
        Key::Space => 8,
        Key::Insert => 9,
        Key::Delete => 10,
        Key::Home => 11,
        Key::End => 12,
        Key::PageUp => 13,
        Key::PageDown => 14,
        Key::Period => 15,
        Key::Num0 => 16,
        Key::Num1 => 17,
        Key::Num2 => 18,
        Key::Num3 => 19,
        Key::Num4 => 20,
        Key::Num5 => 21,
        Key::Num6 => 22,
        Key::Num7 => 23,
        Key::Num8 => 24,
        Key::Num9 => 25,
        Key::A => 26,
        Key::B => 27,
        Key::C => 28,
        Key::D => 29,
        Key::E => 30,
        Key::F => 31,
        Key::G => 32,
        Key::H => 33,
        Key::I => 34,
        Key::J => 35,
        Key::K => 36,
        Key::L => 37,
        Key::M => 38,
        Key::N => 39,
        Key::O => 40,
        Key::P => 41,
        Key::Q => 42,
        Key::R => 43,
        Key::S => 44,
        Key::T => 45,
        Key::U => 46,
        Key::V => 47,
        Key::W => 48,
        Key::X => 49,
        Key::Y => 50,
        Key::Z => 51,
        Key::Other => 52,
    }
}

/// The modifier value that scripts receive for the modifiers held.
pub fn script_modifiers(modifiers: Modifiers) -> (r: i64)
    ensures
        r == modifiers_value(modifiers),
{
    let mut value: i64 = 0;
    if modifiers.shift {
        value = value + 33_554_432;
    }
    if modifiers.ctrl {
        value = value + 67_108_864;
    }
    if modifiers.alt {
        value = value + 134_217_728;
    }
    if modifiers.mac_cmd {
        value = value + 268_435_456;
    }
    value
}

/// For each key that scripts see, in key order, the key value and modifiers of its press while
/// it is held: none held.
pub open spec fn no_keys_held() -> Seq<Option<(i64, i64)>> {
    Seq::new(52, |i: int| None)
}

pub open spec fn released(held: Option<(i64, i64)>) -> Seq<KeyEvent> {
    match held {
        Some((key, modifiers)) => seq![
            KeyEvent { event_type: KeyEventType::Released, key: key, modifiers: modifiers },
        ],
        None => Seq::empty(),
    }
}

/// The releases of all held keys, in key order.
pub open spec fn release_all(slots: Seq<Option<(i64, i64)>>) -> Seq<KeyEvent>
    decreases slots.len(),
{
    if slots.len() == 0 {
        Seq::empty()
    } else {
        release_all(slots.drop_last()) + released(slots.last())
    }
}

/// What one input event does to the held keys, and the script events it gives.
pub open spec fn key_step(
    slots: Seq<Option<(i64, i64)>>,
    event: InputEvent,
    text_entry_active: bool,
) -> (Seq<Option<(i64, i64)>>, Seq<KeyEvent>) {
    match event {
        InputEvent::Key { key, pressed, repeat, modifiers } => match key_code(key) {
            None => (slots, Seq::empty()),
            Some(code) => {
                let held = slots[key_rank(key)] is Some;
                if pressed {
                    if text_entry_active || repeat || held {
                        (slots, Seq::empty())
                    } else {
                        let value = modifiers_value(modifiers);
                        (
                            slots.update(key_rank(key), Some((code, value))),
                            seq![
                                KeyEvent {
                                    event_type: KeyEventType::Pressed,
                                    key: code,
                                    modifiers: value,
                                },
                            ],
                        )
                    }
                } else if held {
                    (
                        slots.update(key_rank(key), None),
                        seq![
                            KeyEvent {
                                event_type: KeyEventType::Released,
                                key: code,
                                modifiers: modifiers_value(modifiers),
                            },
                        ],
                    )
                } else {
                    (slots, Seq::empty())
                }
            },
        },
        InputEvent::WindowFocused(focused) => if focused {
            (slots, Seq::empty())
        } else {
            (no_keys_held(), release_all(slots))
        },
        InputEvent::Other => (slots, Seq::empty()),
    }
}

/// The held keys after a run of input events, and all script events they give, in order.
pub open spec fn translate(
    events: Seq<InputEvent>,
    text_entry_active: bool,
    slots: Seq<Option<(i64, i64)>>,
) -> (Seq<Option<(i64, i64)>>, Seq<KeyEvent>)
    decreases events.len(),
{
    if events.len() == 0 {
        (slots, Seq::empty())
    } else {
        let before = translate(events.drop_last(), text_entry_active, slots);
        let step = key_step(before.0, events.last(), text_entry_active);
        (step.0, before.1 + step.1)
    }
}

/// The keys that are held down, with the key value and modifiers of their press.
pub struct PressedKeys {
    slots: Vec<Option<(i64, i64)>>,
}

impl PressedKeys {
    #[verifier::type_invariant]
    spec fn one_slot_per_key(self) -> bool {
        self.slots@.len() == 52 && slots_consistent(self.slots@)
    }

    pub closed spec fn held(self) -> Seq<Option<(i64, i64)>> {
        self.slots@
    }

    /// No key held.
    pub fn new() -> (r: Self)
        ensures
            r.held() == no_keys_held(),
    {
        PressedKeys { slots: empty_slots() }
    }

    /// Whether no key is held.
    pub fn is_empty(&self) -> (r: bool)
        ensures
            r == (forall|i: int| 0 <= i < self.held().len() ==> self.held()[i] is None),
    {
        let mut i: usize = 0;
        while i < self.slots.len()
            invariant
                i <= self.slots@.len(),
                forall|j: int| 0 <= j < i ==> self.slots@[j] is None,
            decreases self.slots@.len() - i,
        {
            if self.slots[i].is_some() {
                return false;
            }
            i = i + 1;
        }
        true
    }

    /// The number of keys held.
    pub fn len(&self) -> (r: usize)
        ensures
            r == held_count(self.held()),
    {
        let mut count: usize = 0;
        let mut i: usize = 0;
        while i < self.slots.len()
            invariant
                i <= self.slots@.len(),
                count == held_count(self.slots@.take(i as int)),
                count <= i,
            decreases self.slots@.len() - i,
        {
            proof {
                assert(self.slots@.take(i as int + 1).drop_last() =~= self.slots@.take(i as int));
            }
            if self.slots[i].is_some() {
                count = count + 1;
            }
            i = i + 1;
        }
        proof {
            assert(self.slots@.take(i as int) =~= self.slots@);
        }
        count
    }
}

/// The number of held keys.
pub open spec fn held_count(slots: Seq<Option<(i64, i64)>>) -> nat
    decreases slots.len(),
{
    if slots.len() == 0 {
        0
    } else {
        held_count(slots.drop_last()) + if slots.last() is Some {
            1nat
        } else {
            0nat
        }
    }
}

fn empty_slots() -> (r: Vec<Option<(i64, i64)>>)
    ensures
        r@ == no_keys_held(),
{
    let mut slots: Vec<Option<(i64, i64)>> = Vec::new();
    let mut i: usize = 0;
    while i < SCRIPT_KEY_COUNT
        invariant
            i <= 52,
            slots@.len() == i,
            forall|j: int| 0 <= j < i ==> slots@[j] is None,
        decreases 52 - i,
    {
        slots.push(None);
        i = i + 1;
    }
    assert(slots@ =~= no_keys_held());
    slots
}

fn release_slots(slots: &Vec<Option<(i64, i64)>>, out: &mut Vec<KeyEvent>)
    ensures
        final(out)@ == old(out)@ + release_all(slots@),
{
    let mut i: usize = 0;
    while i < slots.len()
        invariant
            i <= slots@.len(),
            out@ == old(out)@ + release_all(slots@.take(i as int)),
        decreases slots@.len() - i,
    {
        proof {
            assert(slots@.take(i as int + 1).drop_last() =~= slots@.take(i as int));
        }
        match slots[i] {
            Some((key, modifiers)) => {
                out.push(KeyEvent { event_type: KeyEventType::Released, key, modifiers });
            },
            None => {},
        }
        i = i + 1;
        proof {
            assert(out@ =~= old(out)@ + release_all(slots@.take(i as int)));
        }
    }
    proof {
        assert(slots@.take(i as int) =~= slots@);
    }
}

/// Translates input events into script key events. A press is passed on once, when the key goes
/// down outside text entry and is not yet held; a release only for a held key; losing the window
/// focus releases every held key.
pub fn translate_events(
    events: &[InputEvent],
    text_entry_active: bool,
    pressed: &mut PressedKeys,
) -> (r: Vec<KeyEvent>)
    ensures
        (final(pressed).held(), r@) == translate(events@, text_entry_active, old(pressed).held()),
        old(pressed).held().len() == 52,
        slots_consistent(old(pressed).held()),
        slots_consistent(final(pressed).held()),
{
    proof {
        use_type_invariant(&*pressed);
        lemma_key_presses_and_releases_balance(events@, text_entry_active, old(pressed).held(), 0);
    }
    let mut slots = empty_slots();
    std::mem::swap(&mut slots, &mut pressed.slots);
    let mut translated: Vec<KeyEvent> = Vec::new();
    let mut i: usize = 0;
    while i < events.len()
        invariant
            i <= events@.len(),
            slots@.len() == 52,
            (slots@, translated@) == translate(
                events@.take(i as int),
                text_entry_active,
                old(pressed).held(),
            ),
        decreases events@.len() - i,
    {
        proof {
            assert(events@.take(i as int + 1).drop_last() =~= events@.take(i as int));
        }
        let ghost before = translated@;
        let ghost slots_before = slots@;
        let event = events[i];
        match event {
            InputEvent::Key { key, pressed: is_pressed, repeat, modifiers } => {
                match script_key(key) {
                    None => {},
                    Some(code) => {
                        let rank = rank_of(key);
                        let held = slots[rank].is_some();
                        if is_pressed {
                            if !(text_entry_active || repeat || held) {
                                let value = script_modifiers(modifiers);
                                slots.set(rank, Some((code, value)));
                                translated.push(
                                    KeyEvent {
                                        event_type: KeyEventType::Pressed,
                                        key: code,
                                        modifiers: value,
                                    },
                                );
                            }
                        } else if held {
                            slots.set(rank, None);
                            translated.push(
                                KeyEvent {
                                    event_type: KeyEventType::Released,
                                    key: code,
                                    modifiers: script_modifiers(modifiers),
                                },
                            );
                        }
                    },
                }
            },
            InputEvent::WindowFocused(focused) => {
                if !focused {
                    release_slots(&slots, &mut translated);
                    slots = empty_slots();
                }
            },
            InputEvent::Other => {},
        }
        proof {
            let step = key_step(slots_before, event, text_entry_active);
            assert(slots@ =~= step.0);
            assert(translated@ =~= before + step.1);
        }
        i = i + 1;
    }
    proof {
        assert(events@.take(i as int) =~= events@);
    }
    pressed.slots = slots;
    translated
}

/// The number of events of one type.
pub open spec fn count_events(events: Seq<KeyEvent>, event_type: KeyEventType) -> nat
    decreases events.len(),
{
    if events.len() == 0 {
        0
    } else {
        count_events(events.drop_last(), event_type) + if events.last().event_type == event_type {
            1nat
        } else {
            0nat
        }
    }
}

proof fn lemma_count_events_concat(a: Seq<KeyEvent>, b: Seq<KeyEvent>, event_type: KeyEventType)
    ensures
        count_events(a + b, event_type) == count_events(a, event_type) + count_events(
            b,
            event_type,
        ),
    decreases b.len(),
{
    if b.len() > 0 {
        lemma_count_events_concat(a, b.drop_last(), event_type);
        assert((a + b).drop_last() =~= a + b.drop_last());
    } else {
        assert(a + b =~= a);
    }
}

proof fn lemma_held_count_update(slots: Seq<Option<(i64, i64)>>, i: int, value: Option<(i64, i64)>)
    requires
        0 <= i < slots.len(),
    ensures
        held_count(slots.update(i, value)) + (if slots[i] is Some {
            1int
        } else {
            0int
        }) == held_count(slots) + (if value is Some {
            1int
        } else {
            0int
        }),
    decreases slots.len(),
{
    if i < slots.len() - 1 {
        lemma_held_count_update(slots.drop_last(), i, value);
        assert(slots.update(i, value).drop_last() =~= slots.drop_last().update(i, value));
    } else {
        assert(slots.update(i, value).drop_last() =~= slots.drop_last());
    }
}

proof fn lemma_release_all_counts(slots: Seq<Option<(i64, i64)>>)
    ensures
        count_events(release_all(slots), KeyEventType::Released) == held_count(slots),
        count_events(release_all(slots), KeyEventType::Pressed) == 0,
        forall|k: int|
            0 <= k < release_all(slots).len() ==> #[trigger] release_all(slots)[k].event_type
                == KeyEventType::Released,
    decreases slots.len(),
{
    if slots.len() > 0 {
        lemma_release_all_counts(slots.drop_last());
        lemma_count_events_concat(
            release_all(slots.drop_last()),
            released(slots.last()),
            KeyEventType::Released,
        );
        lemma_count_events_concat(
            release_all(slots.drop_last()),
            released(slots.last()),
            KeyEventType::Pressed,
        );
        reveal_with_fuel(count_events, 2);
    }
}

proof fn lemma_no_keys_held_count(n: int)
    requires
        0 <= n <= 52,
    ensures
        held_count(no_keys_held().take(n)) == 0,
    decreases n,
{
    if n > 0 {
        lemma_no_keys_held_count(n - 1);
        assert(no_keys_held().take(n).drop_last() =~= no_keys_held().take(n - 1));
    }
}

proof fn lemma_step_balance(
    slots: Seq<Option<(i64, i64)>>,
    event: InputEvent,
    text_entry_active: bool,
)
    requires
        slots.len() == 52,
    ensures
        ({
            let step = key_step(slots, event, text_entry_active);
            &&& step.0.len() == 52
            &&& held_count(step.0) + count_events(step.1, KeyEventType::Released) == held_count(
                slots,
            ) + count_events(step.1, KeyEventType::Pressed)
            &&& text_entry_active ==> count_events(step.1, KeyEventType::Pressed) == 0
        }),
{
    reveal_with_fuel(count_events, 2);
    match event {
        InputEvent::Key { key, pressed, repeat, modifiers } => {
            if key_code(key) is Some {
                let r = key_rank(key);
                lemma_held_count_update(slots, r, Some((key_code(key)->0, modifiers_value(modifiers))));
                lemma_held_count_update(slots, r, None);
            }
        },
        InputEvent::WindowFocused(focused) => {
            if !focused {
                lemma_release_all_counts(slots);
                lemma_no_keys_held_count(52);
                assert(no_keys_held().take(52) =~= no_keys_held());
            }
        },
        InputEvent::Other => {},
    }
}

/// Script key events are balanced against the held keys: the keys held at the end and the
/// releases given together equal the keys held at the start and the presses given, so every
/// release answers a held key.
pub proof fn lemma_presses_and_releases_balance(
    events: Seq<InputEvent>,
    text_entry_active: bool,
    slots: Seq<Option<(i64, i64)>>,
)
    requires
        slots.len() == 52,
    ensures
        ({
            let result = translate(events, text_entry_active, slots);
            &&& result.0.len() == 52
            &&& held_count(result.0) + count_events(result.1, KeyEventType::Released)
                == held_count(slots) + count_events(result.1, KeyEventType::Pressed)
        }),
    decreases events.len(),
{
    if events.len() > 0 {
        lemma_presses_and_releases_balance(events.drop_last(), text_entry_active, slots);
        let before = translate(events.drop_last(), text_entry_active, slots);
        lemma_step_balance(before.0, events.last(), text_entry_active);
        let step = key_step(before.0, events.last(), text_entry_active);
        lemma_count_events_concat(before.1, step.1, KeyEventType::Released);
        lemma_count_events_concat(before.1, step.1, KeyEventType::Pressed);
    }
}

/// While text entry has the keyboard, no key press reaches scripts.
pub proof fn lemma_text_entry_presses_nothing(
    events: Seq<InputEvent>,
    slots: Seq<Option<(i64, i64)>>,
)
    requires
        slots.len() == 52,
    ensures
        count_events(translate(events, true, slots).1, KeyEventType::Pressed) == 0,
        translate(events, true, slots).0.len() == 52,
    decreases events.len(),
{
    if events.len() > 0 {
        lemma_text_entry_presses_nothing(events.drop_last(), slots);
        let before = translate(events.drop_last(), true, slots);
        lemma_step_balance(before.0, events.last(), true);
        let step = key_step(before.0, events.last(), true);
        lemma_count_events_concat(before.1, step.1, KeyEventType::Pressed);
    }
}

/// Losing the window focus releases every held key, in key order, and leaves none held.
pub proof fn lemma_focus_loss_releases_held_keys(
    events: Seq<InputEvent>,
    text_entry_active: bool,
    slots: Seq<Option<(i64, i64)>>,
)
    ensures
        ({
            let before = translate(events, text_entry_active, slots);
            let after = translate(
                events.push(InputEvent::WindowFocused(false)),
                text_entry_active,
                slots,
            );
            &&& after.0 == no_keys_held()
            &&& after.1 == before.1 + release_all(before.0)
        }),
{
    assert(events.push(InputEvent::WindowFocused(false)).drop_last() =~= events);
}

/// A repeated press, as the system sends while a key stays down, changes nothing and reaches no
/// script.
pub proof fn lemma_repeats_are_ignored(
    slots: Seq<Option<(i64, i64)>>,
    key: Key,
    modifiers: Modifiers,
    text_entry_active: bool,
)
    ensures
        key_step(
            slots,
            InputEvent::Key { key, pressed: true, repeat: true, modifiers },
            text_entry_active,
        ) == (slots, Seq::<KeyEvent>::empty()),
{
}

/// Translating events frame by frame gives what translating them all at once gives: the held
/// keys carry the state from one frame to the next.
pub proof fn lemma_translate_in_batches(
    first: Seq<InputEvent>,
    second: Seq<InputEvent>,
    text_entry_active: bool,
    slots: Seq<Option<(i64, i64)>>,
)
    ensures
        ({
            let a = translate(first, text_entry_active, slots);
            let b = translate(second, text_entry_active, a.0);
            translate(first + second, text_entry_active, slots) == (b.0, a.1 + b.1)
        }),
    decreases second.len(),
{
    let a = translate(first, text_entry_active, slots);
    if second.len() == 0 {
        assert(first + second =~= first);
        assert(a.1 + Seq::<KeyEvent>::empty() =~= a.1);
    } else {
        lemma_translate_in_batches(first, second.drop_last(), text_entry_active, slots);
        assert((first + second).drop_last() =~= first + second.drop_last());
        let b0 = translate(second.drop_last(), text_entry_active, a.0);
        let step = key_step(b0.0, second.last(), text_entry_active);
        assert(a.1 + b0.1 + step.1 =~= a.1 + (b0.1 + step.1));
    }
}


/// The key value that a slot holds, none while its key is up.
pub open spec fn slot_code(slot: Option<(i64, i64)>) -> Option<i64> {
    match slot {
        Some((code, _)) => Some(code),
        None => None,
    }
}

/// The slot of each key holds, while the key is held, that key's value.
pub open spec fn slots_consistent(slots: Seq<Option<(i64, i64)>>) -> bool {
    forall|key: Key|
        key_code(key) is Some && (#[trigger] slots[key_rank(key)]) is Some ==> slot_code(slots[key_rank(key)])
            == key_code(key)
}

/// The number of held slots whose key value is `code`.
pub open spec fn held_with_code(slots: Seq<Option<(i64, i64)>>, code: i64) -> nat
    decreases slots.len(),
{
    if slots.len() == 0 {
        0
    } else {
        held_with_code(slots.drop_last(), code) + if slots.last() matches Some((k, _)) && k == code {
            1nat
        } else {
            0nat
        }
    }
}

/// The number of events of one type for the key value `code`.
pub open spec fn count_key(events: Seq<KeyEvent>, event_type: KeyEventType, code: i64) -> nat
    decreases events.len(),
{
    if events.len() == 0 {
        0
    } else {
        count_key(events.drop_last(), event_type, code) + if events.last().event_type == event_type
            && events.last().key == code {
            1nat
        } else {
            0nat
        }
    }
}

proof fn lemma_count_key_concat(a: Seq<KeyEvent>, b: Seq<KeyEvent>, event_type: KeyEventType, code: i64)
    ensures
        count_key(a + b, event_type, code) == count_key(a, event_type, code) + count_key(b, event_type, code),
    decreases b.len(),
{
    if b.len() > 0 {
        lemma_count_key_concat(a, b.drop_last(), event_type, code);
        assert((a + b).drop_last() =~= a + b.drop_last());
    } else {
        assert(a + b =~= a);
    }
}

proof fn lemma_held_with_code_update(slots: Seq<Option<(i64, i64)>>, i: int, value: Option<(i64, i64)>, code: i64)
    requires
        0 <= i < slots.len(),
    ensures
        held_with_code(slots.update(i, value), code) + (if slots[i] matches Some((k, _)) && k == code {
            1int
        } else {
            0int
        }) == held_with_code(slots, code) + (if value matches Some((k, _)) && k == code {
            1int
        } else {
            0int
        }),
    decreases slots.len(),
{
    if i < slots.len() - 1 {
        lemma_held_with_code_update(slots.drop_last(), i, value, code);
        assert(slots.update(i, value).drop_last() =~= slots.drop_last().update(i, value));
    } else {
        assert(slots.update(i, value).drop_last() =~= slots.drop_last());
    }
}

proof fn lemma_release_all_key_counts(slots: Seq<Option<(i64, i64)>>, code: i64)
    ensures
        count_key(release_all(slots), KeyEventType::Released, code) == held_with_code(slots, code),
        count_key(release_all(slots), KeyEventType::Pressed, code) == 0,
    decreases slots.len(),
{
    if slots.len() > 0 {
        lemma_release_all_key_counts(slots.drop_last(), code);
        lemma_count_key_concat(release_all(slots.drop_last()), released(slots.last()), KeyEventType::Released, code);
        lemma_count_key_concat(release_all(slots.drop_last()), released(slots.last()), KeyEventType::Pressed, code);
        reveal_with_fuel(count_key, 2);
    }
}

proof fn lemma_no_keys_held_code(n: int, code: i64)
    requires
        0 <= n <= 52,
    ensures
        held_with_code(no_keys_held().take(n), code) == 0,
    decreases n,
{
    if n > 0 {
        lemma_no_keys_held_code(n - 1, code);
        assert(no_keys_held().take(n).drop_last() =~= no_keys_held().take(n - 1));
    }
}

proof fn lemma_step_key_balance(
    slots: Seq<Option<(i64, i64)>>,
    event: InputEvent,
    text_entry_active: bool,
    code: i64,
)
    requires
        slots.len() == 52,
        slots_consistent(slots),
    ensures
        ({
            let step = key_step(slots, event, text_entry_active);
            &&& step.0.len() == 52
            &&& slots_consistent(step.0)
            &&& held_with_code(step.0, code) + count_key(step.1, KeyEventType::Released, code)
                == held_with_code(slots, code) + count_key(step.1, KeyEventType::Pressed, code)
        }),
{
    reveal_with_fuel(count_key, 2);
    match event {
        InputEvent::Key { key, pressed, repeat, modifiers } => {
            if key_code(key) is Some {
                let r = key_rank(key);
                let c = key_code(key)->0;
                lemma_held_with_code_update(slots, r, Some((c, modifiers_value(modifiers))), code);
                lemma_held_with_code_update(slots, r, None, code);
                let step = key_step(slots, event, text_entry_active);
                assert forall|other: Key|
                    key_code(other) is Some && (#[trigger] step.0[key_rank(other)]) is Some implies slot_code(
                        step.0[key_rank(other)],
                    ) == key_code(other) by {
                    if key_rank(other) == r {
                        lemma_rank_identifies_key(key);
                        lemma_rank_identifies_key(other);
                    } else {
                        assert(step.0[key_rank(other)] == slots[key_rank(other)]);
                    }
                }
                if slots[r] is Some {
                    assert(slot_code(slots[key_rank(key)]) == Some(c));
                }
            }
        },
        InputEvent::WindowFocused(focused) => {
            if !focused {
                lemma_release_all_key_counts(slots, code);
                lemma_no_keys_held_code(52, code);
                assert(no_keys_held().take(52) =~= no_keys_held());
            }
        },
        InputEvent::Other => {},
    }
}

/// Key by key, script events are balanced against the held keys: for each key value, the
/// slots that hold it at the end and its releases together equal the slots that held it at
/// the start and its presses. Slots keep the value of their own key.
pub proof fn lemma_key_presses_and_releases_balance(
    events: Seq<InputEvent>,
    text_entry_active: bool,
    slots: Seq<Option<(i64, i64)>>,
    code: i64,
)
    requires
        slots.len() == 52,
        slots_consistent(slots),
    ensures
        ({
            let result = translate(events, text_entry_active, slots);
            &&& result.0.len() == 52
            &&& slots_consistent(result.0)
            &&& held_with_code(result.0, code) + count_key(result.1, KeyEventType::Released, code)
                == held_with_code(slots, code) + count_key(result.1, KeyEventType::Pressed, code)
        }),
    decreases events.len(),
{
    if events.len() > 0 {
        lemma_key_presses_and_releases_balance(events.drop_last(), text_entry_active, slots, code);
        let before = translate(events.drop_last(), text_entry_active, slots);
        lemma_step_key_balance(before.0, events.last(), text_entry_active, code);
        let step = key_step(before.0, events.last(), text_entry_active);
        lemma_count_key_concat(before.1, step.1, KeyEventType::Released, code);
        lemma_count_key_concat(before.1, step.1, KeyEventType::Pressed, code);
    }
}

/// Every release answers a press: after any run of input events, and after each of its
/// prefixes, a key value has no more releases than the times it was held at the start and
/// pressed since.
pub proof fn lemma_each_release_answers_a_press(
    events: Seq<InputEvent>,
    text_entry_active: bool,
    slots: Seq<Option<(i64, i64)>>,
)
    requires
        slots.len() == 52,
        slots_consistent(slots),
    ensures
        forall|n: int, code: i64|
            0 <= n <= events.len() ==> #[trigger] count_key(
                translate(events.take(n), text_entry_active, slots).1,
                KeyEventType::Released,
                code,
            ) <= held_with_code(slots, code) + count_key(
                translate(events.take(n), text_entry_active, slots).1,
                KeyEventType::Pressed,
                code,
            ),
{
    assert forall|n: int, code: i64| 0 <= n <= events.len() implies #[trigger] count_key(
        translate(events.take(n), text_entry_active, slots).1,
        KeyEventType::Released,
        code,
    ) <= held_with_code(slots, code) + count_key(
        translate(events.take(n), text_entry_active, slots).1,
        KeyEventType::Pressed,
        code,
    ) by {
        lemma_key_presses_and_releases_balance(events.take(n), text_entry_active, slots, code);
    }
}

/// What one input event must do, key by key: a press of a key that scripts see gives
/// `Pressed` and holds the key exactly when no text entry has the keyboard, the press is no
/// repeat and the key is not held yet; a release gives `Released` and lets go exactly when
/// the key is held; losing the window focus gives `Released` for every held key, in key
/// order, with the value and modifiers stored at its press, and lets go of all; every other
/// event, and every key that scripts do not see, gives nothing and changes nothing.
pub open spec fn follows_key_rules(
    slots: Seq<Option<(i64, i64)>>,
    event: InputEvent,
    text_entry_active: bool,
    after: Seq<Option<(i64, i64)>>,
    out: Seq<KeyEvent>,
) -> bool {
    match event {
        InputEvent::Key { key, pressed, repeat, modifiers } => match key_code(key) {
            Some(code) => {
                let held = slots[key_rank(key)] is Some;
                if pressed {
                    if !text_entry_active && !repeat && !held {
                        &&& after == slots.update(key_rank(key), Some((code, modifiers_value(modifiers))))
                        &&& out.len() == 1
                        &&& out[0] == (KeyEvent { event_type: KeyEventType::Pressed, key: code, modifiers: modifiers_value(modifiers) })
                    } else {
                        after == slots && out.len() == 0
                    }
                } else if held {
                    &&& after == slots.update(key_rank(key), None)
                    &&& out.len() == 1
                    &&& out[0] == (KeyEvent { event_type: KeyEventType::Released, key: code, modifiers: modifiers_value(modifiers) })
                } else {
                    after == slots && out.len() == 0
                }
            },
            None => after == slots && out.len() == 0,
        },
        InputEvent::WindowFocused(false) => {
            &&& forall|r: int| 0 <= r < after.len() ==> after[r] is None
            &&& after.len() == slots.len()
            &&& out == release_all(slots)
        },
        _ => after == slots && out.len() == 0,
    }
}

/// The law of key translation in one place: translating a run of events goes event by
/// event, each event following `follows_key_rules` from the keys held after the ones before
/// it, and after every prefix of the run each key value has no more releases than the times
/// it was held at the start and pressed since, so every release answers an earlier press or
/// a key held at the start.
pub proof fn lemma_translate_events_law(
    events: Seq<InputEvent>,
    text_entry_active: bool,
    slots: Seq<Option<(i64, i64)>>,
)
    requires
        slots.len() == 52,
        slots_consistent(slots),
    ensures
        forall|i: int| 0 <= i < events.len() ==> {
            let before = #[trigger] translate(events.take(i), text_entry_active, slots);
            let after = translate(events.take(i + 1), text_entry_active, slots);
            &&& after.1 == before.1 + after.1.subrange(before.1.len() as int, after.1.len() as int)
            &&& follows_key_rules(before.0, events[i], text_entry_active, after.0,
                after.1.subrange(before.1.len() as int, after.1.len() as int))
        },
        forall|n: int, code: i64|
            0 <= n <= events.len() ==> #[trigger] count_key(
                translate(events.take(n), text_entry_active, slots).1,
                KeyEventType::Released,
                code,
            ) <= held_with_code(slots, code) + count_key(
                translate(events.take(n), text_entry_active, slots).1,
                KeyEventType::Pressed,
                code,
            ),
{
    lemma_each_release_answers_a_press(events, text_entry_active, slots);
    assert forall|i: int| 0 <= i < events.len() implies {
        let before = #[trigger] translate(events.take(i), text_entry_active, slots);
        let after = translate(events.take(i + 1), text_entry_active, slots);
        &&& after.1 == before.1 + after.1.subrange(before.1.len() as int, after.1.len() as int)
        &&& follows_key_rules(before.0, events[i], text_entry_active, after.0,
            after.1.subrange(before.1.len() as int, after.1.len() as int))
    } by {
        let before = translate(events.take(i), text_entry_active, slots);
        assert(events.take(i + 1).drop_last() =~= events.take(i));
        assert(events.take(i + 1).last() == events[i]);
        lemma_key_presses_and_releases_balance(events.take(i), text_entry_active, slots, 0);
        let step = key_step(before.0, events[i], text_entry_active);
        let after = translate(events.take(i + 1), text_entry_active, slots);
        assert(after == (step.0, before.1 + step.1));
        assert(after.1.subrange(before.1.len() as int, after.1.len() as int) =~= step.1);
        if let InputEvent::WindowFocused(false) = events[i] {
            assert(step.0 == no_keys_held());
        }
    }
}

} // verus!

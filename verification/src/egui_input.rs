//! Mapping of the engine's per-frame input into egui input events.
use vstd::prelude::*;

verus! {

/// Physical keys the engine reports that the UI and the free-fly camera read.
#[derive(Clone, Copy, Debug, PartialEq, Eq, Structural)]
pub enum KeyCode {
    ArrowDown,
    ArrowLeft,
    ArrowRight,
    ArrowUp,
    Escape,
    Tab,
    Backspace,
    Enter,
    Space,
    Delete,
    Insert,
    Home,
    End,
    PageUp,
    PageDown,
    Minus,
    Equal,
    F1,
    F2,
    F3,
    F4,
    F5,
    F6,
    F7,
    F8,
    F9,
    F10,
    F11,
    F12,
    Digit0,
    Digit1,
    Digit2,
    Digit3,
    Digit4,
    Digit5,
    Digit6,
    Digit7,
    Digit8,
    Digit9,
    KeyA,
    KeyB,
    KeyC,
    KeyD,
    KeyE,
    KeyF,
    KeyG,
    KeyH,
    KeyI,
    KeyJ,
    KeyK,
    KeyL,
    KeyM,
    KeyN,
    KeyO,
    KeyP,
    KeyQ,
    KeyR,
    KeyS,
    KeyT,
    KeyU,
    KeyV,
    KeyW,
    KeyX,
    KeyY,
    KeyZ,
    ControlLeft,
    ControlRight,
    AltLeft,
    AltRight,
    ShiftLeft,
    ShiftRight,
    /// any key the UI does not read
    Other,
}

/// Keys egui understands.
#[derive(Clone, Copy, Debug, PartialEq, Eq, Structural)]
pub enum EguiKey {
    ArrowDown,
    ArrowLeft,
    ArrowRight,
    ArrowUp,
    Escape,
    Tab,
    Backspace,
    Enter,
    Space,
    Delete,
    Insert,
    Home,
    End,
    PageUp,
    PageDown,
    Minus,
    Equals,
    F1,
    F2,
    F3,
    F4,
    F5,
    F6,
    F7,
    F8,
    F9,
    F10,
    F11,
    F12,
    Num0,
    Num1,
    Num2,
    Num3,
    Num4,
    Num5,
    Num6,
    Num7,
    Num8,
    Num9,
    A,
    B,
    C,
    D,
    E,
    F,
    G,
    H,
    I,
    J,
    K,
    L,
    M,
    N,
    O,
    P,
    Q,
    R,
    S,
    T,
    U,
    V,
    W,
    X,
    Y,
    Z,
}

/// The egui key of a physical key, if egui has one.
pub open spec fn egui_key(code: KeyCode) -> Option<EguiKey> {
    match code {
        KeyCode::ArrowDown => Some(EguiKey::ArrowDown),
        KeyCode::ArrowLeft => Some(EguiKey::ArrowLeft),
        KeyCode::ArrowRight => Some(EguiKey::ArrowRight),
        KeyCode::ArrowUp => Some(EguiKey::ArrowUp),
        KeyCode::Escape => Some(EguiKey::Escape),
        KeyCode::Tab => Some(EguiKey::Tab),
        KeyCode::Backspace => Some(EguiKey::Backspace),
        KeyCode::Enter => Some(EguiKey::Enter),
        KeyCode::Space => Some(EguiKey::Space),
        KeyCode::Delete => Some(EguiKey::Delete),
        KeyCode::Insert => Some(EguiKey::Insert),
        KeyCode::Home => Some(EguiKey::Home),
        KeyCode::End => Some(EguiKey::End),
        KeyCode::PageUp => Some(EguiKey::PageUp),
        KeyCode::PageDown => Some(EguiKey::PageDown),
        KeyCode::Minus => Some(EguiKey::Minus),
        KeyCode::Equal => Some(EguiKey::Equals),
        KeyCode::F1 => Some(EguiKey::F1),
        KeyCode::F2 => Some(EguiKey::F2),
        KeyCode::F3 => Some(EguiKey::F3),
        KeyCode::F4 => Some(EguiKey::F4),
        KeyCode::F5 => Some(EguiKey::F5),
        KeyCode::F6 => Some(EguiKey::F6),
        KeyCode::F7 => Some(EguiKey::F7),
        KeyCode::F8 => Some(EguiKey::F8),
        KeyCode::F9 => Some(EguiKey::F9),
        KeyCode::F10 => Some(EguiKey::F10),
        KeyCode::F11 => Some(EguiKey::F11),
        KeyCode::F12 => Some(EguiKey::F12),
        KeyCode::Digit0 => Some(EguiKey::Num0),
        KeyCode::Digit1 => Some(EguiKey::Num1),
        KeyCode::Digit2 => Some(EguiKey::Num2),
        KeyCode::Digit3 => Some(EguiKey::Num3),
        KeyCode::Digit4 => Some(EguiKey::Num4),
        KeyCode::Digit5 => Some(EguiKey::Num5),
        KeyCode::Digit6 => Some(EguiKey::Num6),
        KeyCode::Digit7 => Some(EguiKey::Num7),
        KeyCode::Digit8 => Some(EguiKey::Num8),
        KeyCode::Digit9 => Some(EguiKey::Num9),
        KeyCode::KeyA => Some(EguiKey::A),
        KeyCode::KeyB => Some(EguiKey::B),
        KeyCode::KeyC => Some(EguiKey::C),
        KeyCode::KeyD => Some(EguiKey::D),
        KeyCode::KeyE => Some(EguiKey::E),
        KeyCode::KeyF => Some(EguiKey::F),
        KeyCode::KeyG => Some(EguiKey::G),
        KeyCode::KeyH => Some(EguiKey::H),
        KeyCode::KeyI => Some(EguiKey::I),
        KeyCode::KeyJ => Some(EguiKey::J),
        KeyCode::KeyK => Some(EguiKey::K),
        KeyCode::KeyL => Some(EguiKey::L),
        KeyCode::KeyM => Some(EguiKey::M),
        KeyCode::KeyN => Some(EguiKey::N),
        KeyCode::KeyO => Some(EguiKey::O),
        KeyCode::KeyP => Some(EguiKey::P),
        KeyCode::KeyQ => Some(EguiKey::Q),
        KeyCode::KeyR => Some(EguiKey::R),
        KeyCode::KeyS => Some(EguiKey::S),
        KeyCode::KeyT => Some(EguiKey::T),
        KeyCode::KeyU => Some(EguiKey::U),
        KeyCode::KeyV => Some(EguiKey::V),
        KeyCode::KeyW => Some(EguiKey::W),
        KeyCode::KeyX => Some(EguiKey::X),
        KeyCode::KeyY => Some(EguiKey::Y),
        KeyCode::KeyZ => Some(EguiKey::Z),
        _ => None,
    }
}

/// Maps a physical key to the egui key it stands for.
pub fn winit_key_to_egui(code: KeyCode) -> (r: Option<EguiKey>)
    ensures
        r == egui_key(code),
{
    Some(match code {
        KeyCode::ArrowDown => EguiKey::ArrowDown,
        KeyCode::ArrowLeft => EguiKey::ArrowLeft,
        KeyCode::ArrowRight => EguiKey::ArrowRight,
        KeyCode::ArrowUp => EguiKey::ArrowUp,
        KeyCode::Escape => EguiKey::Escape,
        KeyCode::Tab => EguiKey::Tab,
        KeyCode::Backspace => EguiKey::Backspace,
        KeyCode::Enter => EguiKey::Enter,
        KeyCode::Space => EguiKey::Space,
        KeyCode::Delete => EguiKey::Delete,
        KeyCode::Insert => EguiKey::Insert,
        KeyCode::Home => EguiKey::Home,
        KeyCode::End => EguiKey::End,
        KeyCode::PageUp => EguiKey::PageUp,
        KeyCode::PageDown => EguiKey::PageDown,
        KeyCode::Minus => EguiKey::Minus,
        KeyCode::Equal => EguiKey::Equals,
        KeyCode::F1 => EguiKey::F1,
        KeyCode::F2 => EguiKey::F2,
        KeyCode::F3 => EguiKey::F3,
        KeyCode::F4 => EguiKey::F4,
        KeyCode::F5 => EguiKey::F5,
        KeyCode::F6 => EguiKey::F6,
        KeyCode::F7 => EguiKey::F7,
        KeyCode::F8 => EguiKey::F8,
        KeyCode::F9 => EguiKey::F9,
        KeyCode::F10 => EguiKey::F10,
        KeyCode::F11 => EguiKey::F11,
        KeyCode::F12 => EguiKey::F12,
        KeyCode::Digit0 => EguiKey::Num0,
        KeyCode::Digit1 => EguiKey::Num1,
        KeyCode::Digit2 => EguiKey::Num2,
        KeyCode::Digit3 => EguiKey::Num3,
        KeyCode::Digit4 => EguiKey::Num4,
        KeyCode::Digit5 => EguiKey::Num5,
        KeyCode::Digit6 => EguiKey::Num6,
        KeyCode::Digit7 => EguiKey::Num7,
        KeyCode::Digit8 => EguiKey::Num8,
        KeyCode::Digit9 => EguiKey::Num9,
        KeyCode::KeyA => EguiKey::A,
        KeyCode::KeyB => EguiKey::B,
        KeyCode::KeyC => EguiKey::C,
        KeyCode::KeyD => EguiKey::D,
        KeyCode::KeyE => EguiKey::E,
        KeyCode::KeyF => EguiKey::F,
        KeyCode::KeyG => EguiKey::G,
        KeyCode::KeyH => EguiKey::H,
        KeyCode::KeyI => EguiKey::I,
        KeyCode::KeyJ => EguiKey::J,
        KeyCode::KeyK => EguiKey::K,
        KeyCode::KeyL => EguiKey::L,
        KeyCode::KeyM => EguiKey::M,
        KeyCode::KeyN => EguiKey::N,
        KeyCode::KeyO => EguiKey::O,
        KeyCode::KeyP => EguiKey::P,
        KeyCode::KeyQ => EguiKey::Q,
        KeyCode::KeyR => EguiKey::R,
        KeyCode::KeyS => EguiKey::S,
        KeyCode::KeyT => EguiKey::T,
        KeyCode::KeyU => EguiKey::U,
        KeyCode::KeyV => EguiKey::V,
        KeyCode::KeyW => EguiKey::W,
        KeyCode::KeyX => EguiKey::X,
        KeyCode::KeyY => EguiKey::Y,
        KeyCode::KeyZ => EguiKey::Z,
        _ => {
            return None;
        },
    })
}

/// Mouse buttons the engine reports.
#[derive(Clone, Copy, Debug, PartialEq, Eq, Structural)]
pub enum MouseButton {
    Left,
    Right,
    Middle,
    Back,
    Forward,
    /// any other button
    Other,
}

/// Pointer buttons egui understands.
#[derive(Clone, Copy, Debug, PartialEq, Eq, Structural)]
pub enum PointerButton {
    Primary,
    Secondary,
    Middle,
    Extra1,
    Extra2,
}

/// The egui pointer button of a mouse button, if egui has one.
pub open spec fn egui_button(button: MouseButton) -> Option<PointerButton> {
    match button {
        MouseButton::Left => Some(PointerButton::Primary),
        MouseButton::Right => Some(PointerButton::Secondary),
        MouseButton::Middle => Some(PointerButton::Middle),
        MouseButton::Back => Some(PointerButton::Extra1),
        MouseButton::Forward => Some(PointerButton::Extra2),
        MouseButton::Other => None,
    }
}

/// Maps a mouse button to the egui pointer button it stands for.
pub fn winit_mouse_button_to_egui(button: MouseButton) -> (r: Option<PointerButton>)
    ensures
        r == egui_button(button),
{
    match button {
        MouseButton::Left => Some(PointerButton::Primary),
        MouseButton::Right => Some(PointerButton::Secondary),
        MouseButton::Middle => Some(PointerButton::Middle),
        MouseButton::Back => Some(PointerButton::Extra1),
        MouseButton::Forward => Some(PointerButton::Extra2),
        MouseButton::Other => None,
    }
}

/// Phases of a touch or scroll gesture as the engine reports them.
#[derive(Clone, Copy, Debug, PartialEq, Eq, Structural)]
pub enum TouchPhase {
    Started,
    Moved,
    Ended,
    Cancelled,
}

/// Phases of a touch or scroll gesture as egui reads them.
#[derive(Clone, Copy, Debug, PartialEq, Eq, Structural)]
pub enum EguiTouchPhase {
    Start,
    Move,
    End,
    Cancel,
}

/// The egui phase of a gesture phase.
pub open spec fn egui_phase(phase: TouchPhase) -> EguiTouchPhase {
    match phase {
        TouchPhase::Started => EguiTouchPhase::Start,
        TouchPhase::Moved => EguiTouchPhase::Move,
        TouchPhase::Ended => EguiTouchPhase::End,
        TouchPhase::Cancelled => EguiTouchPhase::Cancel,
    }
}

/// Maps a gesture phase to egui's.
pub fn winit_touch_phase_to_egui(phase: TouchPhase) -> (r: EguiTouchPhase)
    ensures
        r == egui_phase(phase),
{
    match phase {
        TouchPhase::Started => EguiTouchPhase::Start,
        TouchPhase::Moved => EguiTouchPhase::Move,
        TouchPhase::Ended => EguiTouchPhase::End,
        TouchPhase::Cancelled => EguiTouchPhase::Cancel,
    }
}

/// Modifier state as egui reads it.
#[derive(Clone, Copy, Debug, PartialEq, Eq, Structural)]
pub struct Modifiers {
    pub alt: bool,
    pub ctrl: bool,
    pub shift: bool,
    pub mac_cmd: bool,
    pub command: bool,
}

/// The modifiers held when the keys `held` are down: either control key is
/// ctrl and command, either alt key is alt, either shift key is shift.
pub open spec fn modifiers_of(held: Seq<KeyCode>) -> Modifiers {
    let ctrl = held.contains(KeyCode::ControlLeft) || held.contains(KeyCode::ControlRight);
    Modifiers {
        alt: held.contains(KeyCode::AltLeft) || held.contains(KeyCode::AltRight),
        ctrl,
        shift: held.contains(KeyCode::ShiftLeft) || held.contains(KeyCode::ShiftRight),
        mac_cmd: false,
        command: ctrl,
    }
}

/// Whether `key` is among `keys`.
pub fn key_held(keys: &Vec<KeyCode>, key: KeyCode) -> (r: bool)
    ensures
        r == keys@.contains(key),
{
    let mut i: usize = 0;
    while i < keys.len()
        invariant
            i <= keys.len(),
            forall|q: int| 0 <= q < i ==> keys[q] != key,
        decreases keys.len() - i,
    {
        if keys[i] == key {
            assert(keys@[i as int] == key);
            return true;
        }
        i = i + 1;
    }
    false
}

/// The egui modifiers for the keys held this frame.
pub fn egui_modifiers(held: &Vec<KeyCode>) -> (m: Modifiers)
    ensures
        m == modifiers_of(held@),
{
    let ctrl = key_held(held, KeyCode::ControlLeft) || key_held(held, KeyCode::ControlRight);
    Modifiers {
        alt: key_held(held, KeyCode::AltLeft) || key_held(held, KeyCode::AltRight),
        ctrl,
        shift: key_held(held, KeyCode::ShiftLeft) || key_held(held, KeyCode::ShiftRight),
        mac_cmd: false,
        command: ctrl,
    }
}

/// What a scroll delta is measured in.
#[derive(Clone, Copy, Debug, PartialEq, Eq, Structural)]
pub enum WheelUnit {
    Line,
    Point,
}

/// An input event for egui. `P` is a pointer position and `D` a scroll delta,
/// both carried through unchanged.
#[derive(Clone, Debug, PartialEq, Eq)]
pub enum EguiEvent<P, D> {
    Key { key: EguiKey, pressed: bool, modifiers: Modifiers },
    Text(String),
    PointerGone,
    PointerMoved(P),
    PointerButton { pos: P, button: PointerButton, pressed: bool, modifiers: Modifiers },
    MouseWheel { unit: WheelUnit, delta: D, phase: EguiTouchPhase, modifiers: Modifiers },
}

/// What the engine's input resource holds for one frame, as egui reads it.
/// A scroll delta is `None` when it is zero.
pub struct InputFrame<P, D> {
    pub key_just_pressed: Vec<KeyCode>,
    pub key_just_released: Vec<KeyCode>,
    pub keys_held: Vec<KeyCode>,
    pub text_input: String,
    pub cursor_position: P,
    pub cursor_exit: bool,
    pub mouse_button_just_pressed: Vec<MouseButton>,
    pub mouse_button_just_released: Vec<MouseButton>,
    pub scroll_phase: Option<TouchPhase>,
    pub scroll_delta_lines: Option<D>,
    pub scroll_delta_pixels: Option<D>,
}

/// Key events for the keys among `codes` that egui knows, in order.
pub open spec fn key_events<P, D>(codes: Seq<KeyCode>, pressed: bool, m: Modifiers) -> Seq<EguiEvent<P, D>>
    decreases codes.len(),
{
    if codes.len() == 0 {
        Seq::empty()
    } else {
        let rest = key_events::<P, D>(codes.drop_last(), pressed, m);
        match egui_key(codes.last()) {
            Some(key) => rest.push(EguiEvent::Key { key, pressed, modifiers: m }),
            None => rest,
        }
    }
}

/// Pointer button events at `pos` for the buttons among `buttons` that egui knows, in order.
pub open spec fn button_events<P, D>(buttons: Seq<MouseButton>, pos: P, pressed: bool, m: Modifiers) -> Seq<
    EguiEvent<P, D>,
>
    decreases buttons.len(),
{
    if buttons.len() == 0 {
        Seq::empty()
    } else {
        let rest = button_events::<P, D>(buttons.drop_last(), pos, pressed, m);
        match egui_button(buttons.last()) {
            Some(button) => rest.push(EguiEvent::PointerButton { pos, button, pressed, modifiers: m }),
            None => rest,
        }
    }
}

/// Wheel events for a scroll gesture in phase `phase`: line scrolling first, then pixel scrolling.
pub open spec fn scroll_events<P, D>(phase: Option<TouchPhase>, lines: Option<D>, pixels: Option<D>, m: Modifiers) -> Seq<
    EguiEvent<P, D>,
> {
    match phase {
        None => Seq::empty(),
        Some(ph) => {
            let p = egui_phase(ph);
            (match lines {
                Some(d) => seq![EguiEvent::MouseWheel { unit: WheelUnit::Line, delta: d, phase: p, modifiers: m }],
                None => Seq::empty(),
            }) + (match pixels {
                Some(d) => seq![EguiEvent::MouseWheel { unit: WheelUnit::Point, delta: d, phase: p, modifiers: m }],
                None => Seq::empty(),
            })
        },
    }
}

/// The events egui receives for a frame: key presses, key releases, typed
/// text, then, when pointer events are fed, the pointer position (or its
/// leaving the window), button presses, button releases and scrolling.
pub open spec fn frame_events<P, D>(input: InputFrame<P, D>, feed_pointer_events: bool) -> Seq<EguiEvent<P, D>> {
    let m = modifiers_of(input.keys_held@);
    key_events(input.key_just_pressed@, true, m) + key_events(input.key_just_released@, false, m) + (if input.text_input@.len()
        > 0 {
        seq![EguiEvent::Text(input.text_input)]
    } else {
        Seq::empty()
    }) + (if feed_pointer_events {
        let pos = input.cursor_position;
        (if input.cursor_exit {
            seq![EguiEvent::PointerGone]
        } else {
            seq![EguiEvent::PointerMoved(pos)]
        }) + button_events(input.mouse_button_just_pressed@, pos, true, m) + button_events(
            input.mouse_button_just_released@,
            pos,
            false,
            m,
        ) + scroll_events(input.scroll_phase, input.scroll_delta_lines, input.scroll_delta_pixels, m)
    } else {
        Seq::empty()
    })
}

/// Whether an event that reports modifiers reports `m`; events without
/// modifiers report nothing.
pub open spec fn reports_modifiers<P, D>(e: EguiEvent<P, D>, m: Modifiers) -> bool {
    match e {
        EguiEvent::Key { modifiers, .. } => modifiers == m,
        EguiEvent::PointerButton { modifiers, .. } => modifiers == m,
        EguiEvent::MouseWheel { modifiers, .. } => modifiers == m,
        _ => true,
    }
}

proof fn lemma_concat_reports<P, D>(a: Seq<EguiEvent<P, D>>, b: Seq<EguiEvent<P, D>>, m: Modifiers)
    requires
        forall|k: int| 0 <= k < a.len() ==> reports_modifiers(#[trigger] a[k], m),
        forall|k: int| 0 <= k < b.len() ==> reports_modifiers(#[trigger] b[k], m),
    ensures
        forall|k: int| 0 <= k < (a + b).len() ==> reports_modifiers(#[trigger] (a + b)[k], m),
{
    assert forall|k: int| 0 <= k < (a + b).len() implies reports_modifiers(#[trigger] (a + b)[k], m) by {
        if k < a.len() {
            assert((a + b)[k] == a[k]);
        } else {
            assert((a + b)[k] == b[k - a.len()]);
        }
    }
}

proof fn lemma_key_events_report<P, D>(codes: Seq<KeyCode>, pressed: bool, m: Modifiers)
    ensures
        forall|k: int|
            0 <= k < key_events::<P, D>(codes, pressed, m).len() ==> reports_modifiers(
                #[trigger] key_events::<P, D>(codes, pressed, m)[k],
                m,
            ),
    decreases codes.len(),
{
    if codes.len() > 0 {
        lemma_key_events_report::<P, D>(codes.drop_last(), pressed, m);
        let rest = key_events::<P, D>(codes.drop_last(), pressed, m);
        let all = key_events::<P, D>(codes, pressed, m);
        assert forall|k: int| 0 <= k < all.len() implies reports_modifiers(#[trigger] all[k], m) by {
            if k < rest.len() {
                assert(all[k] == rest[k]);
            }
        }
    }
}

proof fn lemma_button_events_report<P, D>(buttons: Seq<MouseButton>, pos: P, pressed: bool, m: Modifiers)
    ensures
        forall|k: int|
            0 <= k < button_events::<P, D>(buttons, pos, pressed, m).len() ==> reports_modifiers(
                #[trigger] button_events::<P, D>(buttons, pos, pressed, m)[k],
                m,
            ),
    decreases buttons.len(),
{
    if buttons.len() > 0 {
        lemma_button_events_report::<P, D>(buttons.drop_last(), pos, pressed, m);
        let rest = button_events::<P, D>(buttons.drop_last(), pos, pressed, m);
        let all = button_events::<P, D>(buttons, pos, pressed, m);
        assert forall|k: int| 0 <= k < all.len() implies reports_modifiers(#[trigger] all[k], m) by {
            if k < rest.len() {
                assert(all[k] == rest[k]);
            }
        }
    }
}

/// Every key, pointer-button and wheel event of a frame reports the
/// modifiers held that frame: either control key is ctrl and command, either
/// alt key is alt, either shift key is shift, and there is no mac command.
pub proof fn lemma_frame_events_report_held_modifiers<P, D>(input: InputFrame<P, D>, feed_pointer_events: bool)
    ensures
        forall|k: int|
            0 <= k < frame_events(input, feed_pointer_events).len() ==> reports_modifiers(
                #[trigger] frame_events(input, feed_pointer_events)[k],
                modifiers_of(input.keys_held@),
            ),
        modifiers_of(input.keys_held@).ctrl == (input.keys_held@.contains(KeyCode::ControlLeft)
            || input.keys_held@.contains(KeyCode::ControlRight)),
        modifiers_of(input.keys_held@).command == modifiers_of(input.keys_held@).ctrl,
        modifiers_of(input.keys_held@).alt == (input.keys_held@.contains(KeyCode::AltLeft)
            || input.keys_held@.contains(KeyCode::AltRight)),
        modifiers_of(input.keys_held@).shift == (input.keys_held@.contains(KeyCode::ShiftLeft)
            || input.keys_held@.contains(KeyCode::ShiftRight)),
        !modifiers_of(input.keys_held@).mac_cmd,
{
    let m = modifiers_of(input.keys_held@);
    let pos = input.cursor_position;
    let k1 = key_events::<P, D>(input.key_just_pressed@, true, m);
    let k2 = key_events::<P, D>(input.key_just_released@, false, m);
    let text: Seq<EguiEvent<P, D>> = if input.text_input@.len() > 0 {
        seq![EguiEvent::Text(input.text_input)]
    } else {
        Seq::empty()
    };
    lemma_key_events_report::<P, D>(input.key_just_pressed@, true, m);
    lemma_key_events_report::<P, D>(input.key_just_released@, false, m);
    lemma_concat_reports(k1, k2, m);
    lemma_concat_reports(k1 + k2, text, m);
    let head = k1 + k2 + text;
    if feed_pointer_events {
        let moved: Seq<EguiEvent<P, D>> = if input.cursor_exit {
            seq![EguiEvent::PointerGone]
        } else {
            seq![EguiEvent::PointerMoved(pos)]
        };
        let b1 = button_events::<P, D>(input.mouse_button_just_pressed@, pos, true, m);
        let b2 = button_events::<P, D>(input.mouse_button_just_released@, pos, false, m);
        let sc = scroll_events::<P, D>(input.scroll_phase, input.scroll_delta_lines, input.scroll_delta_pixels, m);
        lemma_button_events_report::<P, D>(input.mouse_button_just_pressed@, pos, true, m);
        lemma_button_events_report::<P, D>(input.mouse_button_just_released@, pos, false, m);
        lemma_concat_reports(moved, b1, m);
        lemma_concat_reports(moved + b1, b2, m);
        assert forall|k: int| 0 <= k < sc.len() implies reports_modifiers(#[trigger] sc[k], m) by {}
        lemma_concat_reports(moved + b1 + b2, sc, m);
        let tail = moved + b1 + b2 + sc;
        lemma_concat_reports(head, tail, m);
        assert(frame_events(input, feed_pointer_events) =~= head + tail);
    } else {
        lemma_concat_reports(head, Seq::<EguiEvent<P, D>>::empty(), m);
        assert(frame_events(input, feed_pointer_events) =~= head + Seq::<EguiEvent<P, D>>::empty());
    }
}

fn push_key_events<P, D>(events: &mut Vec<EguiEvent<P, D>>, codes: &Vec<KeyCode>, pressed: bool, m: Modifiers)
    ensures
        final(events)@ == old(events)@ + key_events::<P, D>(codes@, pressed, m),
{
    let ghost start = events@;
    let mut i: usize = 0;
    while i < codes.len()
        invariant
            i <= codes.len(),
            events@ == start + key_events::<P, D>(codes@.take(i as int), pressed, m),
        decreases codes.len() - i,
    {
        proof {
            assert(codes@.take(i + 1).drop_last() =~= codes@.take(i as int));
        }
        if let Some(key) = winit_key_to_egui(codes[i]) {
            events.push(EguiEvent::Key { key, pressed, modifiers: m });
        }
        proof {
            assert(events@ =~= start + key_events::<P, D>(codes@.take(i + 1), pressed, m));
        }
        i = i + 1;
    }
    assert(codes@.take(codes.len() as int) =~= codes@);
}

fn push_button_events<P: Copy, D>(
    events: &mut Vec<EguiEvent<P, D>>,
    buttons: &Vec<MouseButton>,
    pos: P,
    pressed: bool,
    m: Modifiers,
)
    ensures
        final(events)@ == old(events)@ + button_events::<P, D>(buttons@, pos, pressed, m),
{
    let ghost start = events@;
    let mut i: usize = 0;
    while i < buttons.len()
        invariant
            i <= buttons.len(),
            events@ == start + button_events::<P, D>(buttons@.take(i as int), pos, pressed, m),
        decreases buttons.len() - i,
    {
        proof {
            assert(buttons@.take(i + 1).drop_last() =~= buttons@.take(i as int));
        }
        if let Some(button) = winit_mouse_button_to_egui(buttons[i]) {
            events.push(EguiEvent::PointerButton { pos, button, pressed, modifiers: m });
        }
        proof {
            assert(events@ =~= start + button_events::<P, D>(buttons@.take(i + 1), pos, pressed, m));
        }
        i = i + 1;
    }
    assert(buttons@.take(buttons.len() as int) =~= buttons@);
}

/// Builds egui's input events for this frame from the engine's input state,
/// with the modifiers held; pointer events are left out unless
/// `feed_pointer_events` is set.
pub fn input_to_egui_events<P: Copy, D: Copy>(input: &InputFrame<P, D>, feed_pointer_events: bool) -> (r: (
    Vec<EguiEvent<P, D>>,
    Modifiers,
))
    ensures
        r.0@ == frame_events(*input, feed_pointer_events),
        r.1 == modifiers_of(input.keys_held@),
        forall|k: int| 0 <= k < r.0.len() ==> reports_modifiers(#[trigger] r.0@[k], r.1),
        r.1.ctrl == (input.keys_held@.contains(KeyCode::ControlLeft) || input.keys_held@.contains(
            KeyCode::ControlRight,
        )),
        r.1.command == r.1.ctrl,
        r.1.alt == (input.keys_held@.contains(KeyCode::AltLeft) || input.keys_held@.contains(KeyCode::AltRight)),
        r.1.shift == (input.keys_held@.contains(KeyCode::ShiftLeft) || input.keys_held@.contains(
            KeyCode::ShiftRight,
        )),
        !r.1.mac_cmd,
{
    proof {
        lemma_frame_events_report_held_modifiers(*input, feed_pointer_events);
    }
    let modifiers = egui_modifiers(&input.keys_held);
    let mut events: Vec<EguiEvent<P, D>> = Vec::new();
    push_key_events(&mut events, &input.key_just_pressed, true, modifiers);
    push_key_events(&mut events, &input.key_just_released, false, modifiers);
    if !input.text_input.as_str().is_empty() {
        events.push(EguiEvent::Text(input.text_input.clone()));
    }
    let ghost before_pointer = events@;
    if feed_pointer_events {
        let pos = input.cursor_position;
        if input.cursor_exit {
            events.push(EguiEvent::PointerGone);
        } else {
            events.push(EguiEvent::PointerMoved(pos));
        }
        push_button_events(&mut events, &input.mouse_button_just_pressed, pos, true, modifiers);
        push_button_events(&mut events, &input.mouse_button_just_released, pos, false, modifiers);
        if let Some(phase) = input.scroll_phase {
            let egui_phase = winit_touch_phase_to_egui(phase);
            if let Some(delta) = input.scroll_delta_lines {
                events.push(EguiEvent::MouseWheel { unit: WheelUnit::Line, delta, phase: egui_phase, modifiers });
            }
            if let Some(delta) = input.scroll_delta_pixels {
                events.push(EguiEvent::MouseWheel { unit: WheelUnit::Point, delta, phase: egui_phase, modifiers });
            }
        }
    }
    assert(events@ =~= frame_events(*input, feed_pointer_events));
    (events, modifiers)
}

/// The plugin that builds and renders egui user interfaces.
pub struct EguiPlugin;

impl EguiPlugin {
    /// The input the plugin hands egui at the start of each frame: the
    /// frame's events with pointer events fed, and the modifiers held.
    pub fn frame_input<P: Copy, D: Copy>(input: &InputFrame<P, D>) -> (r: (Vec<EguiEvent<P, D>>, Modifiers))
        ensures
            r.0@ == frame_events(*input, true),
            r.1 == modifiers_of(input.keys_held@),
            forall|k: int| 0 <= k < r.0.len() ==> reports_modifiers(#[trigger] r.0@[k], r.1),
    {
        input_to_egui_events(input, true)
    }
}

} // verus!

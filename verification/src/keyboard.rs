use vstd::prelude::*;

use crate::command::{after_key, next_mode, Command};
use crate::input::{close_requested, has_close, Key, KeyState, WindowInput};

verus! {

/// The command after one key event of the keyboard window: as on the
/// gamepad channel, except that Escape does nothing.
pub open spec fn after_keyboard_key(cmd: Command, state: KeyState, key: Key) -> Command {
    if key == Key::Escape {
        cmd
    } else {
        after_key(cmd, state, key)
    }
}

/// The command after a batch of keyboard-window events, applied in order;
/// events other than key events change nothing.
pub open spec fn after_keyboard_events(cmd: Command, events: Seq<WindowInput>) -> Command
    decreases events.len(),
{
    if events.len() == 0 {
        cmd
    } else {
        let before = after_keyboard_events(cmd, events.drop_last());
        match events.last() {
            WindowInput::Keyboard { state, key: Some(key) } => after_keyboard_key(before, state, key),
            _ => before,
        }
    }
}

/// The keyboard window maps keys as the gamepad channel does, except that
/// Escape does nothing: a stick key pressed gives full deflection in its
/// direction (Up, Right, W, D positive; Down, Left, S, A negative) and,
/// released, centres its axis; Space steps the flight mode.
pub proof fn lemma_keyboard_keys(cmd: Command, state: KeyState, key: Key)
    ensures
        key != Key::Escape ==> after_keyboard_key(cmd, state, key) == after_key(cmd, state, key),
        after_keyboard_key(cmd, state, Key::Escape) == cmd,
        ({
            let c = after_keyboard_key(cmd, state, key);
            let v: int = if state == KeyState::Pressed { 127 } else { 0 };
            &&& c.throttle == (if key == Key::Up { v } else if key == Key::Down { -v } else { cmd.throttle as int })
            &&& c.yaw == (if key == Key::Right { v } else if key == Key::Left { -v } else { cmd.yaw as int })
            &&& c.pitch == (if key == Key::W { v } else if key == Key::S { -v } else { cmd.pitch as int })
            &&& c.roll == (if key == Key::D { v } else if key == Key::A { -v } else { cmd.roll as int })
            &&& c.mode == (if key == Key::Space { next_mode(cmd.mode, state == KeyState::Pressed) } else { cmd.mode })
        }),
{
}

/// A batch is applied event by event: the empty batch changes nothing, and
/// one more event at the end acts on the command the batch left; events
/// that are not key events act as nothing.
pub proof fn lemma_keyboard_batches(cmd: Command, events: Seq<WindowInput>, event: WindowInput)
    ensures
        after_keyboard_events(cmd, Seq::<WindowInput>::empty()) == cmd,
        after_keyboard_events(cmd, events.push(event)) == (match event {
            WindowInput::Keyboard { state, key: Some(key) } => after_keyboard_key(
                after_keyboard_events(cmd, events),
                state,
                key,
            ),
            _ => after_keyboard_events(cmd, events),
        }),
        after_keyboard_events(cmd, seq![event]) == (match event {
            WindowInput::Keyboard { state, key: Some(key) } => after_keyboard_key(cmd, state, key),
            _ => cmd,
        }),
{
    assert(events.push(event).drop_last() =~= events);
    assert(seq![event].drop_last() =~= Seq::<WindowInput>::empty());
}

/// Every key event of the batch names its key.
pub open spec fn keys_known(events: Seq<WindowInput>) -> bool {
    forall|i: int|
        0 <= i < events.len() ==> match #[trigger] events[i] {
            WindowInput::Keyboard { state, key } => key is Some,
            _ => true,
        }
}

/// The keyboard window's controls: they turn key events into changes of a
/// command and remember whether the window has been closed.
pub struct Keyboard {
    closed: bool,
}

impl Keyboard {
    /// Whether some event so far has closed the window.
    pub closed spec fn is_closed(&self) -> bool {
        self.closed
    }

    /// Whether some event so far has closed the window.
    pub fn closed(&self) -> (closed: bool)
        ensures
            closed == self.is_closed(),
    {
        self.closed
    }

    /// Controls of a window that is open.
    pub fn new() -> (k: Keyboard)
        ensures
            !k.is_closed(),
    {
        Keyboard { closed: false }
    }

    /// Applies a batch of polled window events to the command, in order,
    /// and notes whether one of them closed the window.
    pub fn get_pressed_keys(&mut self, cmd: &mut Command, events: &Vec<WindowInput>)
        requires
            keys_known(events@),
        ensures
            *final(cmd) == after_keyboard_events(*old(cmd), events@),
            final(self).is_closed() == (old(self).is_closed() || has_close(events@)),
    {
        let ghost start = *cmd;
        let mut i: usize = 0;
        assert(events@.take(0) =~= Seq::<WindowInput>::empty());
        while i < events.len()
            invariant
                i <= events.len(),
                keys_known(events@),
                *cmd == after_keyboard_events(start, events@.take(i as int)),
                self.closed == old(self).closed,
            decreases events.len() - i,
        {
            let event = events[i];
            assert(events@.take(i + 1).drop_last() =~= events@.take(i as int));
            assert(events@.take(i + 1).last() == event);
            match event {
                WindowInput::Keyboard { state, key: Some(key) } => {
                    if key != Key::Escape {
                        cmd.apply_key(state, key);
                    }
                },
                _ => {},
            }
            i = i + 1;
        }
        assert(events@.take(i as int) =~= events@);
        if close_requested(events) {
            self.closed = true;
        }
    }
}

} // verus!

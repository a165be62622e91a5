use vstd::prelude::*;

verus! {

/// The keys that the controls react to; any other key is carried by the
/// number that the windowing layer gives it.
#[derive(Clone, Copy, Debug, PartialEq, Eq, Structural)]
pub enum Key {
    Up,
    Down,
    Left,
    Right,
    W,
    S,
    D,
    A,
    Space,
    Escape,
    Key0,
    Other(u32),
}

/// Whether a key went down or came up.
#[derive(Clone, Copy, Debug, PartialEq, Eq, Structural)]
pub enum KeyState {
    Pressed,
    Released,
}

/// One event of the window, as the controls see it: a key going down or up
/// (the key may be unknown to the windowing layer), the window being
/// closed, or anything else.
#[derive(Clone, Copy, Debug, PartialEq, Eq, Structural)]
pub enum WindowInput {
    Keyboard { state: KeyState, key: Option<Key> },
    Closed,
    Other,
}

/// Some event of the batch closes the window.
pub open spec fn has_close(events: Seq<WindowInput>) -> bool {
    exists|i: int| 0 <= i < events.len() && #[trigger] events[i] == WindowInput::Closed
}

/// A batch closes the window when any of its events does, wherever it
/// stands: the empty batch does not; a single event does exactly when it is
/// `Closed`; and joining two batches closes exactly when one of them does
/// (so events after a `Closed` never undo it).
pub proof fn lemma_close_batches(a: Seq<WindowInput>, b: Seq<WindowInput>, event: WindowInput)
    ensures
        !has_close(Seq::<WindowInput>::empty()),
        has_close(seq![event]) == (event == WindowInput::Closed),
        has_close(a + b) == (has_close(a) || has_close(b)),
        has_close(a) ==> has_close(a.push(event)),
        has_close(a.push(WindowInput::Closed)),
{
    let ab = a + b;
    if has_close(ab) {
        let i = choose|i: int| 0 <= i < ab.len() && #[trigger] ab[i] == WindowInput::Closed;
        if i < a.len() {
            assert(a[i] == ab[i]);
        } else {
            assert(b[i - a.len()] == ab[i]);
        }
    }
    if has_close(a) {
        let i = choose|i: int| 0 <= i < a.len() && #[trigger] a[i] == WindowInput::Closed;
        assert(ab[i] == a[i]);
        assert(a.push(event)[i] == a[i]);
    }
    if has_close(b) {
        let i = choose|i: int| 0 <= i < b.len() && #[trigger] b[i] == WindowInput::Closed;
        assert(ab[i + a.len()] == b[i]);
    }
    assert(seq![event][0] == event);
    assert(a.push(WindowInput::Closed)[a.len() as int] == WindowInput::Closed);
}

/// Whether a batch of window events closes the window.
pub fn close_requested(events: &Vec<WindowInput>) -> (closed: bool)
    ensures
        closed == has_close(events@),
{
    let mut i: usize = 0;
    while i < events.len()
        invariant
            i <= events.len(),
            forall|j: int| 0 <= j < i ==> events@[j] != WindowInput::Closed,
        decreases events.len() - i,
    {
        if events[i] == WindowInput::Closed {
            return true;
        }
        i = i + 1;
    }
    false
}

} // verus!

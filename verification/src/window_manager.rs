use vstd::prelude::*;

use crate::input::{close_requested, has_close, Key, KeyState, WindowInput};

verus! {

/// The state and key of the last key event of a batch; a batch without key
/// events counts as `Key0` coming up.
pub open spec fn last_key_event(events: Seq<WindowInput>) -> (KeyState, Option<Key>)
    decreases events.len(),
{
    if events.len() == 0 {
        (KeyState::Released, Some(Key::Key0))
    } else {
        match events.last() {
            WindowInput::Keyboard { state, key } => (state, key),
            _ => last_key_event(events.drop_last()),
        }
    }
}

/// The last key event of a batch: a batch without key events counts as
/// `Key0` coming up; one more key event at the end is the last one; one more
/// event of another kind changes nothing.
pub proof fn lemma_last_key_event(events: Seq<WindowInput>, event: WindowInput)
    ensures
        last_key_event(Seq::<WindowInput>::empty()) == (KeyState::Released, Some(Key::Key0)),
        event matches WindowInput::Keyboard { state, key } ==> last_key_event(events.push(event)) == (
        state, key),
        !(event is Keyboard) ==> last_key_event(events.push(event)) == last_key_event(events),
{
    assert(events.push(event).drop_last() =~= events);
}

/// The held keys after `key` goes down or up: a key going down joins the
/// end of the list unless it is already there; a key coming up leaves it.
pub open spec fn pressed_after(keys: Seq<Key>, state: KeyState, key: Key) -> Seq<Key> {
    if state == KeyState::Pressed {
        if keys.contains(key) {
            keys
        } else {
            keys.push(key)
        }
    } else if keys.contains(key) {
        keys.remove(keys.index_of(key))
    } else {
        keys
    }
}

/// The held keys after a key event: still no key listed twice; the key is
/// held after it goes down and not held after it comes up; every other key
/// is held exactly as before.
pub proof fn lemma_pressed_after(keys: Seq<Key>, state: KeyState, key: Key)
    requires
        keys.no_duplicates(),
    ensures
        pressed_after(keys, state, key).no_duplicates(),
        state == KeyState::Pressed ==> pressed_after(keys, state, key).contains(key),
        state == KeyState::Released ==> !pressed_after(keys, state, key).contains(key),
        state == KeyState::Released && keys.contains(key) ==> exists|p: int|
            0 <= p < keys.len() && keys[p] == key && (forall|j: int| 0 <= j < p ==> keys[j] != key)
                && #[trigger] keys.remove(p) == pressed_after(keys, state, key),
        state == KeyState::Released && !keys.contains(key) ==> pressed_after(keys, state, key)
            == keys,
        forall|other: Key|
            other != key ==> (#[trigger] pressed_after(keys, state, key).contains(other)
                == keys.contains(other)),
{
    let r = pressed_after(keys, state, key);
    if state == KeyState::Pressed {
        if !keys.contains(key) {
            assert(r[keys.len() as int] == key);
            assert forall|other: Key| other != key implies #[trigger] r.contains(other)
                == keys.contains(other) by {
                if r.contains(other) {
                    let j = choose|j: int| 0 <= j < r.len() && r[j] == other;
                    assert(keys[j] == other);
                }
                if keys.contains(other) {
                    let j = choose|j: int| 0 <= j < keys.len() && keys[j] == other;
                    assert(r[j] == other);
                }
            }
        }
    } else if keys.contains(key) {
        let p = keys.index_of(key);
        assert forall|j: int| 0 <= j < p implies keys[j] != key by {}
        assert(keys.remove(p) == r);
        assert forall|a: int, b: int| 0 <= a < r.len() && 0 <= b < r.len() && a != b implies r[a]
            != r[b] by {
            let a0 = if a < p { a } else { a + 1 };
            let b0 = if b < p { b } else { b + 1 };
            assert(r[a] == keys[a0]);
            assert(r[b] == keys[b0]);
        }
        assert forall|j: int| 0 <= j < r.len() implies r[j] != key by {
            let j0 = if j < p { j } else { j + 1 };
            assert(r[j] == keys[j0]);
        }
        assert forall|other: Key| other != key implies #[trigger] r.contains(other)
            == keys.contains(other) by {
            if r.contains(other) {
                let j = choose|j: int| 0 <= j < r.len() && r[j] == other;
                let j0 = if j < p { j } else { j + 1 };
                assert(r[j] == keys[j0]);
            }
            if keys.contains(other) {
                let j = choose|j: int| 0 <= j < keys.len() && keys[j] == other;
                if j < p {
                    assert(r[j] == other);
                } else {
                    assert(j != p);
                    assert(r[j - 1] == other);
                }
            }
        }
    }
}

/// A key that was not held, pressed and released again, leaves the list of
/// held keys exactly as it was.
pub proof fn lemma_press_release_restores(keys: Seq<Key>, key: Key)
    requires
        keys.no_duplicates(),
        !keys.contains(key),
    ensures
        pressed_after(pressed_after(keys, KeyState::Pressed, key), KeyState::Released, key) == keys,
{
    let held = keys.push(key);
    assert(held[keys.len() as int] == key);
    assert(held.contains(key));
    assert forall|j: int| 0 <= j < held.len() && held[j] == key implies j == keys.len() by {
        if j < keys.len() {
            assert(held[j] == keys[j]);
        }
    }
    assert(held.index_of(key) == keys.len());
    assert(held.remove(keys.len() as int) =~= keys);
}

/// The state and key of the last key event of a batch (`Key0` coming up if
/// the batch has no key event).
pub fn last_key(events: &Vec<WindowInput>) -> (last: (KeyState, Option<Key>))
    ensures
        last == last_key_event(events@),
{
    let mut state = KeyState::Released;
    let mut key: Option<Key> = Some(Key::Key0);
    let mut i: usize = 0;
    assert(events@.take(0) =~= Seq::<WindowInput>::empty());
    while i < events.len()
        invariant
            i <= events.len(),
            (state, key) == last_key_event(events@.take(i as int)),
        decreases events.len() - i,
    {
        let event = events[i];
        assert(events@.take(i + 1).drop_last() =~= events@.take(i as int));
        assert(events@.take(i + 1).last() == event);
        match event {
            WindowInput::Keyboard { state: s, key: k } => {
                state = s;
                key = k;
            },
            _ => {},
        }
        i = i + 1;
    }
    assert(events@.take(i as int) =~= events@);
    (state, key)
}

/// Keeps the list of keys held down in the video window, in the order in
/// which they went down, and whether the window has been closed.
pub struct WindowManager {
    pressed_keys: Vec<Key>,
    closed: bool,
}

/// Where `key` first stands in `keys`, if it does.
fn position(keys: &Vec<Key>, key: Key) -> (r: Option<usize>)
    ensures
        r matches Some(p) ==> p < keys.len() && keys@[p as int] == key && forall|j: int|
            0 <= j < p ==> keys@[j] != key,
        r is None ==> !keys@.contains(key),
{
    let mut i: usize = 0;
    while i < keys.len()
        invariant
            i <= keys.len(),
            forall|j: int| 0 <= j < i ==> keys@[j] != key,
        decreases keys.len() - i,
    {
        if keys[i] == key {
            return Some(i);
        }
        i = i + 1;
    }
    None
}

impl WindowManager {
    /// The keys held down, in the order in which they went down.
    pub closed spec fn pressed(&self) -> Seq<Key> {
        self.pressed_keys@
    }

    /// Whether some event so far has closed the window.
    pub closed spec fn is_closed(&self) -> bool {
        self.closed
    }

    /// No key is listed twice.
    pub open spec fn wf(&self) -> bool {
        self.pressed().no_duplicates()
    }

    /// Whether some event so far has closed the window.
    pub fn closed(&self) -> (closed: bool)
        ensures
            closed == self.is_closed(),
    {
        self.closed
    }

    /// An open window with no key held.
    pub fn new() -> (wm: WindowManager)
        ensures
            wm.wf(),
            wm.pressed().no_duplicates(),
            wm.pressed() == Seq::<Key>::empty(),
            !wm.is_closed(),
    {
        WindowManager { pressed_keys: Vec::new(), closed: false }
    }

    /// Takes a batch of polled window events. The last key event decides:
    /// if it names no key, nothing changes and nothing is sent; otherwise
    /// the held keys are updated by it and the new list is returned, to be
    /// sent to the gamepad channel.
    pub fn update_pressed_keys(&mut self, events: &Vec<WindowInput>) -> (sent: Option<Vec<Key>>)
        requires
            old(self).wf(),
        ensures
            final(self).wf(),
            final(self).pressed().no_duplicates(),
            final(self).is_closed() == (old(self).is_closed() || has_close(events@)),
            last_key_event(events@).1 is None ==> final(self).pressed() == old(self).pressed()
                && sent is None,
            last_key_event(events@).1 matches Some(key) ==> final(self).pressed() == pressed_after(
                old(self).pressed(),
                last_key_event(events@).0,
                key,
            ),
            last_key_event(events@).1 is Some ==> (sent matches Some(v) && v@ == final(self).pressed()),
            last_key_event(events@).1 matches Some(key) ==> (last_key_event(events@).0
                == KeyState::Released && old(self).pressed().contains(key) ==> exists|p: int|
                0 <= p < old(self).pressed().len() && old(self).pressed()[p] == key && (forall|j: int|
                    0 <= j < p ==> old(self).pressed()[j] != key) && #[trigger] old(
                    self,
                ).pressed().remove(p) == final(self).pressed()),
    {
        if close_requested(events) {
            self.closed = true;
        }
        let (state, key) = last_key(events);
        let key = match key {
            Some(k) => k,
            None => {
                return None;
            },
        };
        let ghost before = self.pressed_keys@;
        proof {
            lemma_pressed_after(before, state, key);
        }
        let found = position(&self.pressed_keys, key);
        if state == KeyState::Pressed {
            if found.is_none() {
                self.pressed_keys.push(key);
                assert forall|a: int, b: int|
                    0 <= a < self.pressed_keys@.len() && 0 <= b < self.pressed_keys@.len() && a != b
                    implies self.pressed_keys@[a] != self.pressed_keys@[b] by {
                    if a == before.len() as int {
                        assert(self.pressed_keys@[b] == before[b]);
                    } else if b == before.len() as int {
                        assert(self.pressed_keys@[a] == before[a]);
                    }
                }
            } else {
                assert(before.contains(key));
            }
        } else {
            match found {
                Some(p) => {
                    assert(before.contains(key));
                    assert(before.index_of(key) == p as int);
                    self.pressed_keys.remove(p);
                    assert forall|a: int, b: int|
                        0 <= a < self.pressed_keys@.len() && 0 <= b < self.pressed_keys@.len() && a
                            != b implies self.pressed_keys@[a] != self.pressed_keys@[b] by {
                        let a0 = if a < p { a } else { a + 1 };
                        let b0 = if b < p { b } else { b + 1 };
                        assert(self.pressed_keys@[a] == before[a0]);
                        assert(self.pressed_keys@[b] == before[b0]);
                    }
                },
                None => {},
            }
        }
        Some(self.pressed_keys.clone())
    }
}

} // verus!

use vstd::prelude::*;
use crate::fixed::{add_saturating, saturated};

verus! {

/// A key that the scene reacts to. Any other key is `Other`.
#[derive(Clone, Copy, Debug, PartialEq, Eq, Structural)]
pub enum Key {
    W,
    S,
    A,
    D,
    Q,
    E,
    F,
    C,
    R,
    T,
    Other,
}

/// What the input collector hands to the render loop: the keys that are down,
/// each once, and how far the mouse has moved since it was last asked.
#[derive(Debug)]
pub struct InputFrame {
    keys: Vec<Key>,
    mouse_dx: i64,
    mouse_dy: i64,
}

/// An input frame as a mathematical value.
pub ghost struct InputView {
    pub keys: Seq<Key>,
    pub mouse_delta: (i64, i64),
}

impl View for InputFrame {
    type V = InputView;

    closed spec fn view(&self) -> InputView {
        InputView { keys: self.keys@, mouse_delta: (self.mouse_dx, self.mouse_dy) }
    }
}

/// The keys other than `key`, as a predicate on keys.
pub open spec fn other_than(key: Key) -> spec_fn(Key) -> bool {
    |other: Key| other != key
}

impl InputFrame {
    /// No key down, the mouse at rest.
    pub fn new() -> (frame: InputFrame)
        ensures
            frame@.keys == Seq::<Key>::empty(),
            frame@.mouse_delta == (0i64, 0i64),
    {
        InputFrame { keys: Vec::new(), mouse_dx: 0, mouse_dy: 0 }
    }

    /// Whether `key` is down.
    pub fn is_pressed(&self, key: Key) -> (down: bool)
        ensures
            down == self@.keys.contains(key),
    {
        let mut i: usize = 0;
        while i < self.keys.len()
            invariant
                i <= self.keys.len(),
                forall|j: int| 0 <= j < i ==> self.keys@[j] != key,
            decreases self.keys.len() - i,
        {
            if self.keys[i] == key {
                return true;
            }
            i += 1;
        }
        false
    }

    /// Records that `key` went down. A key that is down already is not recorded
    /// again, so a list without repetitions stays one.
    pub fn press(&mut self, key: Key)
        ensures
            final(self)@.mouse_delta == old(self)@.mouse_delta,
            old(self)@.keys.contains(key) ==> final(self)@.keys == old(self)@.keys,
            !old(self)@.keys.contains(key) ==> final(self)@.keys == old(self)@.keys.push(key),
            old(self)@.keys.no_duplicates() ==> final(self)@.keys.no_duplicates(),
    {
        if !self.is_pressed(key) {
            self.keys.push(key);
        }
    }

    /// Records that `key` went up: it leaves the list, and the other keys stay in
    /// their order. A key that is not down changes nothing.
    pub fn release(&mut self, key: Key)
        ensures
            final(self)@.mouse_delta == old(self)@.mouse_delta,
            final(self)@.keys == old(self)@.keys.filter(other_than(key)),
            !final(self)@.keys.contains(key),
            old(self)@.keys.no_duplicates() ==> final(self)@.keys.no_duplicates(),
    {
        let mut kept: Vec<Key> = Vec::new();
        let mut i: usize = 0;
        assert(self.keys@.subrange(0, 0).filter(other_than(key)) =~= Seq::<Key>::empty()) by {
            reveal(Seq::filter);
        }
        while i < self.keys.len()
            invariant
                i <= self.keys.len(),
                self.keys@ == old(self).keys@,
                self.mouse_dx == old(self).mouse_dx,
                self.mouse_dy == old(self).mouse_dy,
                kept@ == self.keys@.subrange(0, i as int).filter(other_than(key)),
                !kept@.contains(key),
                forall|a: int|
                    0 <= a < kept@.len() ==> self.keys@.subrange(0, i as int).contains(
                        #[trigger] kept@[a],
                    ),
                self.keys@.no_duplicates() ==> kept@.no_duplicates(),
            decreases self.keys.len() - i,
        {
            let ghost seen = self.keys@.subrange(0, i as int);
            let ghost before = kept@;
            let next = self.keys[i];
            assert(self.keys@.subrange(0, i + 1) =~= seen.push(next));
            proof {
                seen.lemma_filter_push(next, other_than(key));
            }
            if next != key {
                kept.push(next);
                assert forall|a: int| 0 <= a < kept@.len() implies seen.push(next).contains(
                    #[trigger] kept@[a],
                ) by {
                    if a < before.len() {
                        assert(seen.contains(before[a]));
                        let j = choose|j: int| 0 <= j < seen.len() && seen[j] == before[a];
                        assert(seen.push(next)[j] == kept@[a]);
                    } else {
                        assert(seen.push(next)[seen.len() as int] == next);
                    }
                }
                assert(!kept@.contains(key)) by {
                    if kept@.contains(key) {
                        let a = choose|a: int| 0 <= a < kept@.len() && kept@[a] == key;
                        assert(before.contains(key) || next == key);
                    }
                }
                assert(self.keys@.no_duplicates() ==> !before.contains(next)) by {
                    if self.keys@.no_duplicates() && before.contains(next) {
                        let a = choose|a: int| 0 <= a < before.len() && before[a] == next;
                        assert(seen.contains(before[a]));
                        let j = choose|j: int| 0 <= j < seen.len() && seen[j] == next;
                        assert(self.keys@[j] == self.keys@[i as int]);
                    }
                }
            } else {
                assert forall|a: int| 0 <= a < kept@.len() implies seen.push(next).contains(
                    #[trigger] kept@[a],
                ) by {
                    assert(seen.contains(kept@[a]));
                    let j = choose|j: int| 0 <= j < seen.len() && seen[j] == kept@[a];
                    assert(seen.push(next)[j] == kept@[a]);
                }
            }
            i += 1;
        }
        assert(self.keys@.subrange(0, self.keys@.len() as int) =~= self.keys@);
        self.keys = kept;
    }

    /// Adds a movement of the mouse to what has gathered since it was last asked.
    pub fn accumulate_mouse(&mut self, dx: i64, dy: i64)
        ensures
            final(self)@.keys == old(self)@.keys,
            final(self)@.mouse_delta.0 == saturated(old(self)@.mouse_delta.0 + dx),
            final(self)@.mouse_delta.1 == saturated(old(self)@.mouse_delta.1 + dy),
    {
        self.mouse_dx = add_saturating(self.mouse_dx, dx);
        self.mouse_dy = add_saturating(self.mouse_dy, dy);
    }

    /// Hands out the movement of the mouse that has gathered and sets it back to
    /// nothing, so that no movement is handed out twice.
    pub fn drain_mouse(&mut self) -> (delta: (i64, i64))
        ensures
            delta == old(self)@.mouse_delta,
            final(self)@.mouse_delta == (0i64, 0i64),
            final(self)@.keys == old(self)@.keys,
    {
        let delta = (self.mouse_dx, self.mouse_dy);
        self.mouse_dx = 0;
        self.mouse_dy = 0;
        delta
    }

    /// The keys that are down, in the order in which they went down: a copy that
    /// later changes of the frame do not touch.
    pub fn pressed_keys(&self) -> (keys: Vec<Key>)
        ensures
            keys@ == self@.keys,
    {
        let mut keys: Vec<Key> = Vec::new();
        let mut i: usize = 0;
        while i < self.keys.len()
            invariant
                i <= self.keys.len(),
                keys@ == self.keys@.subrange(0, i as int),
            decreases self.keys.len() - i,
        {
            keys.push(self.keys[i]);
            i += 1;
        }
        assert(self.keys@.subrange(0, self.keys@.len() as int) =~= self.keys@);
        keys
    }
}

} // verus!

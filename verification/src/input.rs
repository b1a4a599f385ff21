//! Keyboard tracking: which keys are held down, and the camera moves that
//! the held keys ask for on each frame.

use vstd::prelude::*;

verus! {

/// A key as far as the camera cares: the four arrows, and every other key by
/// its code.
#[derive(Debug, Clone, Copy, PartialEq, Eq, Structural)]
pub enum Key {
    Up,
    Down,
    Left,
    Right,
    Other(u32),
}

/// Whether a keyboard event reports a key going down or coming up.
#[derive(Debug, Clone, Copy, PartialEq, Eq, Structural)]
pub enum KeyState {
    Pressed,
    Released,
}

/// One step of camera movement.
#[derive(Debug, Clone, Copy, PartialEq, Eq, Structural)]
pub enum CameraMove {
    Forwards,
    Backwards,
    Clockwise,
    Counterclockwise,
}

/// The move that holding `key` asks for, if it asks for one. An event may
/// carry no key at all; that asks for nothing.
pub open spec fn camera_move(key: Option<Key>) -> Option<CameraMove> {
    match key {
        Some(Key::Up) => Some(CameraMove::Forwards),
        Some(Key::Down) => Some(CameraMove::Backwards),
        Some(Key::Right) => Some(CameraMove::Clockwise),
        Some(Key::Left) => Some(CameraMove::Counterclockwise),
        _ => None,
    }
}

/// The moves that the held keys `keys` ask for, in the order the keys went
/// down.
pub open spec fn moves_of(keys: Seq<Option<Key>>) -> Seq<CameraMove> {
    keys.filter_map(|key: Option<Key>| camera_move(key))
}

/// `keys` once `key` has gone down: unchanged if it was already held,
/// otherwise with `key` at the end.
pub open spec fn after_press(keys: Seq<Option<Key>>, key: Option<Key>) -> Seq<Option<Key>> {
    if keys.contains(key) {
        keys
    } else {
        keys.push(key)
    }
}

/// The test that every key but `key` passes.
pub open spec fn other_than(key: Option<Key>) -> spec_fn(Option<Key>) -> bool {
    |held: Option<Key>| held != key
}

/// `keys` once `key` has come up: every occurrence of it removed, the rest
/// in their order.
pub open spec fn after_release(keys: Seq<Option<Key>>, key: Option<Key>) -> Seq<Option<Key>> {
    keys.filter(other_than(key))
}

/// Computes `camera_move`.
pub fn camera_move_for(key: Option<Key>) -> (step: Option<CameraMove>)
    ensures
        step == camera_move(key),
{
    match key {
        Some(Key::Up) => Some(CameraMove::Forwards),
        Some(Key::Down) => Some(CameraMove::Backwards),
        Some(Key::Right) => Some(CameraMove::Clockwise),
        Some(Key::Left) => Some(CameraMove::Counterclockwise),
        _ => None,
    }
}

/// Whether two event keys are the same key.
fn same_key(a: Option<Key>, b: Option<Key>) -> (same: bool)
    ensures
        same == (a == b),
{
    match (a, b) {
        (None, None) => true,
        (Some(x), Some(y)) => x == y,
        _ => false,
    }
}

/// The keys currently held down, in the order they went down.
pub struct PressedKeys {
    keys: Vec<Option<Key>>,
}

impl View for PressedKeys {
    type V = Seq<Option<Key>>;

    closed spec fn view(&self) -> Seq<Option<Key>> {
        self.keys@
    }
}

impl PressedKeys {
    /// No key is listed twice.
    pub open spec fn wf(&self) -> bool {
        self@.no_duplicates()
    }

    /// No keys held.
    pub fn new() -> (pressed: PressedKeys)
        ensures
            pressed@ == Seq::<Option<Key>>::empty(),
            pressed.wf(),
    {
        PressedKeys { keys: Vec::new() }
    }

    /// How many keys are held.
    pub fn len(&self) -> (n: usize)
        ensures
            n == self@.len(),
    {
        self.keys.len()
    }

    /// The held keys, in the order they went down.
    pub fn keys(&self) -> (keys: &[Option<Key>])
        ensures
            keys@ == self@,
    {
        self.keys.as_slice()
    }

    /// Whether `key` is held.
    pub fn contains(&self, key: Option<Key>) -> (held: bool)
        ensures
            held == self@.contains(key),
    {
        let mut i: usize = 0;
        while i < self.keys.len()
            invariant
                i <= self.keys@.len(),
                forall|j: int| 0 <= j < i ==> self.keys@[j] != key,
            decreases self.keys@.len() - i,
        {
            if same_key(self.keys[i], key) {
                return true;
            }
            i = i + 1;
        }
        false
    }

    /// Notes that `key` went down. A key that is already held is not listed
    /// again; key repeat therefore changes nothing.
    pub fn press(&mut self, key: Option<Key>)
        ensures
            final(self)@ == after_press(old(self)@, key),
            final(self)@.contains(key),
            old(self).wf() ==> final(self).wf(),
    {
        if !self.contains(key) {
            self.keys.push(key);
            assert(self.keys@.last() == key);
        }
    }

    /// Notes that `key` came up: it is no longer held, and the other keys
    /// keep their order.
    pub fn release(&mut self, key: Option<Key>)
        ensures
            final(self)@ == after_release(old(self)@, key),
            !final(self)@.contains(key),
            old(self).wf() ==> final(self).wf(),
    {
        let ghost keep = other_than(key);
        let mut kept: Vec<Option<Key>> = Vec::new();
        let mut i: usize = 0;
        while i < self.keys.len()
            invariant
                i <= self.keys@.len(),
                keep == other_than(key),
                kept@ == self.keys@.take(i as int).filter(keep),
            decreases self.keys@.len() - i,
        {
            let held = self.keys[i];
            proof {
                self.keys@.lemma_take_succ_push(i as int);
                self.keys@.take(i as int).lemma_filter_push(held, keep);
            }
            if !same_key(held, key) {
                kept.push(held);
            }
            i = i + 1;
        }
        proof {
            assert(self.keys@.take(i as int) == self.keys@);
            lemma_filter_keeps_only(self.keys@, keep, key);
            if self.wf() {
                lemma_filter_no_duplicates(self.keys@, keep);
            }
        }
        self.keys = kept;
    }

    /// Applies one keyboard event.
    pub fn record(&mut self, state: KeyState, key: Option<Key>)
        ensures
            state == KeyState::Pressed ==> final(self)@ == after_press(old(self)@, key),
            state == KeyState::Released ==> final(self)@ == after_release(old(self)@, key),
            final(self)@.contains(key) <==> state == KeyState::Pressed,
            old(self).wf() ==> final(self).wf(),
    {
        match state {
            KeyState::Pressed => self.press(key),
            KeyState::Released => self.release(key),
        }
    }

    /// The camera moves to make this frame: one for each held arrow key, in
    /// the order the keys went down.
    pub fn moves(&self) -> (steps: Vec<CameraMove>)
        ensures
            steps@ == moves_of(self@),
    {
        let ghost ask = |key: Option<Key>| camera_move(key);
        let mut steps: Vec<CameraMove> = Vec::new();
        let mut i: usize = 0;
        while i < self.keys.len()
            invariant
                i <= self.keys@.len(),
                ask == |key: Option<Key>| camera_move(key),
                steps@ == self.keys@.take(i as int).filter_map(ask),
            decreases self.keys@.len() - i,
        {
            proof {
                self.keys@.lemma_filter_map_take_succ(ask, i as int);
            }
            match camera_move_for(self.keys[i]) {
                Some(step) => {
                    steps.push(step);
                },
                None => {},
            }
            i = i + 1;
        }
        assert(self.keys@.take(i as int) == self.keys@);
        steps
    }
}

/// A key that goes down and comes up again leaves the held keys as they
/// were before, provided it was not already held.
pub proof fn lemma_press_then_release(keys: Seq<Option<Key>>, key: Option<Key>)
    requires
        !keys.contains(key),
    ensures
        after_release(after_press(keys, key), key) == keys,
{
    lemma_release_absent(keys, key);
    keys.lemma_filter_push(key, other_than(key));
}

/// Releasing a key that is not held changes nothing.
pub proof fn lemma_release_absent(keys: Seq<Option<Key>>, key: Option<Key>)
    requires
        !keys.contains(key),
    ensures
        after_release(keys, key) == keys,
    decreases keys.len(),
{
    reveal(Seq::filter);
    if keys.len() > 0 {
        let rest = keys.drop_last();
        assert(keys.last() == keys[keys.len() - 1]);
        assert forall|j: int| 0 <= j < rest.len() implies rest[j] != key by {
            assert(rest[j] == keys[j]);
        }
        lemma_release_absent(rest, key);
        assert(rest.push(keys.last()) =~= keys);
    }
}

/// Pressing a key that is already held, as key repeat does, changes
/// nothing; so does pressing it a second time.
pub proof fn lemma_press_idempotent(keys: Seq<Option<Key>>, key: Option<Key>)
    ensures
        after_press(after_press(keys, key), key) == after_press(keys, key),
{
    if !keys.contains(key) {
        assert(keys.push(key).last() == key);
    }
}

/// Nothing that fails `keep` survives filtering by it.
proof fn lemma_filter_keeps_only(keys: Seq<Option<Key>>, keep: spec_fn(Option<Key>) -> bool, key: Option<Key>)
    requires
        !keep(key),
    ensures
        !keys.filter(keep).contains(key),
{
    let kept = keys.filter(keep);
    if kept.contains(key) {
        let j = choose|j: int| 0 <= j < kept.len() && kept[j] == key;
        keys.lemma_filter_pred(keep, j);
    }
}

/// Filtering lists nothing twice that was not listed twice before.
proof fn lemma_filter_no_duplicates(keys: Seq<Option<Key>>, keep: spec_fn(Option<Key>) -> bool)
    requires
        keys.no_duplicates(),
    ensures
        keys.filter(keep).no_duplicates(),
    decreases keys.len(),
{
    reveal(Seq::filter);
    if keys.len() > 0 {
        let rest = keys.drop_last();
        lemma_filter_no_duplicates(rest, keep);
        if keep(keys.last()) && rest.filter(keep).contains(keys.last()) {
            rest.lemma_filter_contains_rev(keep, keys.last());
        }
    }
}

} // verus!

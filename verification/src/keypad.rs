//! The sixteen-key input table.

use vstd::prelude::*;

verus! {

/// Number of logical keys.
pub const NUM_KEYS: usize = 16;

/// The lowest pressed key index at or above `from`, if any.
pub open spec fn first_pressed_from(keys: Seq<bool>, from: int) -> Option<u8>
    decreases NUM_KEYS - from,
{
    if from < 0 || from >= NUM_KEYS {
        None
    } else if keys[from] {
        Some(from as u8)
    } else {
        first_pressed_from(keys, from + 1)
    }
}

/// The lowest pressed key index, if any key is pressed.
pub open spec fn first_pressed(keys: Seq<bool>) -> Option<u8> {
    first_pressed_from(keys, 0)
}

/// What `first_pressed` returns: the least pressed index, or nothing when no
/// key is pressed.
pub proof fn lemma_first_pressed(keys: Seq<bool>, from: int)
    requires
        keys.len() == NUM_KEYS,
        0 <= from <= NUM_KEYS,
    ensures
        match first_pressed_from(keys, from) {
            Some(k) => from <= k < NUM_KEYS && keys[k as int] && forall|j: int|
                from <= j < k ==> !keys[j],
            None => forall|j: int| from <= j < NUM_KEYS ==> !keys[j],
        },
    decreases NUM_KEYS - from,
{
    if from < NUM_KEYS && !keys[from] {
        lemma_first_pressed(keys, from + 1);
    }
}

/// The boolean key-state table, overwritten wholesale by the external input
/// collaborator and read by the key-test and key-wait instructions.
pub struct Keypad {
    /// One pressed-state per key, index-addressed 0 to 15.
    pub keys: Vec<bool>,
}

impl Keypad {
    /// Structural invariant: all sixteen key states exist.
    pub open spec fn wf(&self) -> bool {
        self.keys@.len() == NUM_KEYS
    }

    /// A fresh table: no key pressed.
    pub fn new() -> (k: Keypad)
        ensures
            k.wf(),
            forall|j: int| 0 <= j < NUM_KEYS ==> !k.keys@[j],
    {
        let mut keys: Vec<bool> = Vec::new();
        let mut j: usize = 0;
        while j < NUM_KEYS
            invariant
                j <= NUM_KEYS,
                keys@.len() == j,
                forall|n: int| 0 <= n < j ==> !keys@[n],
            decreases NUM_KEYS - j,
        {
            keys.push(false);
            j += 1;
        }
        Keypad { keys }
    }

    /// Record whether key `index` is pressed.  No other key changes.
    pub fn set_key(&mut self, index: u8, pressed: bool)
        requires
            old(self).wf(),
            index < NUM_KEYS,
        ensures
            final(self).wf(),
            final(self).keys@ == old(self).keys@.update(index as int, pressed),
    {
        self.keys.set(index as usize, pressed);
    }

    /// Whether key `index` is currently pressed.
    pub fn is_pressed(&self, index: u8) -> (r: bool)
        requires
            self.wf(),
            index < NUM_KEYS,
        ensures
            r == self.keys@[index as int],
    {
        self.keys[index as usize]
    }

    /// The lowest pressed key index, or `None` when no key is pressed.
    pub fn any_pressed(&self) -> (r: Option<u8>)
        requires
            self.wf(),
        ensures
            r == first_pressed(self.keys@),
    {
        let mut j: usize = 0;
        while j < NUM_KEYS
            invariant
                self.wf(),
                j <= NUM_KEYS,
                first_pressed(self.keys@) == first_pressed_from(self.keys@, j as int),
            decreases NUM_KEYS - j,
        {
            if self.keys[j] {
                return Some(j as u8);
            }
            j += 1;
        }
        None
    }
}

} // verus!

//! Snapshot of the 16-key hex pad.
//!
//! The core never talks to a windowing toolkit: a host samples its input
//! source and replaces the snapshot key by key, and the CPU reads the
//! snapshot during a step.

use vstd::prelude::*;

verus! {

/// Key `k` is held and no lower-numbered key is.
pub open spec fn lowest_pressed(keys: Seq<bool>, k: int) -> bool {
    0 <= k < 16 && keys[k] && (forall|j: int| 0 <= j < k ==> !keys[j])
}

/// At least one of the 16 keys is held.
pub open spec fn any_pressed(keys: Seq<bool>) -> bool {
    exists|k: int| 0 <= k < 16 && keys[k]
}

/// Which of the 16 logical hex keys (0x0..=0xF) are currently held.
pub struct KeyboardState {
    pressed_keys: Vec<bool>,
}

impl View for KeyboardState {
    type V = Seq<bool>;

    /// One flag per logical key, indexed by key value.
    closed spec fn view(&self) -> Seq<bool> {
        self.pressed_keys@
    }
}

impl KeyboardState {
    /// Well-formedness: the snapshot always holds exactly 16 flags.
    pub open spec fn wf(&self) -> bool {
        self@.len() == 16
    }

    /// A snapshot with no key held.
    pub fn new() -> (k: KeyboardState)
        ensures
            k.wf(),
            forall|i: int| 0 <= i < 16 ==> !k@[i],
    {
        KeyboardState { pressed_keys: vec![false; 16] }
    }

    /// Record that key `key` is held (`pressed` true) or released.
    pub fn set_key(&mut self, key: u8, pressed: bool)
        requires
            old(self).wf(),
            key < 16,
        ensures
            final(self).wf(),
            final(self)@ == old(self)@.update(key as int, pressed),
    {
        self.pressed_keys[key as usize] = pressed;
        proof {
            assert(self@ =~= old(self)@.update(key as int, pressed));
        }
    }

    /// Whether the key with value `key_index` is currently held.
    pub fn is_key_pressed(&self, key_index: u8) -> (pressed: bool)
        requires
            self.wf(),
            key_index < 16,
        ensures
            pressed == self@[key_index as int],
    {
        self.pressed_keys[key_index as usize]
    }

    /// The values of all held keys, in ascending order.
    pub fn get_pressed_keys(&self) -> (keys: Vec<u8>)
        requires
            self.wf(),
        ensures
            forall|i: int| 0 <= i < keys@.len() ==> keys@[i] < 16 && self@[#[trigger] keys@[i] as int],
            forall|i: int, j: int| 0 <= i < j < keys@.len() ==> keys@[i] < keys@[j],
            forall|k: u8| k < 16 && self@[k as int] ==> keys@.contains(k),
            keys@.len() == 0 <==> !any_pressed(self@),
            keys@.len() > 0 ==> lowest_pressed(self@, keys@[0] as int),
    {
        let mut keys_pressed: Vec<u8> = Vec::new();
        let mut i: usize = 0;
        while i < 16
            invariant
                self.wf(),
                i <= 16,
                forall|a: int|
                    0 <= a < keys_pressed@.len() ==> keys_pressed@[a] < i && self@[
                        #[trigger] keys_pressed@[a] as int
                    ],
                forall|a: int, b: int|
                    0 <= a < b < keys_pressed@.len() ==> keys_pressed@[a] < keys_pressed@[b],
                forall|k: u8| k < i && self@[k as int] ==> keys_pressed@.contains(k),
                keys_pressed@.len() > 0 ==> lowest_pressed(self@, keys_pressed@[0] as int),
            decreases 16 - i,
        {
            if self.pressed_keys[i] {
                let ghost before = keys_pressed@;
                keys_pressed.push(i as u8);
                proof {
                    assert forall|k: u8| k < i + 1 && self@[k as int] implies keys_pressed@.contains(
                        k,
                    ) by {
                        if k < i {
                            let a = choose|a: int| 0 <= a < before.len() && before[a] == k;
                            assert(keys_pressed@[a] == k);
                        } else {
                            assert(keys_pressed@[keys_pressed@.len() - 1] == k);
                        }
                    }
                    if before.len() == 0 {
                        assert(keys_pressed@[0] == i as u8);
                        assert forall|j: int| 0 <= j < i implies !self@[j] by {
                            if self@[j] {
                                assert(before.contains(j as u8));
                            }
                        }
                    }
                }
            } else {
                proof {
                    assert forall|k: u8| k < i + 1 && self@[k as int] implies keys_pressed@.contains(
                        k,
                    ) by {
                        assert(k != i);
                    }
                }
            }
            i += 1;
        }
        proof {
            if keys_pressed@.len() == 0 && any_pressed(self@) {
                let k = choose|k: int| 0 <= k < 16 && self@[k];
                assert(keys_pressed@.contains(k as u8));
            }
            if keys_pressed@.len() > 0 {
                assert(self@[keys_pressed@[0] as int]);
            }
        }
        keys_pressed
    }
}

} // verus!

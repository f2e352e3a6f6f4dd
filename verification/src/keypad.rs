use vstd::prelude::*;

verus! {

/// The sixteen-key input device: a packed mask with one bit per key,
/// key `0x0` at bit 0 up to key `0xF` at bit 15.
#[derive(Debug, PartialEq)]
pub struct Keypad {
    pub keys: u16,
}

/// True when key `k` is marked pressed in the mask `keys`.
pub open spec fn key_down(keys: u16, k: u16) -> bool {
    (keys >> k) & 1 == 1
}

impl Keypad {
    /// A keypad with every key released.
    pub fn new() -> (r: Self)
        ensures
            r.keys == 0,
    {
        Self { keys: 0 }
    }

    /// Mark key `k` as the one pressed key, releasing every other key.
    pub fn set_pressed(&mut self, k: u8)
        requires
            k < 16,
        ensures
            final(self).keys == 1u16 << (k as u16),
            forall|j: u16| j < 16 ==> (#[trigger] key_down(final(self).keys, j) <==> j == k),
    {
        self.keys = 1u16 << (k as u16);
        proof {
            lemma_single_key(k as u16);
        }
    }

    /// Whether key `k` is currently pressed.
    pub fn is_pressed(&self, k: u8) -> (r: bool)
        requires
            k < 16,
        ensures
            r == key_down(self.keys, k as u16),
    {
        (self.keys >> (k as u16)) & 1 == 1
    }
}

/// In the mask `1 << k` exactly the key `k` is down.
pub proof fn lemma_single_key(k: u16)
    by (bit_vector)
    requires
        k < 16,
    ensures
        forall|j: u16| j < 16 ==> (#[trigger] key_down(1u16 << k, j) <==> j == k),
{
}

} // verus!

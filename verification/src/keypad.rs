use vstd::prelude::*;
use crate::machine::key_down;

verus! {

/// The keys of the host keyboard that stand for the sixteen CHIP-8 keys,
/// laid out as the left four columns of a QWERTY keyboard, and any other key.
#[derive(Clone, Copy, PartialEq, Eq, Debug)]
pub enum HostKey {
    Num1,
    Num2,
    Num3,
    Num4,
    Q,
    W,
    E,
    R,
    A,
    S,
    D,
    F,
    Z,
    X,
    C,
    V,
    Other,
}

/// The CHIP-8 key that a host key stands for, or 16 for a key that stands
/// for none.
pub open spec fn chip_key(key: HostKey) -> u16 {
    match key {
        HostKey::Num1 => 0x0,
        HostKey::Num2 => 0x1,
        HostKey::Num3 => 0x2,
        HostKey::Num4 => 0x3,
        HostKey::Q => 0x4,
        HostKey::W => 0x5,
        HostKey::E => 0x6,
        HostKey::R => 0x7,
        HostKey::A => 0x8,
        HostKey::S => 0x9,
        HostKey::D => 0xA,
        HostKey::F => 0xB,
        HostKey::Z => 0xC,
        HostKey::X => 0xD,
        HostKey::C => 0xE,
        HostKey::V => 0xF,
        HostKey::Other => 16,
    }
}

/// The keypad bit of a host key: bit `k` for CHIP-8 key `k`, nothing for a
/// key that stands for none.
pub fn key_mask(key: HostKey) -> (mask: u16)
    ensures
        chip_key(key) < 16 ==> mask == 1u16 << chip_key(key),
        chip_key(key) == 16 ==> mask == 0,
{
    match key {
        HostKey::Num1 => {
            assert(1u16 << 0u16 == 1) by (bit_vector);
            1
        },
        HostKey::Num2 => 1 << 0x1,
        HostKey::Num3 => 1 << 0x2,
        HostKey::Num4 => 1 << 0x3,
        HostKey::Q => 1 << 0x4,
        HostKey::W => 1 << 0x5,
        HostKey::E => 1 << 0x6,
        HostKey::R => 1 << 0x7,
        HostKey::A => 1 << 0x8,
        HostKey::S => 1 << 0x9,
        HostKey::D => 1 << 0xA,
        HostKey::F => 1 << 0xB,
        HostKey::Z => 1 << 0xC,
        HostKey::X => 1 << 0xD,
        HostKey::C => 1 << 0xE,
        HostKey::V => 1 << 0xF,
        HostKey::Other => 0,
    }
}

proof fn lemma_or_bit(pad: u16, mask_bit: u16, k: u8)
    requires
        mask_bit < 16,
        k < 16,
    ensures
        key_down(pad | (1u16 << mask_bit), k) == (key_down(pad, k) || mask_bit == k as u16),
{
    assert(((pad | (1u16 << mask_bit)) & (1u16 << k) != 0) == ((pad & (1u16 << k) != 0)
        || mask_bit == k as u16)) by (bit_vector)
        requires
            mask_bit < 16,
            k < 16,
    ;
}

/// The keypad bit set for the host keys held down: CHIP-8 key `k` is down
/// exactly when one of the keys stands for it.
pub fn keypad_state(keys: &Vec<HostKey>) -> (pad: u16)
    ensures
        forall|k: u8|
            k < 16 ==> (#[trigger] key_down(pad, k) <==> exists|i: int|
                0 <= i < keys.len() && chip_key(#[trigger] keys@[i]) == k as u16),
        forall|k: u16|
            k < 16 ==> ((#[trigger] (pad >> k) & 1u16) == 1u16 <==> exists|i: int|
                0 <= i < keys.len() && chip_key(#[trigger] keys@[i]) == k),
{
    let mut pad: u16 = 0;
    let mut idx: usize = 0;
    assert forall|k: u8| k < 16 implies !key_down(0u16, k) by {
        assert(0u16 & (1u16 << k) == 0) by (bit_vector);
    }
    while idx < keys.len()
        invariant
            idx <= keys.len(),
            forall|k: u8|
                k < 16 ==> (#[trigger] key_down(pad, k) <==> exists|i: int|
                    0 <= i < idx && chip_key(#[trigger] keys@[i]) == k as u16),
        decreases keys.len() - idx,
    {
        let key = keys[idx];
        let mask = key_mask(key);
        let ghost old_pad = pad;
        pad = pad | mask;
        assert forall|k: u8| k < 16 implies (key_down(pad, k) <==> exists|i: int|
            0 <= i < idx + 1 && chip_key(#[trigger] keys@[i]) == k as u16) by {
            if chip_key(key) < 16 {
                lemma_or_bit(old_pad, chip_key(key), k);
            } else {
                assert(old_pad | 0u16 == old_pad) by (bit_vector);
            }
            if key_down(pad, k) && !key_down(old_pad, k) {
                assert(chip_key(keys@[idx as int]) == k as u16);
            }
        }
        idx = idx + 1;
    }
    assert forall|k: u16| k < 16 implies ((#[trigger] (pad >> k) & 1u16) == 1u16 <==> exists|i: int|
        0 <= i < keys.len() && chip_key(#[trigger] keys@[i]) == k) by {
        assert((pad & (1u16 << (k as u8)) != 0) == ((pad >> k) & 1u16 == 1u16)) by (bit_vector)
            requires
                k < 16,
        ;
        assert(key_down(pad, k as u8) == ((pad >> k) & 1u16 == 1u16));
    }
    pad
}

} // verus!

use vstd::prelude::*;

verus! {

/// A host keyboard key, as the host reports it. `Other` stands for every key
/// outside the keypad.
#[derive(Clone, Copy, Debug, PartialEq, Eq, Structural)]
pub enum HostKey {
    Key1,
    Key2,
    Key3,
    Key4,
    Q,
    W,
    E,
    R,
    A,
    S,
    D,
    F,
    Z,
    X,
    C,
    V,
    Other,
}

/// The host key bound to logical key `k` (0 to 15).
pub open spec fn spec_host_key(k: u8) -> HostKey {
    if k == 1 { HostKey::Key1 }
    else if k == 2 { HostKey::Key2 }
    else if k == 3 { HostKey::Key3 }
    else if k == 0xC { HostKey::Key4 }
    else if k == 4 { HostKey::Q }
    else if k == 5 { HostKey::W }
    else if k == 6 { HostKey::E }
    else if k == 0xD { HostKey::R }
    else if k == 7 { HostKey::A }
    else if k == 8 { HostKey::S }
    else if k == 9 { HostKey::D }
    else if k == 0xE { HostKey::F }
    else if k == 0xA { HostKey::Z }
    else if k == 0 { HostKey::X }
    else if k == 0xB { HostKey::C }
    else if k == 0xF { HostKey::V }
    else { HostKey::Other }
}

/// The logical key bound to a host key; none for a key outside the keypad.
pub open spec fn spec_logical_key(key: HostKey) -> Option<u8> {
    match key {
        HostKey::Key1 => Some(1u8),
        HostKey::Key2 => Some(2u8),
        HostKey::Key3 => Some(3u8),
        HostKey::Key4 => Some(0xCu8),
        HostKey::Q => Some(4u8),
        HostKey::W => Some(5u8),
        HostKey::E => Some(6u8),
        HostKey::R => Some(0xDu8),
        HostKey::A => Some(7u8),
        HostKey::S => Some(8u8),
        HostKey::D => Some(9u8),
        HostKey::F => Some(0xEu8),
        HostKey::Z => Some(0xAu8),
        HostKey::X => Some(0u8),
        HostKey::C => Some(0xBu8),
        HostKey::V => Some(0xFu8),
        HostKey::Other => None,
    }
}

/// The host key bound to logical key `k`.
pub fn host_key(k: u8) -> (r: HostKey)
    requires
        k < 16,
    ensures
        r == spec_host_key(k),
        r != HostKey::Other,
{
    if k == 1 { HostKey::Key1 }
    else if k == 2 { HostKey::Key2 }
    else if k == 3 { HostKey::Key3 }
    else if k == 0xC { HostKey::Key4 }
    else if k == 4 { HostKey::Q }
    else if k == 5 { HostKey::W }
    else if k == 6 { HostKey::E }
    else if k == 0xD { HostKey::R }
    else if k == 7 { HostKey::A }
    else if k == 8 { HostKey::S }
    else if k == 9 { HostKey::D }
    else if k == 0xE { HostKey::F }
    else if k == 0xA { HostKey::Z }
    else if k == 0 { HostKey::X }
    else if k == 0xB { HostKey::C }
    else { HostKey::V }
}

/// The logical key bound to a host key, if any.
pub fn logical_key(key: HostKey) -> (r: Option<u8>)
    ensures
        r == spec_logical_key(key),
{
    match key {
        HostKey::Key1 => Some(1),
        HostKey::Key2 => Some(2),
        HostKey::Key3 => Some(3),
        HostKey::Key4 => Some(0xC),
        HostKey::Q => Some(4),
        HostKey::W => Some(5),
        HostKey::E => Some(6),
        HostKey::R => Some(0xD),
        HostKey::A => Some(7),
        HostKey::S => Some(8),
        HostKey::D => Some(9),
        HostKey::F => Some(0xE),
        HostKey::Z => Some(0xA),
        HostKey::X => Some(0),
        HostKey::C => Some(0xB),
        HostKey::V => Some(0xF),
        HostKey::Other => None,
    }
}

/// The keypad map is a bijection between the sixteen logical keys and the
/// host keys other than `Other`: each direction undoes the other.
pub proof fn lemma_keymap_bijective(k: u8, key: HostKey)
    ensures
        k < 16 ==> spec_logical_key(spec_host_key(k)) == Some(k),
        spec_logical_key(key) is Some ==> spec_logical_key(key)->0 < 16
            && spec_host_key(spec_logical_key(key)->0) == key,
        spec_logical_key(key) is None <==> key == HostKey::Other,
{
}

} // verus!

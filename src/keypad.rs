use vstd::prelude::*;

verus! {

/// The keypad key that a host key stands for. The sixteen keys sit on the
/// left of a QWERTY keyboard:
///
/// ```text
/// 1 2 3 4      1 2 3 C
/// Q W E R  ->  4 5 6 D
/// A S D F      7 8 9 E
/// Z X C V      A 0 B F
/// ```
pub open spec fn key_of(c: char) -> Option<int> {
    if c == '1' {
        Some(0x1)
    } else if c == '2' {
        Some(0x2)
    } else if c == '3' {
        Some(0x3)
    } else if c == '4' {
        Some(0xC)
    } else if c == 'Q' {
        Some(0x4)
    } else if c == 'W' {
        Some(0x5)
    } else if c == 'E' {
        Some(0x6)
    } else if c == 'R' {
        Some(0xD)
    } else if c == 'A' {
        Some(0x7)
    } else if c == 'S' {
        Some(0x8)
    } else if c == 'D' {
        Some(0x9)
    } else if c == 'F' {
        Some(0xE)
    } else if c == 'Z' {
        Some(0xA)
    } else if c == 'X' {
        Some(0x0)
    } else if c == 'C' {
        Some(0xB)
    } else if c == 'V' {
        Some(0xF)
    } else {
        None
    }
}

/// The keypad key for host key `c`, if it is one of the sixteen.
pub fn keypad_index(c: char) -> (r: Option<usize>)
    ensures
        r matches Some(k) ==> key_of(c) == Some(k as int) && k < 16,
        r is None <==> key_of(c) is None,
{
    match c {
        '1' => Some(0x1),
        '2' => Some(0x2),
        '3' => Some(0x3),
        '4' => Some(0xC),
        'Q' => Some(0x4),
        'W' => Some(0x5),
        'E' => Some(0x6),
        'R' => Some(0xD),
        'A' => Some(0x7),
        'S' => Some(0x8),
        'D' => Some(0x9),
        'F' => Some(0xE),
        'Z' => Some(0xA),
        'X' => Some(0x0),
        'C' => Some(0xB),
        'V' => Some(0xF),
        _ => None,
    }
}

/// The keypad snapshot while the host keys `held` are down: key `k` is held
/// exactly when some held host key stands for it.
pub fn handle_key_events(held: &Vec<char>) -> (keys: [bool; 16])
    ensures
        forall|k: int| 0 <= k < 16 ==> #[trigger] keys@[k]
            == exists|j: int| 0 <= j < held@.len() && key_of(#[trigger] held@[j]) == Some(k),
{
    let mut keys = [false; 16];
    let mut j: usize = 0;
    while j < held.len()
        invariant
            j <= held@.len(),
            keys@.len() == 16,
            forall|k: int| 0 <= k < 16 ==> #[trigger] keys@[k]
                == exists|i: int| 0 <= i < j && key_of(#[trigger] held@[i]) == Some(k),
        decreases held@.len() - j,
    {
        match keypad_index(held[j]) {
            Some(k) => {
                keys.set(k, true);
            },
            None => {},
        }
        proof {
            assert forall|k: int| 0 <= k < 16 implies #[trigger] keys@[k]
                == exists|i: int| 0 <= i < j + 1 && key_of(#[trigger] held@[i]) == Some(k) by {
                if key_of(held@[j as int]) == Some(k) {
                    assert(0 <= j < j + 1 && key_of(held@[j as int]) == Some(k));
                }
                if exists|i: int| 0 <= i < j + 1 && key_of(#[trigger] held@[i]) == Some(k) {
                    let i = choose|i: int| 0 <= i < j + 1 && key_of(#[trigger] held@[i]) == Some(k);
                    if i < j {
                        assert(0 <= i < j && key_of(held@[i]) == Some(k));
                    }
                }
            };
        }
        j = j + 1;
    }
    keys
}

} // verus!

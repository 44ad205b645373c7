use vstd::prelude::*;

verus! {

/// The CPU key code each physical key position stands for, in the
/// machine's physical key ordering.
pub open spec fn cpu_index_table() -> Seq<u8> {
    seq![
        0x1u8, 0x2, 0x3, 0xC,
        0x4, 0x5, 0x6, 0xD,
        0x7, 0x8, 0x9, 0xE,
        0xA, 0x0, 0xB, 0xF,
    ]
}

/// The physical key position that holds each CPU key code: the inverse of
/// `cpu_index_table`.
pub open spec fn key_index_table() -> Seq<usize> {
    seq![
        0xDusize, 0x0, 0x1, 0x2,
        0x4, 0x5, 0x6, 0x8,
        0x9, 0xA, 0xC, 0xE,
        0x3, 0x7, 0xB, 0xF,
    ]
}

/// The two tables are inverse permutations: looking a CPU key code's
/// physical position back up in the physical table gives the code again.
pub proof fn lemma_keymap_inverse(code: int)
    requires
        0 <= code < 16,
    ensures
        cpu_index_table()[key_index_table()[code] as int] == code,
{
}

/// Whether the key numbered `code` by the CPU is down, given the key
/// states in physical order.
pub open spec fn pressed(keys: Seq<bool>, code: int) -> bool {
    keys[key_index_table()[code] as int]
}

/// The CPU key code of the first pressed key at or after physical
/// position `k`; the lowest physical position wins on ties.
pub open spec fn spec_any_key(keys: Seq<bool>, k: int) -> Option<u8>
    decreases 16 - k,
{
    if k < 0 || k >= 16 {
        None
    } else if keys[k] {
        Some(cpu_index_table()[k])
    } else {
        spec_any_key(keys, k + 1)
    }
}

/// No key is reported exactly when no key is down.
pub proof fn lemma_any_key_none(keys: Seq<bool>, k: int)
    requires
        0 <= k <= 16,
    ensures
        spec_any_key(keys, k) is None <==> forall|j: int| k <= j < 16 ==> !keys[j],
    decreases 16 - k,
{
    if k < 16 {
        lemma_any_key_none(keys, k + 1);
    }
}

/// Translation between physical key positions and CPU key codes.
pub struct Keymap;

impl Keymap {
    /// The CPU key code at a physical key position.
    pub fn cpu_index(key_index: usize) -> (r: u8)
        requires
            key_index < 16,
        ensures
            r == cpu_index_table()[key_index as int],
    {
        match key_index {
            0x0 => 0x1,
            0x1 => 0x2,
            0x2 => 0x3,
            0x3 => 0xC,
            0x4 => 0x4,
            0x5 => 0x5,
            0x6 => 0x6,
            0x7 => 0xD,
            0x8 => 0x7,
            0x9 => 0x8,
            0xA => 0x9,
            0xB => 0xE,
            0xC => 0xA,
            0xD => 0x0,
            0xE => 0xB,
            _ => 0xF,
        }
    }

    /// The physical key position of a CPU key code.
    pub fn key_index(cpu_index: usize) -> (r: usize)
        requires
            cpu_index < 16,
        ensures
            r == key_index_table()[cpu_index as int],
            r < 16,
    {
        match cpu_index {
            0x0 => 0xD,
            0x1 => 0x0,
            0x2 => 0x1,
            0x3 => 0x2,
            0x4 => 0x4,
            0x5 => 0x5,
            0x6 => 0x6,
            0x7 => 0x8,
            0x8 => 0x9,
            0x9 => 0xA,
            0xA => 0xC,
            0xB => 0xE,
            0xC => 0x3,
            0xD => 0x7,
            0xE => 0xB,
            _ => 0xF,
        }
    }
}

/// 16 boolean key states in physical key order, refreshed wholesale by
/// the host each poll cycle and queried read-only by the CPU.
pub struct Keypad {
    state: [bool; 16],
}

impl View for Keypad {
    type V = Seq<bool>;

    closed spec fn view(&self) -> Seq<bool> {
        self.state@
    }
}

impl Default for Keypad {
    /// A fresh keypad has every key released.
    fn default() -> (r: Self)
        ensures
            r@.len() == 16,
            forall|j: int| 0 <= j < 16 ==> !r@[j],
    {
        Keypad { state: [false; 16] }
    }
}

impl Keypad {
    /// Whether the key the CPU numbers `cpu_index` is currently down.
    pub fn is_key_pressed(&self, cpu_index: usize) -> (r: bool)
        requires
            cpu_index < 16,
        ensures
            r == pressed(self@, cpu_index as int),
    {
        self.state[Keymap::key_index(cpu_index)]
    }

    /// The first pressed key in physical key order, as a CPU key code, if
    /// any key is down at all.
    pub fn any_key(&self) -> (r: Option<u8>)
        ensures
            r == spec_any_key(self@, 0),
    {
        let mut key_index: usize = 0;
        while key_index < 16
            invariant
                0 <= key_index <= 16,
                spec_any_key(self@, 0) == spec_any_key(self@, key_index as int),
            decreases 16 - key_index,
        {
            if self.state[key_index] {
                return Some(Keymap::cpu_index(key_index));
            }
            key_index = key_index + 1;
        }
        None
    }

    /// Replaces the whole key state from the physical key positions the
    /// host saw down in its latest poll; positions outside the keypad are
    /// ignored, and a key absent from the poll is released.
    pub fn update_state(&mut self, state: Vec<usize>)
        ensures
            final(self)@.len() == 16,
            forall|j: usize| j < 16 ==> final(self)@[j as int] == state@.contains(j),
    {
        self.state = [false; 16];
        let mut i: usize = 0;
        while i < state.len()
            invariant
                0 <= i <= state@.len(),
                self@.len() == 16,
                forall|j: usize| j < 16 ==> self@[j as int] == state@.take(i as int).contains(j),
            decreases state@.len() - i,
        {
            let k = state[i];
            let ghost before = self@;
            if k < 16 {
                self.state[k] = true;
            }
            proof {
                let t = state@.take(i as int);
                assert(state@.take(i + 1) =~= t.push(k));
                assert forall|j: usize| j < 16 implies self@[j as int] == t.push(k).contains(j) by {
                    if t.contains(j) {
                        let l = choose|l: int| 0 <= l < t.len() && t[l] == j;
                        assert(t.push(k)[l] == j);
                    }
                    if j == k {
                        assert(t.push(k)[t.len() as int] == j);
                    }
                    if t.push(k).contains(j) {
                        let l = choose|l: int|
                            0 <= l < t.push(k).len() && t.push(k)[l] == j;
                        if l < t.len() {
                            assert(t[l] == j);
                        }
                    }
                    if j != k {
                        assert(self@[j as int] == before[j as int]);
                    }
                }
            }
            i = i + 1;
        }
        proof {
            assert(state@.take(state@.len() as int) =~= state@);
        }
    }
}

} // verus!

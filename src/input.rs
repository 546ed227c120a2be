//! Keys, window events and the per-tick keyboard state.

use vstd::prelude::*;

verus! {

/// The keys the world reacts to; every other key is `Unknown`.
#[derive(Copy, Clone, Debug, PartialEq, Eq, Hash, Structural)]
pub enum Keycode {
    A,
    D,
    E,
    Q,
    S,
    W,
    Escape,
    Unknown,
}

/// An event of the window.
#[derive(Copy, Clone, Debug, PartialEq, Eq, Structural)]
pub enum WindowEvent {
    KeyDown(Keycode),
    KeyUp(Keycode),
    Quit,
}

/// A colour by its red, green and blue components.
#[derive(Copy, Clone, Debug, PartialEq, Eq, Hash, Structural)]
pub struct Color {
    pub r: u8,
    pub g: u8,
    pub b: u8,
}

impl Color {
    pub fn rgb(r: u8, g: u8, b: u8) -> (c: Color)
        ensures
            c.r == r && c.g == g && c.b == b,
    {
        Color { r, g, b }
    }
}

/// The key of a numeric key code of the browser front end.
pub fn match_keycode_num(num: i32) -> (r: Keycode)
    ensures
        r == match num {
            0 => Keycode::A,
            3 => Keycode::D,
            4 => Keycode::E,
            16 => Keycode::Q,
            18 => Keycode::S,
            22 => Keycode::W,
            100 => Keycode::Escape,
            _ => Keycode::Unknown,
        },
{
    match num {
        0 => Keycode::A,
        3 => Keycode::D,
        4 => Keycode::E,
        16 => Keycode::Q,
        18 => Keycode::S,
        22 => Keycode::W,
        100 => Keycode::Escape,
        _ => Keycode::Unknown,
    }
}

/// Whether `s` holds no key twice.
pub open spec fn distinct(s: Seq<Keycode>) -> bool {
    forall|i: int, j: int| 0 <= i < j < s.len() ==> s[i] != s[j]
}

/// Whether `v` holds `k`.
fn holds(v: &Vec<Keycode>, k: Keycode) -> (r: bool)
    ensures
        r == v@.contains(k),
{
    let mut i: usize = 0;
    while i < v.len()
        invariant
            i <= v@.len(),
            forall|j: int| 0 <= j < i ==> v@[j] != k,
        decreases v@.len() - i,
    {
        if v[i] == k {
            return true;
        }
        i = i + 1;
    }
    false
}

/// The keyboard as one tick sees it: the keys pressed during the tick, and the keys held
/// down. Each list holds a key at most once, in the order the keys went down.
pub struct InputState {
    pub keys_pressed: Vec<Keycode>,
    pub keys_held: Vec<Keycode>,
}

impl InputState {
    pub open spec fn wf(&self) -> bool {
        distinct(self.keys_pressed@) && distinct(self.keys_held@)
    }

    pub fn new() -> (r: InputState)
        ensures
            r.wf(),
            r.keys_pressed@ == Seq::<Keycode>::empty(),
            r.keys_held@ == Seq::<Keycode>::empty(),
    {
        InputState { keys_pressed: Vec::new(), keys_held: Vec::new() }
    }

    /// A key went down. A key already held (a repeat of a long press) changes nothing;
    /// otherwise it becomes held, and pressed in this tick.
    pub fn key_down_event(&mut self, keycode: Keycode)
        requires
            old(self).wf(),
        ensures
            final(self).wf(),
            old(self).keys_held@.contains(keycode) ==> *final(self) == *old(self),
            !old(self).keys_held@.contains(keycode) ==> {
                &&& final(self).keys_held@ == old(self).keys_held@.push(keycode)
                &&& final(self).keys_pressed@ == if old(self).keys_pressed@.contains(keycode) {
                    old(self).keys_pressed@
                } else {
                    old(self).keys_pressed@.push(keycode)
                }
            },
    {
        if !holds(&self.keys_held, keycode) {
            self.keys_held.push(keycode);
            if !holds(&self.keys_pressed, keycode) {
                self.keys_pressed.push(keycode);
            }
        }
    }

    /// A key went up: it is no longer held.
    pub fn key_up_event(&mut self, keycode: Keycode)
        requires
            old(self).wf(),
        ensures
            final(self).wf(),
            final(self).keys_pressed@ == old(self).keys_pressed@,
            forall|k: Keycode|
                #[trigger] final(self).keys_held@.contains(k) <==> (old(self).keys_held@.contains(k)
                    && k != keycode),
    {
        let mut kept: Vec<Keycode> = Vec::new();
        let mut i: usize = 0;
        while i < self.keys_held.len()
            invariant
                i <= self.keys_held@.len(),
                distinct(self.keys_held@),
                distinct(kept@),
                forall|k: Keycode|
                    #[trigger] kept@.contains(k) <==> (exists|j: int|
                        0 <= j < i && self.keys_held@[j] == k && k != keycode),
            decreases self.keys_held@.len() - i,
        {
            let k = self.keys_held[i];
            if k != keycode {
                let ghost before = kept@;
                proof {
                    if before.contains(k) {
                        let j = choose|j: int| 0 <= j < i && self.keys_held@[j] == k && k != keycode;
                        assert(self.keys_held@[j] == self.keys_held@[i as int]);
                    }
                }
                kept.push(k);
                proof {
                    assert(kept@ == before.push(k));
                    assert forall|x: Keycode| #[trigger] kept@.contains(x) <==> (exists|j: int|
                        0 <= j < i + 1 && self.keys_held@[j] == x && x != keycode) by {
                        if kept@.contains(x) {
                            let m = choose|m: int| 0 <= m < kept@.len() && kept@[m] == x;
                            if m < before.len() {
                                assert(before[m] == x);
                                assert(before.contains(x));
                            } else {
                                assert(self.keys_held@[i as int] == x);
                            }
                        }
                        if exists|j: int| 0 <= j < i + 1 && self.keys_held@[j] == x && x != keycode {
                            let j = choose|j: int| 0 <= j < i + 1 && self.keys_held@[j] == x && x != keycode;
                            if j < i {
                                assert(before.contains(x));
                                let m = choose|m: int| 0 <= m < before.len() && before[m] == x;
                                assert(kept@[m] == x);
                            } else {
                                assert(kept@[before.len() as int] == x);
                            }
                        }
                    }
                    assert forall|a: int, b: int| 0 <= a < b < kept@.len() implies kept@[a] != kept@[b] by {
                        assert(before[a] == kept@[a]);
                        if b == before.len() {
                            assert(before.contains(kept@[a]));
                        } else {
                            assert(before[b] == kept@[b]);
                        }
                    }
                }
            } else {
                assert forall|x: Keycode| #[trigger] kept@.contains(x) <==> (exists|j: int|
                    0 <= j < i + 1 && self.keys_held@[j] == x && x != keycode) by {
                    if exists|j: int| 0 <= j < i + 1 && self.keys_held@[j] == x && x != keycode {
                        let j = choose|j: int| 0 <= j < i + 1 && self.keys_held@[j] == x && x != keycode;
                        assert(j < i);
                    }
                }
            }
            i = i + 1;
        }
        proof {
            assert forall|k: Keycode| #[trigger] kept@.contains(k) <==> (self.keys_held@.contains(k) && k != keycode) by {
                if self.keys_held@.contains(k) && k != keycode {
                    let j = choose|j: int| 0 <= j < self.keys_held@.len() && self.keys_held@[j] == k;
                    assert(exists|j: int| 0 <= j < i && self.keys_held@[j] == k && k != keycode);
                }
            }
        }
        self.keys_held = kept;
    }

    /// Ends a tick: no key counts as pressed any more.
    pub fn clear_frame(&mut self)
        requires
            old(self).wf(),
        ensures
            final(self).wf(),
            final(self).keys_pressed@ == Seq::<Keycode>::empty(),
            final(self).keys_held@ == old(self).keys_held@,
    {
        self.keys_pressed = Vec::new();
    }
}

} // verus!

//! Input from the host windows: which host keys are held down in each
//! compositor window, which host input gets through while synthetic actions
//! run, and the host's mouse button codes.
use vstd::prelude::*;

use crate::control::KeyState;
use crate::text::fixed;

verus! {

/// The host keys held down, per compositor window (by window id).
#[derive(Debug)]
pub struct HostKeyTracker {
    pressed: Vec<(u64, u32)>,
}

impl View for HostKeyTracker {
    type V = Set<(u64, u32)>;

    closed spec fn view(&self) -> Set<(u64, u32)> {
        Set::new(|p: (u64, u32)| self.pressed@.contains(p))
    }
}

proof fn lemma_push_contains(s: Seq<(u64, u32)>, x: (u64, u32))
    ensures
        forall|p: (u64, u32)| #[trigger] s.push(x).contains(p) <==> (s.contains(p) || p == x),
{
    assert forall|p: (u64, u32)| #[trigger] s.push(x).contains(p) <==> (s.contains(p) || p == x) by {
        if s.push(x).contains(p) {
            let j = choose|j: int| 0 <= j < s.push(x).len() && s.push(x)[j] == p;
            if j < s.len() {
                assert(s[j] == p);
            }
        }
        if s.contains(p) {
            let j = choose|j: int| 0 <= j < s.len() && s[j] == p;
            assert(s.push(x)[j] == p);
        }
        if p == x {
            assert(s.push(x)[s.len() as int] == p);
        }
    }
}

/// Whether `s` increases strictly.
pub open spec fn strictly_increasing(s: Seq<u32>) -> bool {
    forall|i: int, j: int| 0 <= i < j < s.len() ==> s[i] < s[j]
}

impl HostKeyTracker {
    pub fn new() -> (r: HostKeyTracker)
        ensures
            r@ == Set::<(u64, u32)>::empty(),
    {
        let r = HostKeyTracker { pressed: Vec::new() };
        assert(r@ =~= Set::<(u64, u32)>::empty());
        r
    }

    /// Whether `key` is held down in `window`.
    pub fn is_pressed(&self, window: u64, key: u32) -> (r: bool)
        ensures
            r == self@.contains((window, key)),
    {
        let mut i: usize = 0;
        while i < self.pressed.len()
            invariant
                i <= self.pressed@.len(),
                forall|m: int| 0 <= m < i ==> self.pressed@[m] != (window, key),
            decreases self.pressed@.len() - i,
        {
            let (w, k) = self.pressed[i];
            if w == window && k == key {
                assert(self.pressed@[i as int] == (window, key));
                return true;
            }
            i += 1;
        }
        false
    }

    /// Records a host key event in `window`.
    pub fn record(&mut self, window: u64, key: u32, state: KeyState)
        ensures
            final(self)@ == (match state {
                KeyState::Pressed => old(self)@.insert((window, key)),
                KeyState::Released => old(self)@.remove((window, key)),
            }),
    {
        match state {
            KeyState::Pressed => {
                if !self.is_pressed(window, key) {
                    proof {
                        lemma_push_contains(self.pressed@, (window, key));
                    }
                    self.pressed.push((window, key));
                }
                assert(self@ =~= old(self)@.insert((window, key)));
            },
            KeyState::Released => {
                self.remove_where(window, Some(key));
                assert(self@ =~= old(self)@.remove((window, key)));
            },
        }
    }

    /// Drops the entries of `window` (only that of `key`, when given).
    fn remove_where(&mut self, window: u64, key: Option<u32>)
        ensures
            forall|p: (u64, u32)|
                #![trigger final(self)@.contains(p)]
                final(self)@.contains(p) <==> (old(self)@.contains(p) && !(p.0 == window && (
                match key {
                    Some(k) => p.1 == k,
                    None => true,
                }))),
    {
        let mut kept: Vec<(u64, u32)> = Vec::new();
        let mut i: usize = 0;
        while i < self.pressed.len()
            invariant
                i <= self.pressed@.len(),
                self.pressed@ == old(self).pressed@,
                forall|p: (u64, u32)|
                    #![trigger kept@.contains(p)]
                    kept@.contains(p) <==> (self.pressed@.take(i as int).contains(p) && !(p.0
                        == window && (match key {
                        Some(k) => p.1 == k,
                        None => true,
                    }))),
            decreases self.pressed@.len() - i,
        {
            let (w, k) = self.pressed[i];
            let drop = w == window && match key {
                Some(kk) => k == kk,
                None => true,
            };
            let ghost before = kept@;
            if !drop {
                kept.push((w, k));
            }
            proof {
                let x = self.pressed@[i as int];
                let next = self.pressed@.take(i + 1);
                assert(next =~= self.pressed@.take(i as int).push(x));
                lemma_push_contains(self.pressed@.take(i as int), x);
                lemma_push_contains(before, x);
            }
            i += 1;
        }
        assert(self.pressed@.take(self.pressed@.len() as int) =~= self.pressed@);
        self.pressed = kept;
    }

    /// The smallest key above `floor` (any key when `floor` is `None`) held
    /// in `window`.
    fn smallest_key_above(&self, window: u64, floor: Option<u32>) -> (r: Option<u32>)
        ensures
            match r {
                Some(k) => {
                    &&& self@.contains((window, k))
                    &&& (floor matches Some(f) ==> f < k)
                    &&& forall|j: u32|
                        #![trigger self@.contains((window, j))]
                        self@.contains((window, j)) && (floor matches Some(f) ==> f < j) ==> k <= j
                },
                None => forall|j: u32|
                    #![trigger self@.contains((window, j))]
                    self@.contains((window, j)) ==> (floor matches Some(f) && j <= f),
            },
    {
        let mut best: Option<u32> = None;
        let mut i: usize = 0;
        while i < self.pressed.len()
            invariant
                i <= self.pressed@.len(),
                match best {
                    Some(b) => {
                        &&& self.pressed@.take(i as int).contains((window, b))
                        &&& (floor matches Some(f) ==> f < b)
                        &&& forall|m: int|
                            0 <= m < i && (#[trigger] self.pressed@[m]).0 == window && (
                            floor matches Some(f) ==> f < self.pressed@[m].1) ==> b
                                <= self.pressed@[m].1
                    },
                    None => forall|m: int|
                        0 <= m < i && (#[trigger] self.pressed@[m]).0 == window ==> (
                        floor matches Some(f) && self.pressed@[m].1 <= f),
                },
            decreases self.pressed@.len() - i,
        {
            let (w, k) = self.pressed[i];
            let above = match floor {
                Some(f) => f < k,
                None => true,
            };
            let ghost old_best = best;
            if w == window && above {
                let better = match best {
                    Some(b) => k < b,
                    None => true,
                };
                if better {
                    best = Some(k);
                }
            }
            proof {
                assert(self.pressed@.take(i + 1) =~= self.pressed@.take(i as int).push(
                    self.pressed@[i as int],
                ));
                match best {
                    Some(b) => {
                        if old_best == Some(b) {
                            let m = choose|m: int|
                                0 <= m < i && self.pressed@.take(i as int)[m] == (window, b);
                            assert(self.pressed@.take(i + 1)[m] == (window, b));
                        } else {
                            assert(self.pressed@.take(i + 1)[i as int] == (window, b));
                        }
                    },
                    None => {},
                }
            }
            i += 1;
        }
        assert(self.pressed@.take(self.pressed@.len() as int) =~= self.pressed@);
        proof {
            match best {
                Some(b) => {
                    assert forall|j: u32|
                        #![trigger self@.contains((window, j))]
                        self@.contains((window, j)) && (floor matches Some(f) ==> f < j) implies b
                        <= j by {
                        let m = choose|m: int|
                            0 <= m < self.pressed@.len() && self.pressed@[m] == (window, j);
                        assert(self.pressed@[m].0 == window);
                    }
                },
                None => {
                    assert forall|j: u32|
                        #![trigger self@.contains((window, j))]
                        self@.contains((window, j)) implies (floor matches Some(f) && j <= f) by {
                        let m = choose|m: int|
                            0 <= m < self.pressed@.len() && self.pressed@[m] == (window, j);
                        assert(self.pressed@[m].0 == window);
                    }
                },
            }
        }
        best
    }

    /// Forgets the keys held in `window` and returns them, in increasing
    /// order, so that each can be released once.
    pub fn release_window(&mut self, window: u64) -> (r: Vec<u32>)
        ensures
            strictly_increasing(r@),
            forall|k: u32| r@.contains(k) <==> old(self)@.contains((window, k)),
            forall|p: (u64, u32)|
                #![trigger final(self)@.contains(p)]
                final(self)@.contains(p) <==> (old(self)@.contains(p) && p.0 != window),
    {
        let mut out: Vec<u32> = Vec::new();
        let mut floor: Option<u32> = None;
        loop
            invariant_except_break
                strictly_increasing(out@),
                match floor {
                    Some(f) => out@.len() > 0 && out@.last() == f,
                    None => out@.len() == 0,
                },
                self@ == old(self)@,
                forall|k: u32|
                    out@.contains(k) <==> (self@.contains((window, k)) && (floor matches Some(f)
                        && k <= f)),
            ensures
                strictly_increasing(out@),
                self@ == old(self)@,
                forall|k: u32| out@.contains(k) <==> self@.contains((window, k)),
            decreases (match floor {
                Some(f) => u32::MAX - f,
                None => u32::MAX + 1,
            }),
        {
            match self.smallest_key_above(window, floor) {
                Some(k) => {
                    let ghost before = out@;
                    out.push(k);
                    proof {
                        assert forall|a: int, b: int| 0 <= a < b < out@.len() implies out@[a]
                            < out@[b] by {
                            if b == out@.len() - 1 && a < before.len() {
                                assert(before.contains(before[a]));
                            }
                        }
                        assert forall|j: u32| out@.contains(j) <==> (self@.contains((window, j))
                            && j <= k) by {
                            if out@.contains(j) {
                                let m = choose|m: int| 0 <= m < out@.len() && out@[m] == j;
                                if m < before.len() {
                                    assert(before.contains(j));
                                }
                            }
                            if self@.contains((window, j)) && j <= k && j != k {
                                assert(before.contains(j));
                                let m = choose|m: int| 0 <= m < before.len() && before[m] == j;
                                assert(out@[m] == j);
                            }
                            if j == k {
                                assert(out@[out@.len() - 1] == k);
                            }
                        }
                    }
                    floor = Some(k);
                },
                None => {
                    break ;
                },
            }
        }
        self.remove_where(window, None);
        out
    }
}

/// While synthetic actions are queued, host input is held back; only the
/// release of a host key still held in the window gets through.
pub fn passes_while_blocked(tracker: &HostKeyTracker, window: u64, key: u32, state: KeyState) -> (r:
    bool)
    ensures
        r == (state == KeyState::Released && tracker@.contains((window, key))),
{
    match state {
        KeyState::Released => tracker.is_pressed(window, key),
        KeyState::Pressed => false,
    }
}

/// The count of host keys down after a (non-repeated) key event: one more
/// for a press, one fewer for a release, never below zero.
pub fn update_key_count(count: u32, state: KeyState) -> (r: u32)
    requires
        state == KeyState::Pressed ==> count < u32::MAX,
    ensures
        r == (match state {
            KeyState::Pressed => (count + 1) as u32,
            KeyState::Released => if count > 0 {
                (count - 1) as u32
            } else {
                0
            },
        }),
{
    match state {
        KeyState::Pressed => count + 1,
        KeyState::Released => count.saturating_sub(1),
    }
}

/// A mouse button of the host window system.
#[derive(Debug, Clone, Copy, PartialEq, Eq, Structural)]
pub enum HostMouseButton {
    Left,
    Right,
    Middle,
    Forward,
    Back,
    Other(u16),
}

/// The Linux input code of an X11 button number. Numbers 4 to 7 are wheel
/// directions and have no button code.
pub open spec fn xorg_button_code(xorg: u32) -> u32 {
    if xorg == 0 {
        0
    } else if xorg == 1 {
        0x110
    } else if xorg == 2 {
        0x112
    } else if xorg == 3 {
        0x111
    } else {
        (xorg - 8 + 0x113) as u32
    }
}

pub fn xorg_mouse_to_libinput(xorg: u32) -> (r: u32)
    requires
        xorg <= 3 || 8 <= xorg <= u32::MAX - 0x113 + 8,
    ensures
        r == xorg_button_code(xorg),
{
    match xorg {
        0 => 0,
        1 => 0x110,
        2 => 0x112,
        3 => 0x111,
        _ => xorg - 8 + 0x113,
    }
}

/// The Linux input code of a host mouse button; other buttons are X11
/// numbers on X11 and codes already elsewhere.
pub fn host_button_code(button: HostMouseButton, is_x11: bool) -> (r: u32)
    requires
        is_x11 ==> match button {
            HostMouseButton::Other(b) => b <= 3 || b >= 8,
            _ => true,
        },
    ensures
        r == (match button {
            HostMouseButton::Left => 0x110u32,
            HostMouseButton::Right => 0x111u32,
            HostMouseButton::Middle => 0x112u32,
            HostMouseButton::Forward => 0x115u32,
            HostMouseButton::Back => 0x116u32,
            HostMouseButton::Other(b) => if is_x11 {
                xorg_button_code(b as u32)
            } else {
                b as u32
            },
        }),
{
    match button {
        HostMouseButton::Left => 0x110,
        HostMouseButton::Right => 0x111,
        HostMouseButton::Middle => 0x112,
        HostMouseButton::Forward => 0x115,
        HostMouseButton::Back => 0x116,
        HostMouseButton::Other(b) => if is_x11 {
            xorg_mouse_to_libinput(b as u32)
        } else {
            b as u32
        },
    }
}


/// The input source that forwards host window events into the compositor.
#[derive(Debug)]
pub struct HostInput;

/// The one virtual device behind host input.
#[derive(Debug, Clone, Copy, PartialEq, Eq)]
pub struct HostVirtualDevice;

/// What an input device can do.
#[derive(Debug, Clone, Copy, PartialEq, Eq, Structural)]
pub enum DeviceCapability {
    Keyboard,
    Pointer,
    Touch,
    TabletTool,
    TabletPad,
    Gesture,
    Switch,
}

impl HostVirtualDevice {
    /// The device's stable identifier.
    pub fn id(&self) -> (r: String)
        ensures
            r@ == "host-winit"@,
    {
        fixed("host-winit")
    }

    /// The device's human-readable name.
    pub fn name(&self) -> (r: String)
        ensures
            r@ == "host winit virtual input"@,
    {
        fixed("host winit virtual input")
    }

    /// The host device is a keyboard and a pointer, nothing else.
    pub fn has_capability(&self, capability: DeviceCapability) -> (r: bool)
        ensures
            r == (capability == DeviceCapability::Keyboard || capability
                == DeviceCapability::Pointer),
    {
        match capability {
            DeviceCapability::Keyboard => true,
            DeviceCapability::Pointer => true,
            _ => false,
        }
    }
}

} // verus!

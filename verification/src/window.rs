//! Windows managed by the compositor: ids, lifecycle state, sizing policy,
//! and the client toplevels shown in each window (a primary one and
//! overlays such as dialogs). Client toplevels are identified by handles
//! that the embedding compositor assigns.
use vstd::prelude::*;

verus! {

/// Identifier of a compositor window; ids start at one.
#[derive(Debug, Clone, Copy, PartialEq, Eq, Hash, Structural)]
pub struct AutoWindowId(u64);

impl AutoWindowId {
    pub closed spec fn id(self) -> u64 {
        self.0
    }

    /// Every id in use is positive.
    #[verifier::type_invariant]
    spec fn positive(self) -> bool {
        self.0 > 0
    }

    /// The id with number `id`; zero is no id. The id returned is the one
    /// with that number, so an id's number leads back to the id itself.
    pub fn from_raw(id: u64) -> (r: Option<Self>)
        ensures
            r is Some <==> id > 0,
            r matches Some(w) ==> w.id() == id,
            forall|w: AutoWindowId| #[trigger] w.id() == id && id > 0 ==> r == Some(w),
    {
        if id > 0 {
            Some(AutoWindowId(id))
        } else {
            None
        }
    }

    /// The number of this id, which is positive.
    pub fn raw(self) -> (r: u64)
        ensures
            r == self.id(),
            r > 0,
    {
        proof {
            use_type_invariant(&self);
        }
        self.0
    }
}

/// Two ids with the same number are the same id.
pub proof fn lemma_window_id_by_number(a: AutoWindowId, b: AutoWindowId)
    requires
        a.id() == b.id(),
    ensures
        a == b,
{
}

/// Where a window is in its lifecycle.
#[derive(Debug, Clone, Copy, PartialEq, Eq, Structural)]
pub enum AutoWindowState {
    Empty,
    WaitingProbeCommit,
    WaitingHostWindow,
    WaitingFinalCommit,
    Mapped,
}

/// A width and height in pixels.
#[derive(Debug, Clone, Copy, PartialEq, Eq, Structural)]
pub struct Size {
    pub w: i32,
    pub h: i32,
}

/// How the virtual output of a window is sized.
#[derive(Debug, Clone, Copy, PartialEq, Eq, Structural)]
pub enum WindowSizing {
    /// The virtual output follows the host window.
    Dynamic,
    /// The virtual output keeps this size.
    Fixed { size: Size },
}

impl WindowSizing {
    pub fn from_dynamic_resize(dynamic_resize: bool, initial_size: Size) -> (r: Self)
        ensures
            r == (if dynamic_resize {
                WindowSizing::Dynamic
            } else {
                WindowSizing::Fixed { size: initial_size }
            }),
    {
        if dynamic_resize {
            WindowSizing::Dynamic
        } else {
            WindowSizing::Fixed { size: initial_size }
        }
    }

    pub fn is_fixed(self) -> (r: bool)
        ensures
            r == (self is Fixed),
    {
        match self {
            WindowSizing::Fixed { .. } => true,
            WindowSizing::Dynamic => false,
        }
    }

    /// Logical size of the final presentation pass: the host size for a
    /// dynamic output, the virtual size for a fixed one.
    pub fn final_pass_logical_size(self, host_size: Size, virtual_size: Size) -> (r: Size)
        ensures
            r == (match self {
                WindowSizing::Dynamic => host_size,
                WindowSizing::Fixed { .. } => virtual_size,
            }),
    {
        match self {
            WindowSizing::Dynamic => host_size,
            WindowSizing::Fixed { .. } => virtual_size,
        }
    }

    /// Changes the size of a fixed output; a dynamic one stays dynamic.
    pub fn set_fixed_size(&mut self, size: Size)
        ensures
            *final(self) == (if *old(self) is Fixed {
                WindowSizing::Fixed { size }
            } else {
                *old(self)
            }),
    {
        if self.is_fixed() {
            *self = WindowSizing::Fixed { size };
        }
    }
}

/// A compositor window.
#[derive(Debug)]
pub struct AutoWindow {
    id: AutoWindowId,
    host_window_id: Option<u64>,
    output: Option<u64>,
    sizing: WindowSizing,
    host_size: Option<Size>,
    host_fullscreen: bool,
    state: AutoWindowState,
    primary_window: Option<u64>,
    overlay_windows: Vec<u64>,
}

/// Mathematical value of an [`AutoWindow`].
pub struct AutoWindowView {
    pub id: u64,
    pub host_window_id: Option<u64>,
    pub output: Option<u64>,
    pub sizing: WindowSizing,
    pub host_size: Option<Size>,
    pub host_fullscreen: bool,
    pub state: AutoWindowState,
    pub primary: Option<u64>,
    pub overlays: Seq<u64>,
}

impl View for AutoWindow {
    type V = AutoWindowView;

    closed spec fn view(&self) -> AutoWindowView {
        AutoWindowView {
            id: self.id.id(),
            host_window_id: self.host_window_id,
            output: self.output,
            sizing: self.sizing,
            host_size: self.host_size,
            host_fullscreen: self.host_fullscreen,
            state: self.state,
            primary: self.primary_window,
            overlays: self.overlay_windows@,
        }
    }
}

/// The toplevels shown in a window: the primary one first, then the overlays
/// in the order they appeared.
pub open spec fn mapped_of(w: AutoWindowView) -> Seq<u64> {
    match w.primary {
        Some(p) => seq![p] + w.overlays,
        None => w.overlays,
    }
}

pub open spec fn is_empty_view(w: AutoWindowView) -> bool {
    w.primary is None && w.overlays.len() == 0
}

/// The toplevel that gets keyboard focus: the newest overlay, else the primary.
pub open spec fn next_focus_of(w: AutoWindowView) -> Option<u64> {
    if w.overlays.len() > 0 {
        Some(w.overlays.last())
    } else {
        w.primary
    }
}

pub open spec fn index_of_handle(s: Seq<u64>, h: u64) -> int
    decreases s.len(),
{
    if s.len() == 0 {
        -1
    } else if s[0] == h {
        0
    } else {
        let k = index_of_handle(s.drop_first(), h);
        if k < 0 {
            -1
        } else {
            k + 1
        }
    }
}

pub proof fn lemma_index_of_handle(s: Seq<u64>, h: u64)
    ensures
        -1 <= index_of_handle(s, h) < s.len(),
        index_of_handle(s, h) >= 0 ==> s[index_of_handle(s, h)] == h,
        index_of_handle(s, h) >= 0 ==> forall|m: int| 0 <= m < index_of_handle(s, h) ==> s[m] != h,
        index_of_handle(s, h) < 0 <==> !s.contains(h),
    decreases s.len(),
{
    if s.len() > 0 {
        lemma_index_of_handle(s.drop_first(), h);
        if s[0] != h {
            if s.drop_first().contains(h) {
                let j = choose|j: int| 0 <= j < s.drop_first().len() && s.drop_first()[j] == h;
                assert(s[j + 1] == h);
            }
            if s.contains(h) {
                let j = choose|j: int| 0 <= j < s.len() && s[j] == h;
                assert(j > 0);
                assert(s.drop_first()[j - 1] == h);
            }
            let k = index_of_handle(s.drop_first(), h);
            if k >= 0 {
                assert forall|m: int| 0 <= m < k + 1 implies s[m] != h by {
                    if m > 0 {
                        assert(s[m] == s.drop_first()[m - 1]);
                    }
                }
            }
        }
    }
}

fn find_handle(v: &Vec<u64>, h: u64) -> (r: Option<usize>)
    ensures
        match r {
            Some(i) => index_of_handle(v@, h) == i,
            None => index_of_handle(v@, h) == -1,
        },
{
    let mut i: usize = 0;
    while i < v.len()
        invariant
            i <= v@.len(),
            forall|m: int| 0 <= m < i ==> v@[m] != h,
        decreases v@.len() - i,
    {
        if v[i] == h {
            proof {
                lemma_index_of_handle(v@, h);
                let k = index_of_handle(v@, h);
                if k != i {
                    if k < 0 {
                        assert(v@.contains(h));
                    }
                }
            }
            return Some(i);
        }
        i += 1;
    }
    proof {
        lemma_index_of_handle(v@, h);
        if index_of_handle(v@, h) >= 0 {
            assert(v@[index_of_handle(v@, h)] == h);
        }
    }
    None
}

/// What removing a client toplevel from a window does.
pub struct RemovalOutcome {
    /// Whether the toplevel belonged to the window.
    pub removed: bool,
    /// The overlay promoted to primary, when the primary was removed.
    pub promoted: Option<u64>,
    /// Keyboard focus afterwards, when it changes.
    pub focus: Option<Option<u64>>,
}

impl AutoWindow {
    fn new(id: AutoWindowId) -> (r: Self)
        ensures
            r@ == fresh_window(id.id()),
    {
        AutoWindow {
            id,
            host_window_id: None,
            output: None,
            sizing: WindowSizing::Dynamic,
            host_size: None,
            host_fullscreen: false,
            state: AutoWindowState::Empty,
            primary_window: None,
            overlay_windows: Vec::new(),
        }
    }

    pub fn id(&self) -> (r: AutoWindowId)
        ensures
            r.id() == self@.id,
    {
        self.id
    }

    pub fn primary_window(&self) -> (r: Option<u64>)
        ensures
            r == self@.primary,
    {
        self.primary_window
    }

    pub fn host_window_id(&self) -> (r: Option<u64>)
        ensures
            r == self@.host_window_id,
    {
        self.host_window_id
    }

    pub fn output(&self) -> (r: Option<u64>)
        ensures
            r == self@.output,
    {
        self.output
    }

    pub fn set_output(&mut self, output: u64)
        ensures
            final(self)@ == (AutoWindowView { output: Some(output), ..old(self)@ }),
    {
        self.output = Some(output);
    }

    pub fn sizing(&self) -> (r: WindowSizing)
        ensures
            r == self@.sizing,
    {
        self.sizing
    }

    pub fn set_sizing(&mut self, sizing: WindowSizing)
        ensures
            final(self)@ == (AutoWindowView { sizing, ..old(self)@ }),
    {
        self.sizing = sizing;
    }

    pub fn is_fixed(&self) -> (r: bool)
        ensures
            r == (self@.sizing is Fixed),
    {
        self.sizing.is_fixed()
    }

    pub fn host_size(&self) -> (r: Option<Size>)
        ensures
            r == self@.host_size,
    {
        self.host_size
    }

    /// Records the host window's size.
    pub fn set_host_geometry(&mut self, host_size: Size)
        ensures
            final(self)@ == (AutoWindowView { host_size: Some(host_size), ..old(self)@ }),
    {
        self.host_size = Some(host_size);
    }

    /// Changes the virtual size of a fixed-size window.
    pub fn set_virtual_size(&mut self, virtual_size: Size)
        ensures
            final(self)@ == (AutoWindowView {
                sizing: if old(self)@.sizing is Fixed {
                    WindowSizing::Fixed { size: virtual_size }
                } else {
                    old(self)@.sizing
                },
                ..old(self)@
            }),
    {
        self.sizing.set_fixed_size(virtual_size);
    }

    /// Binds the window to a host window of the given geometry.
    pub fn set_host_window(
        &mut self,
        host_window_id: u64,
        host_size: Size,
        virtual_size: Size,
        host_fullscreen: bool,
    )
        ensures
            final(self)@ == (AutoWindowView {
                host_window_id: Some(host_window_id),
                host_size: Some(host_size),
                sizing: if old(self)@.sizing is Fixed {
                    WindowSizing::Fixed { size: virtual_size }
                } else {
                    old(self)@.sizing
                },
                host_fullscreen,
                ..old(self)@
            }),
    {
        self.host_window_id = Some(host_window_id);
        self.host_size = Some(host_size);
        self.sizing.set_fixed_size(virtual_size);
        self.host_fullscreen = host_fullscreen;
    }

    /// The virtual output size when it is known: the fixed size, else the
    /// host size that the embedding compositor converted.
    pub fn fixed_virtual_size(&self) -> (r: Option<Size>)
        ensures
            r == (match self@.sizing {
                WindowSizing::Fixed { size } => Some(size),
                WindowSizing::Dynamic => None,
            }),
    {
        match self.sizing {
            WindowSizing::Fixed { size } => Some(size),
            WindowSizing::Dynamic => None,
        }
    }

    pub fn host_fullscreen(&self) -> (r: bool)
        ensures
            r == self@.host_fullscreen,
    {
        self.host_fullscreen
    }

    /// Sets the host fullscreen flag; tells whether it changed.
    pub fn set_host_fullscreen(&mut self, fullscreen: bool) -> (changed: bool)
        ensures
            changed == (old(self)@.host_fullscreen != fullscreen),
            final(self)@ == (AutoWindowView { host_fullscreen: fullscreen, ..old(self)@ }),
    {
        if self.host_fullscreen == fullscreen {
            return false;
        }
        self.host_fullscreen = fullscreen;
        true
    }

    pub fn state(&self) -> (r: AutoWindowState)
        ensures
            r == self@.state,
    {
        self.state
    }

    pub fn set_state(&mut self, state: AutoWindowState)
        ensures
            final(self)@ == (AutoWindowView { state, ..old(self)@ }),
    {
        self.state = state;
    }

    pub fn has_primary_window(&self) -> (r: bool)
        ensures
            r == self@.primary is Some,
    {
        self.primary_window.is_some()
    }

    pub fn set_primary_window(&mut self, window: u64)
        ensures
            final(self)@ == (AutoWindowView { primary: Some(window), ..old(self)@ }),
    {
        self.primary_window = Some(window);
    }

    pub fn take_primary_window(&mut self) -> (r: Option<u64>)
        ensures
            r == old(self)@.primary,
            final(self)@ == (AutoWindowView { primary: None, ..old(self)@ }),
    {
        self.primary_window.take()
    }

    pub fn push_overlay_window(&mut self, window: u64)
        ensures
            final(self)@ == (AutoWindowView { overlays: old(self)@.overlays.push(window), ..old(self)@ }),
    {
        self.overlay_windows.push(window);
    }

    pub fn overlay_windows(&self) -> (r: &Vec<u64>)
        ensures
            r@ == self@.overlays,
    {
        &self.overlay_windows
    }

    /// The overlay shown for `surface`, if any.
    pub fn find_overlay_by_surface(&self, surface: u64) -> (r: Option<u64>)
        ensures
            r is Some <==> self@.overlays.contains(surface),
            r matches Some(h) ==> h == surface,
    {
        proof {
            lemma_index_of_handle(self@.overlays, surface);
        }
        match find_handle(&self.overlay_windows, surface) {
            Some(i) => Some(self.overlay_windows[i]),
            None => None,
        }
    }

    /// Removes the overlay shown for `surface`.
    pub fn remove_overlay_by_surface(&mut self, surface: u64) -> (r: Option<u64>)
        ensures
            r is Some <==> old(self)@.overlays.contains(surface),
            r matches Some(h) ==> h == surface,
            final(self)@ == (AutoWindowView {
                overlays: if old(self)@.overlays.contains(surface) {
                    old(self)@.overlays.remove(index_of_handle(old(self)@.overlays, surface))
                } else {
                    old(self)@.overlays
                },
                ..old(self)@
            }),
    {
        proof {
            lemma_index_of_handle(self@.overlays, surface);
        }
        match find_handle(&self.overlay_windows, surface) {
            Some(i) => Some(self.overlay_windows.remove(i)),
            None => None,
        }
    }

    /// Makes the newest overlay the primary toplevel.
    pub fn promote_last_overlay(&mut self) -> (r: Option<u64>)
        ensures
            old(self)@.overlays.len() == 0 ==> r is None && final(self)@ == old(self)@,
            old(self)@.overlays.len() > 0 ==> r == Some(old(self)@.overlays.last()) && final(self)@ == (
            AutoWindowView {
                primary: Some(old(self)@.overlays.last()),
                overlays: old(self)@.overlays.drop_last(),
                ..old(self)@
            }),
    {
        match self.overlay_windows.pop() {
            Some(w) => {
                self.primary_window = Some(w);
                assert(self.overlay_windows@ =~= old(self)@.overlays.drop_last());
                Some(w)
            },
            None => None,
        }
    }

    /// The toplevel that gets keyboard focus.
    pub fn next_focus_window(&self) -> (r: Option<u64>)
        ensures
            r == next_focus_of(self@),
    {
        if self.overlay_windows.len() > 0 {
            Some(self.overlay_windows[self.overlay_windows.len() - 1])
        } else {
            self.primary_window
        }
    }

    /// All toplevels shown in this window, the primary one first.
    pub fn mapped_windows(&self) -> (r: Vec<u64>)
        ensures
            r@ == mapped_of(self@),
    {
        let mut r: Vec<u64> = Vec::new();
        if let Some(p) = self.primary_window {
            r.push(p);
        }
        let mut i: usize = 0;
        let ghost head = r@;
        while i < self.overlay_windows.len()
            invariant
                i <= self.overlay_windows@.len(),
                r@ == head + self.overlay_windows@.take(i as int),
            decreases self.overlay_windows@.len() - i,
        {
            r.push(self.overlay_windows[i]);
            assert(head + self.overlay_windows@.take(i + 1) =~= (head + self.overlay_windows@.take(
                i as int,
            )).push(self.overlay_windows@[i as int]));
            i += 1;
        }
        assert(self.overlay_windows@.take(self.overlay_windows@.len() as int) =~= self.overlay_windows@);
        assert(r@ =~= mapped_of(self@));
        r
    }

    /// Whether no client toplevel is shown in this window.
    pub fn is_empty(&self) -> (r: bool)
        ensures
            r == is_empty_view(self@),
    {
        self.primary_window.is_none() && self.overlay_windows.len() == 0
    }

    /// Whether `surface` is one of the toplevels shown in this window.
    pub fn contains_surface(&self, surface: u64) -> (r: bool)
        ensures
            r == mapped_of(self@).contains(surface),
    {
        proof {
            lemma_index_of_handle(self@.overlays, surface);
            if let Some(p) = self@.primary {
                if mapped_of(self@).contains(surface) && p != surface {
                    let j = choose|j: int| 0 <= j < mapped_of(self@).len() && mapped_of(self@)[j] == surface;
                    assert(self@.overlays[j - 1] == surface);
                }
                if self@.overlays.contains(surface) {
                    let j = choose|j: int| 0 <= j < self@.overlays.len() && self@.overlays[j] == surface;
                    assert(mapped_of(self@)[j + 1] == surface);
                }
                assert(mapped_of(self@)[0] == p);
            }
        }
        if let Some(p) = self.primary_window {
            if p == surface {
                return true;
            }
        }
        find_handle(&self.overlay_windows, surface).is_some()
    }

    /// Shows a new client toplevel: it becomes the primary one when there is
    /// none, else an overlay. Returns the toplevel that gets focus: the new one.
    pub fn map_new_toplevel(&mut self, window: u64) -> (focus: u64)
        ensures
            focus == window,
            old(self)@.primary is None ==> final(self)@ == (AutoWindowView { primary: Some(window), ..old(self)@ }),
            old(self)@.primary is Some ==> final(self)@ == (AutoWindowView {
                overlays: old(self)@.overlays.push(window),
                ..old(self)@
            }),
    {
        if self.primary_window.is_none() {
            self.primary_window = Some(window);
        } else {
            self.overlay_windows.push(window);
        }
        window
    }

    /// Removes a client toplevel. Removing the primary one promotes the newest
    /// overlay, which gets focus (no focus when there is none); removing an
    /// overlay gives focus to the newest remaining overlay, else the primary.
    pub fn remove_toplevel(&mut self, surface: u64) -> (r: RemovalOutcome)
        ensures
            old(self)@.primary == Some(surface) ==> {
                &&& r.removed
                &&& if old(self)@.overlays.len() > 0 {
                    &&& r.promoted == Some(old(self)@.overlays.last())
                    &&& r.focus == Some(Some(old(self)@.overlays.last()))
                    &&& final(self)@ == (AutoWindowView {
                        primary: Some(old(self)@.overlays.last()),
                        overlays: old(self)@.overlays.drop_last(),
                        ..old(self)@
                    })
                } else {
                    &&& r.promoted is None
                    &&& r.focus == Some(None::<u64>)
                    &&& final(self)@ == (AutoWindowView { primary: None, ..old(self)@ })
                }
            },
            old(self)@.primary != Some(surface) && old(self)@.overlays.contains(surface) ==> {
                &&& r.removed
                &&& r.promoted is None
                &&& final(self)@ == (AutoWindowView {
                    overlays: old(self)@.overlays.remove(index_of_handle(old(self)@.overlays, surface)),
                    ..old(self)@
                })
                &&& r.focus == Some(next_focus_of(final(self)@))
            },
            old(self)@.primary != Some(surface) && !old(self)@.overlays.contains(surface) ==> {
                &&& !r.removed
                &&& r.promoted is None
                &&& r.focus is None
                &&& final(self)@ == old(self)@
            },
    {
        let is_primary = match self.primary_window {
            Some(p) => p == surface,
            None => false,
        };
        if is_primary {
            self.primary_window = None;
            let promoted = self.promote_last_overlay();
            return RemovalOutcome { removed: true, promoted, focus: Some(promoted) };
        }
        match self.remove_overlay_by_surface(surface) {
            Some(_) => {
                let focus = self.next_focus_window();
                RemovalOutcome { removed: true, promoted: None, focus: Some(focus) }
            },
            None => RemovalOutcome { removed: false, promoted: None, focus: None },
        }
    }
}

/// A window as created: empty, dynamically sized, not bound to a host window.
pub open spec fn fresh_window(id: u64) -> AutoWindowView {
    AutoWindowView {
        id,
        host_window_id: None,
        output: None,
        sizing: WindowSizing::Dynamic,
        host_size: None,
        host_fullscreen: false,
        state: AutoWindowState::Empty,
        primary: None,
        overlays: Seq::empty(),
    }
}

/// The windows of the compositor, by id. Ids are handed out in increasing
/// order and never reused.
#[derive(Debug)]
pub struct WindowRegistry {
    next_id: u64,
    entries: Vec<(AutoWindowId, AutoWindow)>,
}

/// Mathematical value of a [`WindowRegistry`]: the last id handed out, and
/// the ids and windows in increasing id order.
pub struct RegistryView {
    pub next_id: u64,
    pub ids: Seq<u64>,
    pub windows: Seq<AutoWindowView>,
}

/// Ids increase strictly, are positive and at most the last id handed out,
/// and each window carries the id it is registered under.
pub open spec fn registry_wf(r: RegistryView) -> bool {
    &&& r.ids.len() == r.windows.len()
    &&& forall|i: int| 0 <= i < r.ids.len() ==> (#[trigger] r.windows[i]).id == r.ids[i]
    &&& forall|i: int| 0 <= i < r.ids.len() ==> 0 < #[trigger] r.ids[i] <= r.next_id
    &&& forall|i: int, j: int| 0 <= i < j < r.ids.len() ==> r.ids[i] < r.ids[j]
}

/// Ids of the windows in `windows` (with ids `ids`) that are mapped and show
/// a toplevel, in order.
pub open spec fn mapped_ids_spec(ids: Seq<u64>, windows: Seq<AutoWindowView>) -> Seq<u64>
    decreases windows.len(),
{
    if windows.len() == 0 {
        Seq::empty()
    } else {
        let rest = mapped_ids_spec(ids.drop_last(), windows.drop_last());
        if windows.last().state == AutoWindowState::Mapped && !is_empty_view(windows.last()) {
            rest.push(ids.last())
        } else {
            rest
        }
    }
}

/// All toplevels shown in `windows`, window by window.
pub open spec fn all_mapped_spec(windows: Seq<AutoWindowView>) -> Seq<u64>
    decreases windows.len(),
{
    if windows.len() == 0 {
        Seq::empty()
    } else {
        all_mapped_spec(windows.drop_last()) + mapped_of(windows.last())
    }
}

/// Whether some window shows `surface`.
pub open spec fn shows_surface(windows: Seq<AutoWindowView>, surface: u64) -> bool {
    exists|i: int| 0 <= i < windows.len() && mapped_of(#[trigger] windows[i]).contains(surface)
}

/// Ids are distinct: the window an id names is unique.
/// In a sequence without repeats, the position of the element at `k` is `k`.
pub proof fn lemma_index_of_handle_at(s: Seq<u64>, k: int)
    requires
        0 <= k < s.len(),
        forall|i: int, j: int| 0 <= i < s.len() && 0 <= j < s.len() && i != j ==> s[i] != s[j],
    ensures
        index_of_handle(s, s[k]) == k,
{
    lemma_index_of_handle(s, s[k]);
    assert(s.contains(s[k]));
}

pub proof fn lemma_registry_ids_distinct(r: RegistryView)
    requires
        registry_wf(r),
    ensures
        forall|i: int, j: int| 0 <= i < r.ids.len() && 0 <= j < r.ids.len() && i != j ==> r.ids[i] != r.ids[j],
{
    assert forall|i: int, j: int| 0 <= i < r.ids.len() && 0 <= j < r.ids.len() && i != j implies r.ids[i] != r.ids[j] by {
        if i < j {
            assert(r.ids[i] < r.ids[j]);
        } else {
            assert(r.ids[j] < r.ids[i]);
        }
    }
}

proof fn lemma_entries_update(entries: Seq<(AutoWindowId, AutoWindow)>, i: int)
    requires
        0 <= i < entries.len(),
    ensures
        forall|e: (AutoWindowId, AutoWindow)|
            e.0 == entries[i].0 ==> {
                &&& (#[trigger] entries.update(i, e)).map_values(
                    |x: (AutoWindowId, AutoWindow)| x.0.id(),
                ) == entries.map_values(|x: (AutoWindowId, AutoWindow)| x.0.id())
                &&& entries.update(i, e).map_values(|x: (AutoWindowId, AutoWindow)| x.1@)
                    == entries.map_values(|x: (AutoWindowId, AutoWindow)| x.1@).update(i, e.1@)
            },
{
    assert forall|e: (AutoWindowId, AutoWindow)| e.0 == entries[i].0 implies {
        &&& (#[trigger] entries.update(i, e)).map_values(|x: (AutoWindowId, AutoWindow)| x.0.id())
            == entries.map_values(|x: (AutoWindowId, AutoWindow)| x.0.id())
        &&& entries.update(i, e).map_values(|x: (AutoWindowId, AutoWindow)| x.1@)
            == entries.map_values(|x: (AutoWindowId, AutoWindow)| x.1@).update(i, e.1@)
    } by {
        assert(entries.update(i, e).map_values(|x: (AutoWindowId, AutoWindow)| x.0.id())
            =~= entries.map_values(|x: (AutoWindowId, AutoWindow)| x.0.id()));
        assert(entries.update(i, e).map_values(|x: (AutoWindowId, AutoWindow)| x.1@)
            =~= entries.map_values(|x: (AutoWindowId, AutoWindow)| x.1@).update(i, e.1@));
    }
}

impl View for WindowRegistry {
    type V = RegistryView;

    closed spec fn view(&self) -> RegistryView {
        RegistryView {
            next_id: self.next_id,
            ids: self.entries@.map_values(|e: (AutoWindowId, AutoWindow)| e.0.id()),
            windows: self.entries@.map_values(|e: (AutoWindowId, AutoWindow)| e.1@),
        }
    }
}

impl WindowRegistry {
    pub fn new() -> (r: Self)
        ensures
            r@.next_id == 0,
            r@.ids.len() == 0,
            r@.windows.len() == 0,
            registry_wf(r@),
    {
        let r = WindowRegistry { next_id: 0, entries: Vec::new() };
        assert(r@.ids =~= Seq::<u64>::empty());
        r
    }

    /// Registers a new empty window under the next id.
    pub fn create_window(&mut self) -> (id: AutoWindowId)
        requires
            registry_wf(old(self)@),
            old(self)@.next_id < u64::MAX,
        ensures
            registry_wf(final(self)@),
            id.id() == old(self)@.next_id + 1,
            !old(self)@.ids.contains(id.id()),
            final(self)@.next_id == id.id(),
            final(self)@.ids == old(self)@.ids.push(id.id()),
            final(self)@.windows == old(self)@.windows.push(fresh_window(id.id())),
            id.id() >= 1,
            forall|k: int| 0 <= k < old(self)@.ids.len() ==> old(self)@.ids[k] < id.id(),
            is_empty_view(fresh_window(id.id())),
    {
        self.next_id = self.next_id + 1;
        let id = AutoWindowId(self.next_id);
        let w = AutoWindow::new(id);
        let ghost before = self.entries@;
        self.entries.push((id, w));
        assert(self.entries@ == before.push((id, w)));
        assert(final(self)@.ids =~= old(self)@.ids.push(id.id()));
        assert(final(self)@.windows =~= old(self)@.windows.push(fresh_window(id.id())));
        proof {
            if old(self)@.ids.contains(id.id()) {
                let k = choose|k: int| 0 <= k < old(self)@.ids.len() && old(self)@.ids[k] == id.id();
                assert(old(self)@.ids[k] <= old(self)@.next_id);
            }
        }
        id
    }

    fn position(&self, id: AutoWindowId) -> (r: Option<usize>)
        ensures
            match r {
                Some(i) => i < self@.ids.len() && self@.ids[i as int] == id.id() && index_of_handle(self@.ids, id.id()) == i,
                None => !self@.ids.contains(id.id()) && index_of_handle(self@.ids, id.id()) == -1,
            },
    {
        let mut i: usize = 0;
        while i < self.entries.len()
            invariant
                i <= self.entries@.len(),
                self@.ids.len() == self.entries@.len(),
                forall|m: int| 0 <= m < i ==> self@.ids[m] != id.id(),
            decreases self.entries@.len() - i,
        {
            assert(self@.ids[i as int] == self.entries@[i as int].0.id());
            if self.entries[i].0.0 == id.0 {
                proof {
                    lemma_index_of_handle(self@.ids, id.id());
                    let k = index_of_handle(self@.ids, id.id());
                    if k < 0 {
                        assert(self@.ids.contains(id.id()));
                    }
                }
                return Some(i);
            }
            i += 1;
        }
        proof {
            lemma_index_of_handle(self@.ids, id.id());
            if self@.ids.contains(id.id()) {
                let k = choose|k: int| 0 <= k < self@.ids.len() && self@.ids[k] == id.id();
                assert(self@.ids[k] != id.id());
            }
        }
        None
    }

    /// The window with id `id`.
    pub fn get(&self, id: AutoWindowId) -> (r: Option<&AutoWindow>)
        ensures
            r is Some <==> self@.ids.contains(id.id()),
            r matches Some(w) ==> w@ == self@.windows[index_of_handle(self@.ids, id.id())],
            registry_wf(self@) ==> (r matches Some(w) ==> w@.id == id.id()),
    {
        match self.position(id) {
            Some(i) => {
                assert(self@.windows[i as int] == self.entries@[i as int].1@);
                Some(&self.entries[i].1)
            },
            None => None,
        }
    }

    /// The window with id `id`, for changing it.
    pub fn get_mut(&mut self, id: AutoWindowId) -> (r: Option<&mut AutoWindow>)
        ensures
            r is Some <==> old(self)@.ids.contains(id.id()),
            r is None ==> final(self)@ == old(self)@,
            r matches Some(w) ==> {
                &&& w@ == old(self)@.windows[index_of_handle(old(self)@.ids, id.id())]
                &&& final(self)@ == (RegistryView {
                    windows: old(self)@.windows.update(
                        index_of_handle(old(self)@.ids, id.id()),
                        final(w)@,
                    ),
                    ..old(self)@
                })
                &&& registry_wf(old(self)@) ==> w@.id == id.id()
                &&& registry_wf(old(self)@) && final(w)@.id == id.id() ==> registry_wf(
                    final(self)@,
                )
            },
    {
        match self.position(id) {
            Some(i) => {
                proof {
                    lemma_entries_update(self.entries@, i as int);
                }
                let entry = &mut self.entries[i];
                Some(&mut entry.1)
            },
            None => None,
        }
    }

    /// Whether `id` names a window that shows no toplevel or names no window.
    pub fn is_gone(&self, id: AutoWindowId) -> (r: bool)
        ensures
            r == (!self@.ids.contains(id.id()) || is_empty_view(
                self@.windows[index_of_handle(self@.ids, id.id())],
            )),
    {
        match self.get(id) {
            Some(w) => w.is_empty(),
            None => true,
        }
    }

    /// The id of the first window (in id order) that shows `surface`.
    pub fn find_id_by_surface(&self, surface: u64) -> (r: Option<AutoWindowId>)
        requires
            registry_wf(self@),
        ensures
            r is None <==> !shows_surface(self@.windows, surface),
            r matches Some(id) ==> self@.ids.contains(id.id()) && mapped_of(
                self@.windows[index_of_handle(self@.ids, id.id())],
            ).contains(surface),
    {
        let mut i: usize = 0;
        while i < self.entries.len()
            invariant
                i <= self.entries@.len(),
                self@.ids.len() == self.entries@.len(),
                self@.windows.len() == self.entries@.len(),
                forall|m: int| 0 <= m < i ==> !mapped_of(#[trigger] self@.windows[m]).contains(surface),
                registry_wf(self@),
            decreases self.entries@.len() - i,
        {
            assert(self@.windows[i as int] == self.entries@[i as int].1@);
            if self.entries[i].1.contains_surface(surface) {
                let id = self.entries[i].0;
                assert(self@.ids[i as int] == id.id());
                proof {
                    lemma_index_of_handle(self@.ids, id.id());
                    lemma_registry_ids_distinct(self@);
                    assert(self@.ids.contains(id.id()));
                    let k = index_of_handle(self@.ids, id.id());
                    assert(self@.ids[k] == id.id());
                    assert(k == i);
                }
                return Some(id);
            }
            i += 1;
        }
        None
    }

    /// The id of the first window (in id order) bound to host window `host`.
    pub fn find_id_by_host_window(&self, host: u64) -> (r: Option<AutoWindowId>)
        ensures
            r is None <==> !(exists|i: int| 0 <= i < self@.windows.len() && (#[trigger] self@.windows[i]).host_window_id == Some(host)),
            r matches Some(id) ==> exists|i: int| 0 <= i < self@.windows.len() && self@.ids[i] == id.id() && (#[trigger] self@.windows[i]).host_window_id == Some(host),
    {
        let mut i: usize = 0;
        while i < self.entries.len()
            invariant
                i <= self.entries@.len(),
                self@.ids.len() == self.entries@.len(),
                self@.windows.len() == self.entries@.len(),
                forall|m: int| 0 <= m < i ==> (#[trigger] self@.windows[m]).host_window_id != Some(host),
            decreases self.entries@.len() - i,
        {
            assert(self@.windows[i as int] == self.entries@[i as int].1@);
            assert(self@.ids[i as int] == self.entries@[i as int].0.id());
            if self.entries[i].1.host_window_id == Some(host) {
                return Some(self.entries[i].0);
            }
            i += 1;
        }
        None
    }

    /// The toplevel for `surface` when some window shows it.
    pub fn find_window_by_surface(&self, surface: u64) -> (r: Option<u64>)
        requires
            registry_wf(self@),
        ensures
            r is Some <==> shows_surface(self@.windows, surface),
            r matches Some(h) ==> h == surface,
    {
        match self.find_id_by_surface(surface) {
            Some(_) => Some(surface),
            None => None,
        }
    }

    /// Whether no window shows a toplevel.
    pub fn is_empty(&self) -> (r: bool)
        ensures
            r == (forall|i: int| 0 <= i < self@.windows.len() ==> is_empty_view(#[trigger] self@.windows[i])),
    {
        let mut i: usize = 0;
        while i < self.entries.len()
            invariant
                i <= self.entries@.len(),
                self@.windows.len() == self.entries@.len(),
                forall|m: int| 0 <= m < i ==> is_empty_view(#[trigger] self@.windows[m]),
            decreases self.entries@.len() - i,
        {
            assert(self@.windows[i as int] == self.entries@[i as int].1@);
            if !self.entries[i].1.is_empty() {
                return false;
            }
            i += 1;
        }
        true
    }

    /// The smallest id of a window that shows a toplevel.
    pub fn first_alive_id(&self) -> (r: Option<AutoWindowId>)
        requires
            registry_wf(self@),
        ensures
            r is None <==> (forall|i: int| 0 <= i < self@.windows.len() ==> is_empty_view(#[trigger] self@.windows[i])),
            r matches Some(id) ==> exists|k: int| 0 <= k < self@.ids.len() && self@.ids[k] == id.id() && !is_empty_view(#[trigger] self@.windows[k]),
            r matches Some(id) ==> forall|j: int| 0 <= j < self@.ids.len() && !is_empty_view(#[trigger] self@.windows[j]) ==> id.id() <= self@.ids[j],
    {
        let mut i: usize = 0;
        while i < self.entries.len()
            invariant
                i <= self.entries@.len(),
                self@.windows.len() == self.entries@.len(),
                self@.ids.len() == self.entries@.len(),
                registry_wf(self@),
                forall|m: int| 0 <= m < i ==> is_empty_view(#[trigger] self@.windows[m]),
            decreases self.entries@.len() - i,
        {
            assert(self@.windows[i as int] == self.entries@[i as int].1@);
            assert(self@.ids[i as int] == self.entries@[i as int].0.id());
            if !self.entries[i].1.is_empty() {
                let id = self.entries[i].0;
                assert forall|j: int| 0 <= j < self@.ids.len() && !is_empty_view(#[trigger] self@.windows[j]) implies id.id() <= self@.ids[j] by {
                    if j < i {
                        assert(is_empty_view(self@.windows[j]));
                    } else if j > i {
                        assert(self@.ids[i as int] < self@.ids[j]);
                    }
                }
                return Some(id);
            }
            i += 1;
        }
        None
    }

    /// Ids of the mapped windows that show a toplevel, in increasing order.
    pub fn mapped_ids(&self) -> (r: Vec<AutoWindowId>)
        ensures
            r@.map_values(|id: AutoWindowId| id.id()) == mapped_ids_spec(self@.ids, self@.windows),
    {
        let mut r: Vec<AutoWindowId> = Vec::new();
        let mut i: usize = 0;
        while i < self.entries.len()
            invariant
                i <= self.entries@.len(),
                self@.windows.len() == self.entries@.len(),
                self@.ids.len() == self.entries@.len(),
                r@.map_values(|id: AutoWindowId| id.id()) == mapped_ids_spec(
                    self@.ids.take(i as int),
                    self@.windows.take(i as int),
                ),
            decreases self.entries@.len() - i,
        {
            assert(self@.windows[i as int] == self.entries@[i as int].1@);
            assert(self@.ids[i as int] == self.entries@[i as int].0.id());
            assert(self@.ids.take(i + 1).drop_last() =~= self@.ids.take(i as int));
            assert(self@.windows.take(i + 1).drop_last() =~= self@.windows.take(i as int));
            let w = &self.entries[i].1;
            if w.state() == AutoWindowState::Mapped && !w.is_empty() {
                let ghost before = r@;
                r.push(self.entries[i].0);
                assert(r@.map_values(|id: AutoWindowId| id.id()) =~= before.map_values(
                    |id: AutoWindowId| id.id(),
                ).push(self@.ids[i as int]));
            }
            i += 1;
        }
        assert(self@.ids.take(i as int) =~= self@.ids);
        assert(self@.windows.take(i as int) =~= self@.windows);
        r
    }

    /// All toplevels shown, window by window in id order.
    pub fn mapped_windows(&self) -> (r: Vec<u64>)
        ensures
            r@ == all_mapped_spec(self@.windows),
    {
        let mut r: Vec<u64> = Vec::new();
        let mut i: usize = 0;
        while i < self.entries.len()
            invariant
                i <= self.entries@.len(),
                self@.windows.len() == self.entries@.len(),
                r@ == all_mapped_spec(self@.windows.take(i as int)),
            decreases self.entries@.len() - i,
        {
            assert(self@.windows[i as int] == self.entries@[i as int].1@);
            assert(self@.windows.take(i + 1).drop_last() =~= self@.windows.take(i as int));
            let m = self.entries[i].1.mapped_windows();
            let mut k: usize = 0;
            let ghost before = r@;
            while k < m.len()
                invariant
                    k <= m@.len(),
                    r@ == before + m@.take(k as int),
                decreases m@.len() - k,
            {
                r.push(m[k]);
                assert(before + m@.take(k + 1) =~= (before + m@.take(k as int)).push(m@[k as int]));
                k += 1;
            }
            assert(m@.take(m@.len() as int) =~= m@);
            i += 1;
        }
        assert(self@.windows.take(i as int) =~= self@.windows);
        r
    }
}


/// Where an overlay of size `window` is placed on an output of size
/// `output`: centred, but never left of or above the origin. An overlay
/// without an area is not placed.
pub fn overlay_position(output: Size, window: Size) -> (r: Option<(i32, i32)>)
    requires
        window.w > 0 ==> i32::MIN <= output.w - window.w,
        window.h > 0 ==> i32::MIN <= output.h - window.h,
    ensures
        (window.w <= 0 || window.h <= 0) <==> r is None,
        r matches Some((x, y)) ==> {
            &&& x == (if (output.w - window.w) / 2 > 0 { (output.w - window.w) / 2 } else { 0 })
            &&& y == (if (output.h - window.h) / 2 > 0 { (output.h - window.h) / 2 } else { 0 })
        },
{
    if window.w <= 0 || window.h <= 0 {
        return None;
    }
    let dx = output.w - window.w;
    let dy = output.h - window.h;
    let x = if dx / 2 > 0 { dx / 2 } else { 0 };
    let y = if dy / 2 > 0 { dy / 2 } else { 0 };
    Some((x, y))
}

/// Whether the compositor stops: when no window shows a toplevel any more,
/// unless it was asked to stay alive.
pub fn should_exit_when_empty(stay_alive: bool, registry: &WindowRegistry) -> (r: bool)
    ensures
        r == (!stay_alive && forall|i: int|
            0 <= i < registry@.windows.len() ==> is_empty_view(#[trigger] registry@.windows[i])),
{
    !stay_alive && registry.is_empty()
}

} // verus!

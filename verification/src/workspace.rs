//! The workspace store: which window lives on which workspace, which
//! workspace is shown, and which window of each has the focus.
//!
//! The store is described by its view, a [`StoreView`]. Every operation says
//! what it does to that view, and every operation keeps the view well
//! formed: indices stay valid and no window is ever held twice.

use vstd::prelude::*;
use crate::geometry::layout;
use crate::geometry::layout_fits;
use crate::geometry::try_compute;
use crate::geometry::Placement;
use crate::geometry::Rect;
use crate::window::ManagedWindow;
use crate::window::WindowHandle;

verus! {

/// The number of workspaces a new store has.
pub const WORKSPACE_COUNT: usize = 9;

/// What one workspace holds: its windows in stacking order and, if any, the
/// position of the focused one.
pub struct WorkspaceView {
    pub windows: Seq<ManagedWindow>,
    pub active_window: Option<int>,
}

/// The handles of `windows`, in order.
pub open spec fn handles(windows: Seq<ManagedWindow>) -> Seq<WindowHandle> {
    windows.map_values(|w: ManagedWindow| w.handle)
}

/// The handles of the windows that take part in tiling, in order.
pub open spec fn tiled_handles(windows: Seq<ManagedWindow>) -> Seq<WindowHandle>
    decreases windows.len(),
{
    if windows.len() == 0 {
        Seq::empty()
    } else if windows.last().spec_is_tiled() {
        tiled_handles(windows.drop_last()).push(windows.last().handle)
    } else {
        tiled_handles(windows.drop_last())
    }
}

impl WorkspaceView {
    /// The focus, if there is one, points at a window.
    pub open spec fn wf(self) -> bool {
        self.active_window matches Some(a) ==> 0 <= a < self.windows.len()
    }

    pub open spec fn holds(self, h: WindowHandle) -> bool {
        exists|i: int| 0 <= i < self.windows.len() && (#[trigger] self.windows[i]).handle == h
    }

    /// A position of `h`; the only one in a well-formed store.
    pub open spec fn index_of(self, h: WindowHandle) -> int {
        choose|i: int| 0 <= i < self.windows.len() && (#[trigger] self.windows[i]).handle == h
    }

    /// The focused window, if any.
    pub open spec fn focused(self) -> Option<ManagedWindow> {
        match self.active_window {
            Some(a) => Some(self.windows[a]),
            None => None,
        }
    }

    /// The workspace once the window at position `k` has left. The focus
    /// stays on the window it was on; if that window is the one leaving, the
    /// focus passes to the window that followed it, or else to the one before
    /// it, and is lost only when the workspace is left empty.
    pub open spec fn without(self, k: int) -> WorkspaceView {
        WorkspaceView {
            windows: self.windows.remove(k),
            active_window: match self.active_window {
                Some(a) => if a < k {
                    Some(a)
                } else if a > k {
                    Some(a - 1)
                } else if k + 1 < self.windows.len() {
                    Some(k)
                } else if k > 0 {
                    Some(k - 1)
                } else {
                    None
                },
                None => None,
            },
        }
    }

    /// The workspace with `w` added behind its windows.
    pub open spec fn with_last(self, w: ManagedWindow) -> WorkspaceView {
        WorkspaceView { windows: self.windows.push(w), active_window: self.active_window }
    }

    /// The workspace with the focus on position `i`.
    pub open spec fn focused_at(self, i: int) -> WorkspaceView {
        WorkspaceView { windows: self.windows, active_window: Some(i) }
    }

    /// The position after `a`, the first one after the last.
    pub open spec fn next_index(self, a: int) -> int {
        if a + 1 < self.windows.len() {
            a + 1
        } else {
            0
        }
    }

    /// The position before `a`, the last one before the first.
    pub open spec fn prev_index(self, a: int) -> int {
        if a > 0 {
            a - 1
        } else {
            self.windows.len() - 1
        }
    }

    /// The focus moved one window on, around the end; onto the first window
    /// when there was no focus. An empty workspace stays as it is.
    pub open spec fn focus_next(self) -> WorkspaceView {
        if self.windows.len() == 0 {
            self
        } else {
            self.focused_at(
                match self.active_window {
                    Some(a) => self.next_index(a),
                    None => 0,
                },
            )
        }
    }

    /// The focus moved one window back, around the start; onto the last
    /// window when there was no focus. An empty workspace stays as it is.
    pub open spec fn focus_previous(self) -> WorkspaceView {
        if self.windows.len() == 0 {
            self
        } else {
            self.focused_at(
                match self.active_window {
                    Some(a) => self.prev_index(a),
                    None => self.windows.len() - 1,
                },
            )
        }
    }

    /// The windows at positions `a` and `b` exchanged, the focus on `b`.
    pub open spec fn exchanged(self, a: int, b: int) -> WorkspaceView {
        WorkspaceView {
            windows: self.windows.update(a, self.windows[b]).update(b, self.windows[a]),
            active_window: Some(b),
        }
    }

    /// The window at position `a` taken out and put in again at position
    /// `b`, the focus on it.
    pub open spec fn carried(self, a: int, b: int) -> WorkspaceView {
        WorkspaceView {
            windows: self.windows.remove(a).insert(b, self.windows[a]),
            active_window: Some(b),
        }
    }

    /// The focused window exchanged with the one after it, the focus going
    /// along. The last window has none after it: it goes to the front, and
    /// the others keep their order. Without focus the workspace stays as it
    /// is.
    pub open spec fn swap_down(self) -> WorkspaceView {
        match self.active_window {
            Some(a) => if a + 1 < self.windows.len() {
                self.exchanged(a, a + 1)
            } else {
                self.carried(a, 0)
            },
            None => self,
        }
    }

    /// The focused window exchanged with the one before it, the focus going
    /// along. The first window has none before it: it goes to the back, and
    /// the others keep their order. Without focus the workspace stays as it
    /// is.
    pub open spec fn swap_up(self) -> WorkspaceView {
        match self.active_window {
            Some(a) => if a > 0 {
                self.exchanged(a, a - 1)
            } else {
                self.carried(0, self.windows.len() - 1)
            },
            None => self,
        }
    }

    /// The workspace with the window at position `a` replaced by `w`.
    pub open spec fn with_window(self, a: int, w: ManagedWindow) -> WorkspaceView {
        WorkspaceView { windows: self.windows.update(a, w), active_window: self.active_window }
    }

    /// The floating flag of the focused window flipped. Without focus the
    /// workspace stays as it is.
    pub open spec fn toggle_floating(self) -> WorkspaceView {
        match self.active_window {
            Some(a) => self.with_window(
                a,
                ManagedWindow {
                    handle: self.windows[a].handle,
                    floating: !self.windows[a].floating,
                    fullscreen: self.windows[a].fullscreen,
                },
            ),
            None => self,
        }
    }

    /// The fullscreen flag of the focused window flipped. Without focus the
    /// workspace stays as it is.
    pub open spec fn toggle_fullscreen(self) -> WorkspaceView {
        match self.active_window {
            Some(a) => self.with_window(
                a,
                ManagedWindow {
                    handle: self.windows[a].handle,
                    floating: self.windows[a].floating,
                    fullscreen: !self.windows[a].fullscreen,
                },
            ),
            None => self,
        }
    }
}

/// `(a, i)` names a window: workspace `a` exists and has a position `i`.
pub open spec fn slot(workspaces: Seq<WorkspaceView>, a: int, i: int) -> bool {
    0 <= a < workspaces.len() && 0 <= i < workspaces[a].windows.len()
}

pub open spec fn handle_at(workspaces: Seq<WorkspaceView>, a: int, i: int) -> WindowHandle {
    workspaces[a].windows[i].handle
}

/// No handle is held twice, neither on two workspaces nor twice on one.
pub open spec fn partitioned(workspaces: Seq<WorkspaceView>) -> bool {
    forall|a: int, i: int, b: int, j: int|
        slot(workspaces, a, i) && slot(workspaces, b, j) && #[trigger] handle_at(workspaces, a, i)
            == #[trigger] handle_at(workspaces, b, j) ==> a == b && i == j
}

/// The handles of the windows of the first `count` workspaces, in order,
/// with the workspace `shown` left out.
pub open spec fn hidden_handles(workspaces: Seq<WorkspaceView>, shown: int, count: nat) -> Seq<
    WindowHandle,
>
    decreases count,
{
    if count == 0 {
        Seq::empty()
    } else if count - 1 == shown {
        hidden_handles(workspaces, shown, (count - 1) as nat)
    } else {
        hidden_handles(workspaces, shown, (count - 1) as nat) + handles(
            workspaces[count - 1].windows,
        )
    }
}

/// What the store holds.
pub struct StoreView {
    pub workspaces: Seq<WorkspaceView>,
    pub active: int,
    pub previous: int,
}

impl StoreView {
    /// The invariant of the store: the shown workspace and the one shown
    /// before exist, every focus points at a window, and no window is held
    /// twice.
    pub open spec fn wf(self) -> bool {
        &&& 0 <= self.active < self.workspaces.len()
        &&& 0 <= self.previous < self.workspaces.len()
        &&& forall|a: int| 0 <= a < self.workspaces.len() ==> (#[trigger] self.workspaces[a]).wf()
        &&& partitioned(self.workspaces)
    }

    /// Some workspace holds `h`.
    pub open spec fn manages(self, h: WindowHandle) -> bool {
        exists|a: int| 0 <= a < self.workspaces.len() && (#[trigger] self.workspaces[a]).holds(h)
    }

    /// A workspace that holds `h`; the only one in a well-formed store.
    pub open spec fn workspace_of(self, h: WindowHandle) -> int {
        choose|a: int| 0 <= a < self.workspaces.len() && (#[trigger] self.workspaces[a]).holds(h)
    }

    /// The store with workspace `a` replaced.
    pub open spec fn with_workspace(self, a: int, w: WorkspaceView) -> StoreView {
        StoreView {
            workspaces: self.workspaces.update(a, w),
            active: self.active,
            previous: self.previous,
        }
    }

    /// The store without `h`; the store itself when it does not manage `h`.
    pub open spec fn detach(self, h: WindowHandle) -> StoreView {
        if self.manages(h) {
            let a = self.workspace_of(h);
            self.with_workspace(a, self.workspaces[a].without(self.workspaces[a].index_of(h)))
        } else {
            self
        }
    }

    /// The store with `w` added behind the windows of workspace `a`.
    pub open spec fn attach(self, a: int, w: ManagedWindow) -> StoreView {
        self.with_workspace(a, self.workspaces[a].with_last(w))
    }

    /// The store with the focus of the workspace that holds `h` on `h`; the
    /// store itself when it does not manage `h`.
    pub open spec fn with_focus_on(self, h: WindowHandle) -> StoreView {
        if self.manages(h) {
            let a = self.workspace_of(h);
            self.with_workspace(a, self.workspaces[a].focused_at(self.workspaces[a].index_of(h)))
        } else {
            self
        }
    }

    /// The store showing workspace `a`; the one shown before is remembered
    /// as the one to hide.
    pub open spec fn switched_to(self, a: int) -> StoreView {
        StoreView { workspaces: self.workspaces, active: a, previous: self.active }
    }

    /// The workspace that is shown.
    pub open spec fn current(self) -> WorkspaceView {
        self.workspaces[self.active]
    }

    /// `a` names a workspace.
    pub open spec fn has_workspace(self, a: int) -> bool {
        0 <= a < self.workspaces.len()
    }

    /// The store after `h` was inserted into workspace `a`, as a tiled
    /// window behind the others. A window the store already manages leaves
    /// its old place first. An index that names no workspace changes
    /// nothing.
    pub open spec fn insert(self, a: int, h: WindowHandle) -> StoreView {
        if self.has_workspace(a) {
            self.detach(h).attach(a, ManagedWindow { handle: h, floating: false, fullscreen: false })
        } else {
            self
        }
    }

    /// The store after workspace `a` was made the shown one. An index that
    /// names no workspace changes nothing.
    pub open spec fn set_active(self, a: int) -> StoreView {
        if self.has_workspace(a) {
            self.switched_to(a)
        } else {
            self
        }
    }

    /// Whether there is a window to move to workspace `a`: the shown
    /// workspace has a focused window, and `a` names a workspace.
    pub open spec fn can_move_focused(self, a: int) -> bool {
        self.has_workspace(a) && self.current().active_window is Some
    }

    /// The store after the focused window of the shown workspace was moved
    /// behind the windows of workspace `a`, flags and all. Without a focused
    /// window, or with an index that names no workspace, nothing changes.
    pub open spec fn move_focused(self, a: int) -> StoreView {
        if self.can_move_focused(a) {
            let w = self.current().focused()->0;
            self.detach(w.handle).attach(a, w)
        } else {
            self
        }
    }

    /// The store with the shown workspace replaced.
    pub open spec fn with_current(self, w: WorkspaceView) -> StoreView {
        self.with_workspace(self.active, w)
    }

    /// A workspace is visible exactly when it is the active one.
    pub open spec fn visible(self, a: int) -> bool {
        a == self.active
    }

    /// The windows to keep off the screen: those of every workspace but
    /// the shown one, workspace by workspace. The windows of the workspace
    /// shown before are among them, unless it is still the one shown.
    pub open spec fn to_hide(self) -> Seq<WindowHandle> {
        hidden_handles(self.workspaces, self.active, self.workspaces.len())
    }

    /// The windows to tile at the next refresh.
    pub open spec fn to_tile(self) -> Seq<WindowHandle> {
        tiled_handles(self.current().windows)
    }
}

/// In a partitioned store a handle has one place only: the place where
/// it is found is the place the view speaks of.
pub proof fn lemma_place_is_unique(s: StoreView, h: WindowHandle, a: int, i: int)
    requires
        partitioned(s.workspaces),
        slot(s.workspaces, a, i),
        handle_at(s.workspaces, a, i) == h,
    ensures
        s.manages(h),
        s.workspace_of(h) == a,
        s.workspaces[a].index_of(h) == i,
        s.detach(h) == s.with_workspace(a, s.workspaces[a].without(i)),
{
    assert(s.workspaces[a].holds(h));
    let b = s.workspace_of(h);
    let j = s.workspaces[b].index_of(h);
    assert(handle_at(s.workspaces, b, j) == h);
    let k = s.workspaces[a].index_of(h);
    assert(handle_at(s.workspaces, a, k) == h);
}

/// Taking a window out keeps the store well formed, and leaves no trace
/// of the window.
pub proof fn lemma_detach_preserves_wf(s: StoreView, h: WindowHandle)
    requires
        s.wf(),
    ensures
        s.detach(h).wf(),
        !s.detach(h).manages(h),
        s.detach(h).workspaces.len() == s.workspaces.len(),
        s.detach(h).active == s.active,
        s.detach(h).previous == s.previous,
        forall|g: WindowHandle| g != h ==> (s.detach(h).manages(g) <==> s.manages(g)),
{
    let t = s.detach(h);
    if s.manages(h) {
        let a = s.workspace_of(h);
        let i = s.workspaces[a].index_of(h);
        // every place of the new store comes from a place of the old one
        assert forall|b: int, j: int| slot(t.workspaces, b, j) implies slot(
            s.workspaces,
            b,
            if b == a && j >= i {
                j + 1
            } else {
                j
            },
        ) && handle_at(t.workspaces, b, j) == handle_at(
            s.workspaces,
            b,
            if b == a && j >= i {
                j + 1
            } else {
                j
            },
        ) by {}
        assert forall|b: int, j: int, c: int, k: int|
            slot(t.workspaces, b, j) && slot(t.workspaces, c, k) && #[trigger] handle_at(
                t.workspaces,
                b,
                j,
            ) == #[trigger] handle_at(t.workspaces, c, k) implies b == c && j == k by {
            let j0 = if b == a && j >= i { j + 1 } else { j };
            let k0 = if c == a && k >= i { k + 1 } else { k };
            assert(handle_at(s.workspaces, b, j0) == handle_at(s.workspaces, c, k0));
        }
        assert forall|b: int| 0 <= b < t.workspaces.len() implies !(#[trigger] t.workspaces[b]).holds(
            h,
        ) by {
            if t.workspaces[b].holds(h) {
                let j = t.workspaces[b].index_of(h);
                let j0 = if b == a && j >= i { j + 1 } else { j };
                assert(handle_at(t.workspaces, b, j) == h);
                assert(handle_at(s.workspaces, b, j0) == handle_at(s.workspaces, a, i));
            }
        }
        assert forall|g: WindowHandle| g != h implies (t.manages(g) <==> s.manages(g)) by {
            if s.manages(g) {
                let b = s.workspace_of(g);
                let j = s.workspaces[b].index_of(g);
                let j1 = if b == a && j > i { j - 1 } else { j };
                assert(handle_at(s.workspaces, b, j) == g);
                assert(t.workspaces[b].windows[j1].handle == g);
                assert(t.workspaces[b].holds(g));
            }
            if t.manages(g) {
                let b = t.workspace_of(g);
                let j = t.workspaces[b].index_of(g);
                let j0 = if b == a && j >= i { j + 1 } else { j };
                assert(handle_at(t.workspaces, b, j) == g);
                assert(s.workspaces[b].windows[j0].handle == g);
                assert(s.workspaces[b].holds(g));
            }
        }
    }
}

/// Adding a window the store does not manage keeps the store well formed.
pub proof fn lemma_attach_preserves_wf(s: StoreView, a: int, w: ManagedWindow)
    requires
        s.wf(),
        0 <= a < s.workspaces.len(),
        !s.manages(w.handle),
    ensures
        s.attach(a, w).wf(),
        s.attach(a, w).manages(w.handle),
        forall|g: WindowHandle| s.manages(g) ==> s.attach(a, w).manages(g),
{
    let t = s.attach(a, w);
    let n = s.workspaces[a].windows.len() as int;
    assert forall|b: int, j: int, c: int, k: int|
        slot(t.workspaces, b, j) && slot(t.workspaces, c, k) && #[trigger] handle_at(
            t.workspaces,
            b,
            j,
        ) == #[trigger] handle_at(t.workspaces, c, k) implies b == c && j == k by {
        if b == a && j == n {
            if !(c == a && k == n) {
                assert(handle_at(s.workspaces, c, k) == w.handle);
                assert(s.workspaces[c].holds(w.handle));
            }
        } else if c == a && k == n {
            assert(handle_at(s.workspaces, b, j) == w.handle);
            assert(s.workspaces[b].holds(w.handle));
        } else {
            assert(handle_at(s.workspaces, b, j) == handle_at(s.workspaces, c, k));
        }
    }
    assert(t.workspaces[a].windows[n].handle == w.handle);
    assert(t.workspaces[a].holds(w.handle));
    assert forall|g: WindowHandle| s.manages(g) implies t.manages(g) by {
        let b = s.workspace_of(g);
        let j = s.workspaces[b].index_of(g);
        assert(t.workspaces[b].windows[j].handle == g);
        assert(t.workspaces[b].holds(g));
    }
}

/// Rearranging or re-flagging the windows of one workspace keeps the store
/// well formed, as long as each handle of the old arrangement has one
/// position in the new one.
proof fn lemma_rearranged_preserves_wf(
    s: StoreView,
    a: int,
    w: WorkspaceView,
    origin: spec_fn(int) -> int,
)
    requires
        s.wf(),
        0 <= a < s.workspaces.len(),
        w.wf(),
        w.windows.len() == s.workspaces[a].windows.len(),
        forall|j: int|
            0 <= j < w.windows.len() ==> 0 <= #[trigger] origin(j) < w.windows.len()
                && w.windows[j].handle == s.workspaces[a].windows[origin(j)].handle,
        forall|j: int, k: int|
            0 <= j < w.windows.len() && 0 <= k < w.windows.len() && #[trigger] origin(j)
                == #[trigger] origin(k) ==> j == k,
    ensures
        s.with_workspace(a, w).wf(),
{
    let t = s.with_workspace(a, w);
    assert forall|b: int, j: int, c: int, k: int|
        slot(t.workspaces, b, j) && slot(t.workspaces, c, k) && #[trigger] handle_at(
            t.workspaces,
            b,
            j,
        ) == #[trigger] handle_at(t.workspaces, c, k) implies b == c && j == k by {
        let j0 = if b == a { origin(j) } else { j };
        let k0 = if c == a { origin(k) } else { k };
        assert(handle_at(s.workspaces, b, j0) == handle_at(s.workspaces, c, k0));
    }
}

/// An operation on the store.
pub enum StoreOp {
    Insert(usize, WindowHandle),
    Remove(WindowHandle),
    MoveFocused(usize),
    SetActive(usize),
    SetActiveWindow(WindowHandle),
}

impl StoreView {
    /// The store after one operation.
    pub open spec fn after(self, op: StoreOp) -> StoreView {
        match op {
            StoreOp::Insert(a, h) => self.insert(a as int, h),
            StoreOp::Remove(h) => self.detach(h),
            StoreOp::MoveFocused(a) => self.move_focused(a as int),
            StoreOp::SetActive(a) => self.set_active(a as int),
            StoreOp::SetActiveWindow(h) => self.with_focus_on(h),
        }
    }

    /// The store after a sequence of operations, first to last.
    pub open spec fn after_all(self, ops: Seq<StoreOp>) -> StoreView
        decreases ops.len(),
    {
        if ops.len() == 0 {
            self
        } else {
            self.after_all(ops.drop_last()).after(ops.last())
        }
    }
}

/// In a well-formed store no window is on two workspaces, nor twice on
/// one.
pub proof fn lemma_one_place_per_window(
    s: StoreView,
    h: WindowHandle,
    a: int,
    i: int,
    b: int,
    j: int,
)
    requires
        s.wf(),
        slot(s.workspaces, a, i),
        slot(s.workspaces, b, j),
        s.workspaces[a].windows[i].handle == h,
        s.workspaces[b].windows[j].handle == h,
    ensures
        a == b,
        i == j,
{
    assert(handle_at(s.workspaces, a, i) == handle_at(s.workspaces, b, j));
}

/// One operation keeps the store well formed.
pub proof fn lemma_operation_preserves_wf(s: StoreView, op: StoreOp)
    requires
        s.wf(),
    ensures
        s.after(op).wf(),
{
    match op {
        StoreOp::Insert(a, h) => {
            if s.has_workspace(a as int) {
                lemma_detach_preserves_wf(s, h);
                lemma_attach_preserves_wf(
                    s.detach(h),
                    a as int,
                    ManagedWindow { handle: h, floating: false, fullscreen: false },
                );
            }
        },
        StoreOp::Remove(h) => {
            lemma_detach_preserves_wf(s, h);
        },
        StoreOp::MoveFocused(a) => {
            if s.can_move_focused(a as int) {
                let w = s.current().focused()->0;
                lemma_detach_preserves_wf(s, w.handle);
                lemma_attach_preserves_wf(s.detach(w.handle), a as int, w);
            }
        },
        StoreOp::SetActive(a) => {},
        StoreOp::SetActiveWindow(h) => {
            if s.manages(h) {
                let a = s.workspace_of(h);
                let i = s.workspaces[a].index_of(h);
                lemma_rearranged_preserves_wf(s, a, s.workspaces[a].focused_at(i), |j: int| j);
            }
        },
    }
}

/// Whatever is inserted, removed, moved or shown, and in whatever order,
/// the store stays well formed: every window it manages is on one
/// workspace, and there once.
pub proof fn lemma_store_stays_partitioned(s: StoreView, ops: Seq<StoreOp>)
    requires
        s.wf(),
    ensures
        s.after_all(ops).wf(),
        partitioned(s.after_all(ops).workspaces),
    decreases ops.len(),
{
    if ops.len() > 0 {
        lemma_store_stays_partitioned(s, ops.drop_last());
        lemma_operation_preserves_wf(s.after_all(ops.drop_last()), ops.last());
    }
}

/// One workspace.
pub struct Workspace {
    windows: Vec<ManagedWindow>,
    active_window: Option<usize>,
}

impl View for Workspace {
    type V = WorkspaceView;

    closed spec fn view(&self) -> WorkspaceView {
        WorkspaceView {
            windows: self.windows@,
            active_window: match self.active_window {
                Some(a) => Some(a as int),
                None => None,
            },
        }
    }
}

impl Workspace {
    /// An empty workspace without focus.
    pub fn new() -> (w: Self)
        ensures
            w@.windows.len() == 0,
            w@.active_window is None,
    {
        Self { windows: Vec::new(), active_window: None }
    }
}

/// The store of all workspaces.
pub struct Workspaces {
    workspaces: Vec<Workspace>,
    active_workspace: usize,
    previous_workspace: usize,
}

impl View for Workspaces {
    type V = StoreView;

    closed spec fn view(&self) -> StoreView {
        StoreView {
            workspaces: self.workspaces@.map_values(|w: Workspace| w@),
            active: self.active_workspace as int,
            previous: self.previous_workspace as int,
        }
    }
}

/// Why the store refused an operation.
#[derive(Clone, Copy, Debug, PartialEq, Eq, Structural)]
pub enum StoreError {
    /// The workspace index names no workspace.
    InvalidWorkspace,
}

impl Workspaces {
    /// The invariant of the store.
    pub open spec fn wf(&self) -> bool {
        self@.wf()
    }

    /// A store of [`WORKSPACE_COUNT`] empty workspaces, showing the first.
    pub fn new() -> (s: Self)
        ensures
            s.wf(),
            s@.workspaces.len() == WORKSPACE_COUNT,
            forall|a: int|
                0 <= a < WORKSPACE_COUNT ==> (#[trigger] s@.workspaces[a]).windows.len() == 0
                    && s@.workspaces[a].active_window is None,
            s@.active == 0,
            s@.previous == 0,
    {
        let mut workspaces: Vec<Workspace> = Vec::new();
        let mut k: usize = 0;
        while k < WORKSPACE_COUNT
            invariant
                k <= WORKSPACE_COUNT,
                workspaces@.len() == k,
                forall|a: int|
                    0 <= a < k ==> (#[trigger] workspaces@[a])@.windows.len() == 0
                        && workspaces@[a]@.active_window is None,
            decreases WORKSPACE_COUNT - k,
        {
            workspaces.push(Workspace::new());
            k = k + 1;
        }
        Self { workspaces, active_workspace: 0, previous_workspace: 0 }
    }

    /// The number of workspaces.
    pub fn len(&self) -> (n: usize)
        ensures
            n == self@.workspaces.len(),
    {
        self.workspaces.len()
    }

    /// The workspace that is shown.
    pub fn active(&self) -> (a: usize)
        ensures
            a == self@.active,
    {
        self.active_workspace
    }

    /// The workspace that was shown before the last switch.
    pub fn previous(&self) -> (a: usize)
        ensures
            a == self@.previous,
    {
        self.previous_workspace
    }

    /// Whether workspace `workspace` is on screen.
    pub fn is_visible(&self, workspace: usize) -> (v: bool)
        ensures
            v == self@.visible(workspace as int),
    {
        workspace == self.active_workspace
    }

    /// Shows `workspace` and remembers the one shown before. An index that
    /// names no workspace changes nothing. Returns whether the geometry is
    /// to be refreshed.
    pub fn set_active(&mut self, workspace: usize) -> (refresh: bool)
        requires
            old(self).wf(),
        ensures
            final(self).wf(),
            final(self)@ == old(self)@.set_active(workspace as int),
            refresh == old(self)@.has_workspace(workspace as int),
    {
        if workspace < self.workspaces.len() {
            self.previous_workspace = self.active_workspace;
            self.active_workspace = workspace;
            true
        } else {
            false
        }
    }
}

impl Workspaces {
    /// Where `window` is held: workspace and position.
    fn locate(&self, window: WindowHandle) -> (place: Option<(usize, usize)>)
        requires
            self.wf(),
        ensures
            match place {
                Some((a, i)) => slot(self@.workspaces, a as int, i as int) && handle_at(
                    self@.workspaces,
                    a as int,
                    i as int,
                ) == window,
                None => !self@.manages(window),
            },
    {
        let n = self.workspaces.len();
        let mut a: usize = 0;
        while a < n
            invariant
                n == self.workspaces@.len(),
                a <= n,
                forall|b: int| 0 <= b < a ==> !(#[trigger] self@.workspaces[b]).holds(window),
            decreases n - a,
        {
            let m = self.workspaces[a].windows.len();
            let mut i: usize = 0;
            while i < m
                invariant
                    a < n,
                    n == self.workspaces@.len(),
                    m == self.workspaces@[a as int].windows@.len(),
                    i <= m,
                    forall|j: int|
                        0 <= j < i ==> (#[trigger] self.workspaces@[a as int].windows@[j]).handle
                            != window,
                decreases m - i,
            {
                if self.workspaces[a].windows[i].handle == window {
                    return Some((a, i));
                }
                i = i + 1;
            }
            assert(!self@.workspaces[a as int].holds(window));
            a = a + 1;
        }
        None
    }

    /// Takes the window at position `i` of workspace `a` out of the store.
    fn take_at(&mut self, a: usize, i: usize) -> (w: ManagedWindow)
        requires
            old(self).wf(),
            slot(old(self)@.workspaces, a as int, i as int),
        ensures
            w == old(self)@.workspaces[a as int].windows[i as int],
            final(self)@ == old(self)@.with_workspace(
                a as int,
                old(self)@.workspaces[a as int].without(i as int),
            ),
    {
        let count = self.workspaces[a].windows.len();
        let w = self.workspaces[a].windows.remove(i);
        let focus = match self.workspaces[a].active_window {
            Some(f) => if f < i {
                Some(f)
            } else if f > i {
                Some(f - 1)
            } else if i + 1 < count {
                Some(i)
            } else if i > 0 {
                Some(i - 1)
            } else {
                None
            },
            None => None,
        };
        self.workspaces[a].active_window = focus;
        assert(self@.workspaces =~= old(self)@.workspaces.update(
            a as int,
            old(self)@.workspaces[a as int].without(i as int),
        ));
        w
    }

    /// Adds `w` behind the windows of workspace `a`.
    fn put_last(&mut self, a: usize, w: ManagedWindow)
        requires
            a < old(self)@.workspaces.len(),
        ensures
            final(self)@ == old(self)@.attach(a as int, w),
    {
        self.workspaces[a].windows.push(w);
        assert(self@.workspaces =~= old(self)@.workspaces.update(
            a as int,
            old(self)@.workspaces[a as int].with_last(w),
        ));
    }

    /// Whether the store manages `window`.
    pub fn contains(&self, window: WindowHandle) -> (b: bool)
        requires
            self.wf(),
        ensures
            b == self@.manages(window),
    {
        self.locate(window).is_some()
    }

    /// The workspace that holds `window`, if any does.
    pub fn workspace_of(&self, window: WindowHandle) -> (r: Option<usize>)
        requires
            self.wf(),
        ensures
            match r {
                Some(a) => self@.manages(window) && a == self@.workspace_of(window),
                None => !self@.manages(window),
            },
    {
        match self.locate(window) {
            Some((a, i)) => {
                proof {
                    lemma_place_is_unique(self@, window, a as int, i as int);
                }
                Some(a)
            },
            None => None,
        }
    }

    /// Puts `window` behind the windows of `workspace`, as a tiled window.
    /// A window the store already manages leaves its old place first, so
    /// that it is never held twice. Fails, and changes nothing, when
    /// `workspace` names no workspace.
    pub fn insert_window(&mut self, workspace: usize, window: WindowHandle) -> (r: Result<
        (),
        StoreError,
    >)
        requires
            old(self).wf(),
        ensures
            final(self).wf(),
            final(self)@ == old(self)@.insert(workspace as int, window),
            r == if old(self)@.has_workspace(workspace as int) {
                Ok::<(), StoreError>(())
            } else {
                Err::<(), StoreError>(StoreError::InvalidWorkspace)
            },
    {
        if workspace >= self.workspaces.len() {
            return Err(StoreError::InvalidWorkspace);
        }
        let _ = self.remove_window(window);
        proof {
            lemma_detach_preserves_wf(old(self)@, window);
            lemma_attach_preserves_wf(self@, workspace as int, ManagedWindow {
                handle: window,
                floating: false,
                fullscreen: false,
            });
        }
        self.put_last(workspace, ManagedWindow::new(window));
        Ok(())
    }

    /// Takes `window` out of whichever workspace holds it. A window the
    /// store does not manage changes nothing. Returns whether a window was
    /// taken out.
    pub fn remove_window(&mut self, window: WindowHandle) -> (removed: bool)
        requires
            old(self).wf(),
        ensures
            final(self).wf(),
            removed == old(self)@.manages(window),
            final(self)@ == old(self)@.detach(window),
            !final(self)@.manages(window),
    {
        proof {
            lemma_detach_preserves_wf(self@, window);
        }
        match self.locate(window) {
            Some((a, i)) => {
                proof {
                    lemma_place_is_unique(self@, window, a as int, i as int);
                }
                let _ = self.take_at(a, i);
                true
            },
            None => false,
        }
    }

    /// Puts the focus of the workspace that holds `window` on it. A window
    /// the store does not manage changes nothing.
    pub fn set_active_window(&mut self, window: WindowHandle)
        requires
            old(self).wf(),
        ensures
            final(self).wf(),
            final(self)@ == old(self)@.with_focus_on(window),
    {
        match self.locate(window) {
            Some((a, i)) => {
                proof {
                    lemma_place_is_unique(self@, window, a as int, i as int);
                }
                self.workspaces[a].active_window = Some(i);
                assert(self@.workspaces =~= old(self)@.workspaces.update(
                    a as int,
                    old(self)@.workspaces[a as int].focused_at(i as int),
                ));
                assert forall|b: int, j: int| slot(self@.workspaces, b, j) implies handle_at(
                    self@.workspaces,
                    b,
                    j,
                ) == handle_at(old(self)@.workspaces, b, j) && slot(old(self)@.workspaces, b, j) by {}
            },
            None => {},
        }
    }

    /// Moves the focused window of the shown workspace behind the windows
    /// of `workspace`; its flags travel with it. Nothing changes when the
    /// shown workspace has no focused window, or when `workspace` names no
    /// workspace. Returns whether the geometry is to be refreshed.
    pub fn move_window(&mut self, workspace: usize) -> (refresh: bool)
        requires
            old(self).wf(),
        ensures
            final(self).wf(),
            final(self)@ == old(self)@.move_focused(workspace as int),
            refresh == old(self)@.can_move_focused(workspace as int),
    {
        if workspace >= self.workspaces.len() {
            return false;
        }
        let shown = self.active_workspace;
        match self.workspaces[shown].active_window {
            Some(i) => {
                proof {
                    let h = self@.workspaces[shown as int].windows[i as int].handle;
                    lemma_place_is_unique(self@, h, shown as int, i as int);
                    lemma_detach_preserves_wf(self@, h);
                }
                let w = self.take_at(shown, i);
                proof {
                    lemma_attach_preserves_wf(self@, workspace as int, w);
                }
                self.put_last(workspace, w);
                true
            },
            None => false,
        }
    }
}

/// What a refresh of the geometry asks of the display server: windows to
/// keep off the screen, and windows to put where.
pub struct Refresh {
    pub hidden: Vec<WindowHandle>,
    pub placements: Vec<Placement>,
}

impl Workspaces {
    /// The windows of `workspace` in stacking order; none for an index that
    /// names no workspace.
    pub fn windows(&self, workspace: usize) -> (v: Vec<WindowHandle>)
        ensures
            v@ == if workspace < self@.workspaces.len() {
                handles(self@.workspaces[workspace as int].windows)
            } else {
                Seq::empty()
            },
    {
        let mut v: Vec<WindowHandle> = Vec::new();
        if workspace < self.workspaces.len() {
            let n = self.workspaces[workspace].windows.len();
            let mut i: usize = 0;
            while i < n
                invariant
                    workspace < self.workspaces@.len(),
                    n == self.workspaces@[workspace as int].windows@.len(),
                    i <= n,
                    v@ == handles(self@.workspaces[workspace as int].windows.take(i as int)),
                decreases n - i,
            {
                v.push(self.workspaces[workspace].windows[i].handle);
                proof {
                    let all = self@.workspaces[workspace as int].windows;
                    assert(v@ =~= handles(all.take(i + 1)));
                }
                i = i + 1;
            }
            proof {
                let all = self@.workspaces[workspace as int].windows;
                assert(all.take(n as int) == all);
            }
        }
        v
    }

    /// The windows of `workspace` that take part in tiling, in stacking
    /// order; none for an index that names no workspace.
    pub fn tiled_windows(&self, workspace: usize) -> (v: Vec<WindowHandle>)
        ensures
            v@ == if workspace < self@.workspaces.len() {
                tiled_handles(self@.workspaces[workspace as int].windows)
            } else {
                Seq::empty()
            },
    {
        let mut v: Vec<WindowHandle> = Vec::new();
        if workspace < self.workspaces.len() {
            let n = self.workspaces[workspace].windows.len();
            let mut i: usize = 0;
            while i < n
                invariant
                    workspace < self.workspaces@.len(),
                    n == self.workspaces@[workspace as int].windows@.len(),
                    i <= n,
                    v@ == tiled_handles(self@.workspaces[workspace as int].windows.take(i as int)),
                decreases n - i,
            {
                proof {
                    let all = self@.workspaces[workspace as int].windows;
                    assert(all.take(i + 1).drop_last() == all.take(i as int));
                }
                let w = self.workspaces[workspace].windows[i];
                if w.is_tiled() {
                    v.push(w.handle);
                }
                i = i + 1;
            }
            proof {
                let all = self@.workspaces[workspace as int].windows;
                assert(all.take(n as int) == all);
            }
        }
        v
    }

    /// How many windows the shown workspace holds.
    pub fn active_window_count(&self) -> (n: usize)
        requires
            self.wf(),
        ensures
            n == self@.current().windows.len(),
    {
        self.workspaces[self.active_workspace].windows.len()
    }

    /// The focused window of `workspace`, with its flags.
    pub fn active_window(&self, workspace: usize) -> (w: Option<ManagedWindow>)
        requires
            self.wf(),
        ensures
            w == if workspace < self@.workspaces.len() {
                self@.workspaces[workspace as int].focused()
            } else {
                None::<ManagedWindow>
            },
    {
        if workspace < self.workspaces.len() {
            match self.workspaces[workspace].active_window {
                Some(i) => Some(self.workspaces[workspace].windows[i]),
                None => None,
            }
        } else {
            None
        }
    }

    /// The windows of every workspace but the shown one.
    pub fn hidden_windows(&self) -> (hidden: Vec<WindowHandle>)
        ensures
            hidden@ == self@.to_hide(),
    {
        let n = self.workspaces.len();
        let mut hidden: Vec<WindowHandle> = Vec::new();
        let mut a: usize = 0;
        while a < n
            invariant
                n == self.workspaces@.len(),
                a <= n,
                hidden@ == hidden_handles(self@.workspaces, self@.active, a as nat),
            decreases n - a,
        {
            if a != self.active_workspace {
                let mut more = self.windows(a);
                hidden.append(&mut more);
            }
            a = a + 1;
        }
        hidden
    }

    /// What the display server has to do so that the screen shows the
    /// store: keep the windows of the workspaces that are not shown off the
    /// screen, and tile those of the workspace that is. `None` when a tile
    /// does not fit into 32-bit coordinates.
    pub fn refresh_geometry(&self, output: Rect, gap: i32) -> (r: Option<Refresh>)
        requires
            self.wf(),
        ensures
            match r {
                Some(refresh) => layout_fits(self@.to_tile().len(), output, gap as int)
                    && refresh.hidden@ == self@.to_hide() && refresh.placements@ == layout(
                    self@.to_tile(),
                    output,
                    gap as int,
                ),
                None => !layout_fits(self@.to_tile().len(), output, gap as int),
            },
    {
        let tiled = self.tiled_windows(self.active_workspace);
        match try_compute(&tiled, output, gap) {
            Some(placements) => Some(Refresh { hidden: self.hidden_windows(), placements }),
            None => None,
        }
    }

    /// Puts the focus of the shown workspace on position `focus`.
    fn refocus(&mut self, focus: usize)
        requires
            old(self).wf(),
            focus < old(self)@.current().windows.len(),
        ensures
            final(self).wf(),
            final(self)@ == old(self)@.with_workspace(
                old(self)@.active,
                old(self)@.current().focused_at(focus as int),
            ),
    {
        let shown = self.active_workspace;
        proof {
            lemma_rearranged_preserves_wf(
                self@,
                shown as int,
                self@.current().focused_at(focus as int),
                |j: int| j,
            );
        }
        self.workspaces[shown].active_window = Some(focus);
        assert(self@.workspaces =~= old(self)@.workspaces.update(
            shown as int,
            old(self)@.current().focused_at(focus as int),
        ));
    }

    /// Exchanges the windows at positions `a` and `b` of the shown
    /// workspace and puts the focus on `b`.
    fn exchange(&mut self, a: usize, b: usize)
        requires
            old(self).wf(),
            a < old(self)@.current().windows.len(),
            b < old(self)@.current().windows.len(),
        ensures
            final(self).wf(),
            final(self)@ == old(self)@.with_workspace(
                old(self)@.active,
                old(self)@.current().exchanged(a as int, b as int),
            ),
    {
        let shown = self.active_workspace;
        proof {
            lemma_rearranged_preserves_wf(
                self@,
                shown as int,
                self@.current().exchanged(a as int, b as int),
                |j: int|
                    if j == a {
                        b as int
                    } else if j == b {
                        a as int
                    } else {
                        j
                    },
            );
        }
        let first = self.workspaces[shown].windows[a];
        let second = self.workspaces[shown].windows[b];
        self.workspaces[shown].windows.set(a, second);
        self.workspaces[shown].windows.set(b, first);
        self.workspaces[shown].active_window = Some(b);
        assert(self@.workspaces =~= old(self)@.workspaces.update(
            shown as int,
            old(self)@.current().exchanged(a as int, b as int),
        ));
    }

    /// Takes the window at position `a` of the shown workspace out, puts it
    /// in again at position `b`, and puts the focus on it.
    fn carry(&mut self, a: usize, b: usize)
        requires
            old(self).wf(),
            a < old(self)@.current().windows.len(),
            b < old(self)@.current().windows.len(),
        ensures
            final(self).wf(),
            final(self)@ == old(self)@.with_workspace(
                old(self)@.active,
                old(self)@.current().carried(a as int, b as int),
            ),
    {
        let shown = self.active_workspace;
        proof {
            // position j of the new order held, in the old order, ...
            lemma_rearranged_preserves_wf(
                self@,
                shown as int,
                self@.current().carried(a as int, b as int),
                |j: int|
                    if j == b {
                        a as int
                    } else {
                        // ... counting without the carried window on both sides
                        let rest = if j < b {
                            j
                        } else {
                            j - 1
                        };
                        if rest < a {
                            rest
                        } else {
                            rest + 1
                        }
                    },
            );
        }
        let w = self.workspaces[shown].windows.remove(a);
        self.workspaces[shown].windows.insert(b, w);
        self.workspaces[shown].active_window = Some(b);
        assert(self@.workspaces =~= old(self)@.workspaces.update(
            shown as int,
            old(self)@.current().carried(a as int, b as int),
        ));
    }

    /// Replaces the window at position `a` of the shown workspace by `w`,
    /// which has the same handle.
    fn reflag(&mut self, a: usize, w: ManagedWindow)
        requires
            old(self).wf(),
            a < old(self)@.current().windows.len(),
            w.handle == old(self)@.current().windows[a as int].handle,
        ensures
            final(self).wf(),
            final(self)@ == old(self)@.with_workspace(
                old(self)@.active,
                old(self)@.current().with_window(a as int, w),
            ),
    {
        let shown = self.active_workspace;
        proof {
            lemma_rearranged_preserves_wf(
                self@,
                shown as int,
                self@.current().with_window(a as int, w),
                |j: int| j,
            );
        }
        self.workspaces[shown].windows.set(a, w);
        assert(self@.workspaces =~= old(self)@.workspaces.update(
            shown as int,
            old(self)@.current().with_window(a as int, w),
        ));
    }

    /// Moves the focus of the shown workspace one window on.
    pub fn focus_next(&mut self)
        requires
            old(self).wf(),
        ensures
            final(self).wf(),
            final(self)@ == old(self)@.with_current(old(self)@.current().focus_next()),
    {
        let shown = self.active_workspace;
        let n = self.workspaces[shown].windows.len();
        if n == 0 {
            assert(self@.workspaces =~= self@.workspaces.update(shown as int, self@.current()));
            return ;
        }
        let next = match self.workspaces[shown].active_window {
            Some(a) => if a + 1 < n {
                a + 1
            } else {
                0
            },
            None => 0,
        };
        self.refocus(next);
    }

    /// Moves the focus of the shown workspace one window back.
    pub fn focus_previous(&mut self)
        requires
            old(self).wf(),
        ensures
            final(self).wf(),
            final(self)@ == old(self)@.with_current(old(self)@.current().focus_previous()),
    {
        let shown = self.active_workspace;
        let n = self.workspaces[shown].windows.len();
        if n == 0 {
            assert(self@.workspaces =~= self@.workspaces.update(shown as int, self@.current()));
            return ;
        }
        let before = match self.workspaces[shown].active_window {
            Some(a) => if a > 0 {
                a - 1
            } else {
                n - 1
            },
            None => n - 1,
        };
        self.refocus(before);
    }

    /// Exchanges the focused window of the shown workspace with the one
    /// after it; the last window goes to the front instead.
    pub fn swap_down(&mut self)
        requires
            old(self).wf(),
        ensures
            final(self).wf(),
            final(self)@ == old(self)@.with_current(old(self)@.current().swap_down()),
    {
        let shown = self.active_workspace;
        let n = self.workspaces[shown].windows.len();
        match self.workspaces[shown].active_window {
            Some(a) => {
                if a + 1 < n {
                    self.exchange(a, a + 1);
                } else {
                    self.carry(a, 0);
                }
            },
            None => {
                assert(self@.workspaces =~= self@.workspaces.update(shown as int, self@.current()));
            },
        }
    }

    /// Exchanges the focused window of the shown workspace with the one
    /// before it; the first window goes to the back instead.
    pub fn swap_up(&mut self)
        requires
            old(self).wf(),
        ensures
            final(self).wf(),
            final(self)@ == old(self)@.with_current(old(self)@.current().swap_up()),
    {
        let shown = self.active_workspace;
        let n = self.workspaces[shown].windows.len();
        match self.workspaces[shown].active_window {
            Some(a) => {
                if a > 0 {
                    self.exchange(a, a - 1);
                } else {
                    self.carry(0, n - 1);
                }
            },
            None => {
                assert(self@.workspaces =~= self@.workspaces.update(shown as int, self@.current()));
            },
        }
    }

    /// Flips the floating flag of the focused window of the shown
    /// workspace, taking it out of the tiled set or putting it back.
    pub fn toggle_floating(&mut self)
        requires
            old(self).wf(),
        ensures
            final(self).wf(),
            final(self)@ == old(self)@.with_current(old(self)@.current().toggle_floating()),
    {
        let shown = self.active_workspace;
        match self.workspaces[shown].active_window {
            Some(a) => {
                let w = self.workspaces[shown].windows[a];
                self.reflag(
                    a,
                    ManagedWindow {
                        handle: w.handle,
                        floating: !w.floating,
                        fullscreen: w.fullscreen,
                    },
                );
            },
            None => {
                assert(self@.workspaces =~= self@.workspaces.update(shown as int, self@.current()));
            },
        }
    }

    /// Flips the fullscreen flag of the focused window of the shown
    /// workspace, taking it out of the tiled set or putting it back.
    pub fn toggle_fullscreen(&mut self)
        requires
            old(self).wf(),
        ensures
            final(self).wf(),
            final(self)@ == old(self)@.with_current(old(self)@.current().toggle_fullscreen()),
    {
        let shown = self.active_workspace;
        match self.workspaces[shown].active_window {
            Some(a) => {
                let w = self.workspaces[shown].windows[a];
                self.reflag(
                    a,
                    ManagedWindow {
                        handle: w.handle,
                        floating: w.floating,
                        fullscreen: !w.fullscreen,
                    },
                );
            },
            None => {
                assert(self@.workspaces =~= self@.workspaces.update(shown as int, self@.current()));
            },
        }
    }

    /// Takes the focused window of the shown workspace out of the store and
    /// hands back its handle, so that the display server can close it.
    /// Without focus nothing changes.
    pub fn kill_focused(&mut self) -> (closed: Option<WindowHandle>)
        requires
            old(self).wf(),
        ensures
            final(self).wf(),
            match closed {
                Some(h) => old(self)@.current().focused() matches Some(w) && w.handle == h
                    && final(self)@ == old(self)@.detach(h),
                None => old(self)@.current().active_window is None && final(self)@ == old(self)@,
            },
    {
        let shown = self.active_workspace;
        match self.workspaces[shown].active_window {
            Some(i) => {
                proof {
                    let h = self@.workspaces[shown as int].windows[i as int].handle;
                    lemma_place_is_unique(self@, h, shown as int, i as int);
                    lemma_detach_preserves_wf(self@, h);
                }
                let w = self.take_at(shown, i);
                Some(w.handle)
            },
            None => None,
        }
    }

    /// Shows the workspace that was shown before.
    pub fn toggle_tag(&mut self)
        requires
            old(self).wf(),
        ensures
            final(self).wf(),
            final(self)@ == old(self)@.switched_to(old(self)@.previous),
    {
        let back = self.previous_workspace;
        let _ = self.set_active(back);
    }
}

} // verus!

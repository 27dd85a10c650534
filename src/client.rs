//! The local mirror of the server's top-level windows: their stacking order,
//! their ICCCM state, and the focused window.
use vstd::prelude::*;
use crate::atom::{Window, WmProtocols, WmState};
use crate::hints::SizeHints;

verus! {

/// What is known of a managed top-level window.
#[derive(PartialEq, Eq, Structural, Clone, Copy, Debug)]
pub struct ClientState {
    /// Horizontal position.
    pub x: i16,
    /// Vertical position.
    pub y: i16,
    /// Horizontal extent.
    pub width: u16,
    /// Vertical extent.
    pub height: u16,
    /// Whether the window is viewable.
    pub is_viewable: bool,
    /// The client's WM_PROTOCOLS.
    pub wm_protocols: WmProtocols,
    /// The client's WM_STATE.
    pub wm_state: Option<WmState>,
    /// The client's WM_NORMAL_HINTS.
    pub wm_normal_hints: SizeHints,
}

/// A top-level window. `state` is `None` for a window with override-redirect
/// set: it is tracked for the stacking order only.
#[derive(PartialEq, Eq, Structural, Clone, Copy, Debug)]
pub struct Client {
    /// The client window.
    pub window: Window,
    /// The client's state, for managed windows.
    pub state: Option<ClientState>,
}

impl Client {
    /// Whether the window has its override-redirect flag set (is unmanaged).
    pub fn override_redirect(&self) -> (r: bool)
        ensures
            r == (self.state is None),
    {
        self.state.is_none()
    }
}

/// No window occurs twice in the stack.
pub open spec fn windows_distinct(s: Seq<Client>) -> bool {
    forall|i: int, j: int|
        0 <= i < s.len() && 0 <= j < s.len() && i != j ==> #[trigger] s[i].window
            != #[trigger] s[j].window
}

/// `w` occurs in the stack.
pub open spec fn tracks(s: Seq<Client>, w: Window) -> bool {
    exists|i: int| 0 <= i < s.len() && #[trigger] s[i].window == w
}

/// Where `w` stands in the stack (meaningful when it is tracked).
pub open spec fn position(s: Seq<Client>, w: Window) -> int {
    choose|i: int| 0 <= i < s.len() && #[trigger] s[i].window == w
}

/// The stack without `w`; unchanged when `w` is not there.
pub open spec fn removed(s: Seq<Client>, w: Window) -> Seq<Client> {
    if tracks(s, w) {
        s.remove(position(s, w))
    } else {
        s
    }
}

/// The stack with `w` taken out and put back just above `sibling`.
pub open spec fn moved_above(s: Seq<Client>, w: Window, sibling: Window) -> Seq<Client> {
    let t = s.remove(position(s, w));
    t.insert(position(t, sibling) + 1, s[position(s, w)])
}

/// The stack with `w` moved to the bottom.
pub open spec fn moved_to_bottom(s: Seq<Client>, w: Window) -> Seq<Client> {
    s.remove(position(s, w)).insert(0, s[position(s, w)])
}

/// The stack with `w` moved to the top.
pub open spec fn moved_to_top(s: Seq<Client>, w: Window) -> Seq<Client> {
    s.remove(position(s, w)).push(s[position(s, w)])
}

/// The stack with the state of `w` replaced.
pub open spec fn with_state(s: Seq<Client>, w: Window, st: ClientState) -> Seq<Client> {
    s.update(position(s, w), Client { window: w, state: Some(st) })
}

/// In a stack without repeats, the window at `i` stands at `i`.
pub proof fn lemma_position(s: Seq<Client>, w: Window, i: int)
    requires
        windows_distinct(s),
        0 <= i < s.len(),
        s[i].window == w,
    ensures
        position(s, w) == i,
        tracks(s, w),
{
    assert(tracks(s, w));
}

/// Taking one client out keeps the others, in order and without repeats.
pub proof fn lemma_remove(s: Seq<Client>, i: int)
    requires
        windows_distinct(s),
        0 <= i < s.len(),
    ensures
        windows_distinct(s.remove(i)),
        s.remove(i).len() == s.len() - 1,
        forall|w: Window| tracks(s.remove(i), w) <==> (tracks(s, w) && w != s[i].window),
{
    let t = s.remove(i);
    assert forall|a: int, b: int|
        0 <= a < t.len() && 0 <= b < t.len() && a != b implies #[trigger] t[a].window
        != #[trigger] t[b].window by {
        let a2 = if a < i {
            a
        } else {
            a + 1
        };
        let b2 = if b < i {
            b
        } else {
            b + 1
        };
        assert(t[a] == s[a2]);
        assert(t[b] == s[b2]);
    }
    assert forall|w: Window| tracks(t, w) <==> (tracks(s, w) && w != s[i].window) by {
        if tracks(t, w) {
            let a = choose|a: int| 0 <= a < t.len() && #[trigger] t[a].window == w;
            let a2 = if a < i {
                a
            } else {
                a + 1
            };
            assert(t[a] == s[a2]);
            assert(s[a2].window == w);
        }
        if tracks(s, w) && w != s[i].window {
            let a = choose|a: int| 0 <= a < s.len() && #[trigger] s[a].window == w;
            if a < i {
                assert(t[a] == s[a]);
            } else {
                assert(t[a - 1] == s[a]);
            }
        }
    }
}

/// Putting in a client whose window is new keeps the stack without repeats.
pub proof fn lemma_insert(t: Seq<Client>, j: int, c: Client)
    requires
        windows_distinct(t),
        !tracks(t, c.window),
        0 <= j <= t.len(),
    ensures
        windows_distinct(t.insert(j, c)),
        t.insert(j, c).len() == t.len() + 1,
        forall|w: Window| tracks(t.insert(j, c), w) <==> (tracks(t, w) || w == c.window),
{
    let u = t.insert(j, c);
    assert forall|a: int, b: int|
        0 <= a < u.len() && 0 <= b < u.len() && a != b implies #[trigger] u[a].window
        != #[trigger] u[b].window by {
        if a != j {
            let a2 = if a < j {
                a
            } else {
                a - 1
            };
            assert(u[a] == t[a2]);
        }
        if b != j {
            let b2 = if b < j {
                b
            } else {
                b - 1
            };
            assert(u[b] == t[b2]);
        }
    }
    assert forall|w: Window| tracks(u, w) <==> (tracks(t, w) || w == c.window) by {
        if tracks(u, w) {
            let a = choose|a: int| 0 <= a < u.len() && #[trigger] u[a].window == w;
            if a < j {
                assert(u[a] == t[a]);
            } else if a > j {
                assert(u[a] == t[a - 1]);
            }
        }
        if tracks(t, w) {
            let a = choose|a: int| 0 <= a < t.len() && #[trigger] t[a].window == w;
            if a < j {
                assert(u[a] == t[a]);
            } else {
                assert(u[a + 1] == t[a]);
            }
        }
        if w == c.window {
            assert(u[j] == c);
        }
    }
}

/// Moving a client keeps the set of windows and the absence of repeats.
pub proof fn lemma_move(s: Seq<Client>, i: int, sibling_after: bool, sibling: Window)
    requires
        windows_distinct(s),
        0 <= i < s.len(),
        sibling_after ==> tracks(s, sibling) && sibling != s[i].window,
    ensures
        ({
            let t = s.remove(i);
            let j = if sibling_after {
                position(t, sibling) + 1
            } else {
                0
            };
            &&& 0 <= j <= t.len()
            &&& windows_distinct(t.insert(j, s[i]))
            &&& t.insert(j, s[i]).len() == s.len()
            &&& forall|w: Window| tracks(t.insert(j, s[i]), w) <==> tracks(s, w)
            &&& windows_distinct(t.push(s[i]))
            &&& t.push(s[i]).len() == s.len()
            &&& forall|w: Window| tracks(t.push(s[i]), w) <==> tracks(s, w)
        }),
{
    let t = s.remove(i);
    lemma_remove(s, i);
    assert(!tracks(t, s[i].window));
    if sibling_after {
        assert(tracks(t, sibling));
        let p = position(t, sibling);
        assert(0 <= p < t.len());
        lemma_insert(t, p + 1, s[i]);
    } else {
        lemma_insert(t, 0, s[i]);
    }
    lemma_insert(t, t.len() as int, s[i]);
    assert(t.insert(t.len() as int, s[i]) =~= t.push(s[i]));
    assert(tracks(s, s[i].window));
}

/// The client of a tracked window.
pub open spec fn client_of(s: Seq<Client>, w: Window) -> Client {
    s[position(s, w)]
}

/// Taking one client out leaves every other window with its client.
pub proof fn lemma_remove_keeps_clients(s: Seq<Client>, i: int)
    requires
        windows_distinct(s),
        0 <= i < s.len(),
    ensures
        forall|w: Window|
            tracks(s.remove(i), w) ==> #[trigger] client_of(s.remove(i), w) == client_of(s, w),
{
    let t = s.remove(i);
    lemma_remove(s, i);
    assert forall|w: Window| tracks(t, w) implies #[trigger] client_of(t, w) == client_of(s, w) by {
        let a = position(t, w);
        let a2 = if a < i {
            a
        } else {
            a + 1
        };
        assert(t[a] == s[a2]);
        lemma_position(s, w, a2);
    }
}

/// Putting in a client with a new window leaves every other window with
/// its client, and the new window with the new client.
pub proof fn lemma_insert_keeps_clients(t: Seq<Client>, j: int, c: Client)
    requires
        windows_distinct(t),
        !tracks(t, c.window),
        0 <= j <= t.len(),
    ensures
        client_of(t.insert(j, c), c.window) == c,
        forall|w: Window| tracks(t, w) ==> #[trigger] client_of(t.insert(j, c), w) == client_of(t, w),
{
    let u = t.insert(j, c);
    lemma_insert(t, j, c);
    assert(u[j] == c);
    lemma_position(u, c.window, j);
    assert forall|w: Window| tracks(t, w) implies #[trigger] client_of(u, w) == client_of(t, w) by {
        let a = position(t, w);
        if a < j {
            assert(u[a] == t[a]);
            lemma_position(u, w, a);
        } else {
            assert(u[a + 1] == t[a]);
            lemma_position(u, w, a + 1);
        }
    }
}

/// Moving a client leaves every window with its client.
pub proof fn lemma_move_keeps_clients(s: Seq<Client>, i: int, j: int)
    requires
        windows_distinct(s),
        0 <= i < s.len(),
        0 <= j <= s.len() - 1,
    ensures
        forall|w: Window|
            tracks(s, w) ==> #[trigger] client_of(s.remove(i).insert(j, s[i]), w) == client_of(s, w),
        forall|w: Window|
            tracks(s, w) ==> #[trigger] client_of(s.remove(i).push(s[i]), w) == client_of(s, w),
{
    let t = s.remove(i);
    lemma_remove(s, i);
    lemma_remove_keeps_clients(s, i);
    lemma_insert_keeps_clients(t, j, s[i]);
    lemma_insert_keeps_clients(t, t.len() as int, s[i]);
    assert(t.insert(t.len() as int, s[i]) =~= t.push(s[i]));
    lemma_position(s, s[i].window, i);
    assert forall|w: Window| tracks(s, w) implies #[trigger] client_of(t.insert(j, s[i]), w)
        == client_of(s, w) by {
        if w != s[i].window {
            assert(tracks(t, w));
        }
    }
    assert forall|w: Window| tracks(s, w) implies #[trigger] client_of(t.push(s[i]), w)
        == client_of(s, w) by {
        if w != s[i].window {
            assert(tracks(t, w));
        }
    }
}

/// Replacing one window's state leaves the windows as they were and every
/// other window with its client.
pub proof fn lemma_with_state_keeps_clients(s: Seq<Client>, w: Window, st: ClientState)
    requires
        windows_distinct(s),
        tracks(s, w),
    ensures
        windows_distinct(with_state(s, w, st)),
        forall|x: Window| tracks(with_state(s, w, st), x) <==> tracks(s, x),
        client_of(with_state(s, w, st), w) == (Client { window: w, state: Some(st) }),
        forall|x: Window|
            x != w && tracks(s, x) ==> #[trigger] client_of(with_state(s, w, st), x) == client_of(
                s,
                x,
            ),
{
    let p = position(s, w);
    let u = with_state(s, w, st);
    assert forall|a: int, b: int|
        0 <= a < u.len() && 0 <= b < u.len() && a != b implies #[trigger] u[a].window
        != #[trigger] u[b].window by {
        assert(u[a].window == s[a].window);
        assert(u[b].window == s[b].window);
    }
    assert forall|x: Window| tracks(u, x) <==> tracks(s, x) by {
        if tracks(u, x) {
            let a = choose|a: int| 0 <= a < u.len() && #[trigger] u[a].window == x;
            assert(s[a].window == x);
        }
        if tracks(s, x) {
            let a = choose|a: int| 0 <= a < s.len() && #[trigger] s[a].window == x;
            assert(u[a].window == x);
        }
    }
    lemma_position(u, w, p);
    assert forall|x: Window| x != w && tracks(s, x) implies #[trigger] client_of(u, x) == client_of(
        s,
        x,
    ) by {
        let a = position(s, x);
        assert(u[a] == s[a]);
        lemma_position(u, x, a);
    }
}

/// One mutation of the stack, as the registry's methods perform it.
#[derive(PartialEq, Eq, Structural, Clone, Copy, Debug)]
pub enum StackOp {
    Push(Client),
    Remove(Window),
    MoveToAbove(Window, Window),
    MoveToBottom(Window),
    MoveToTop(Window),
}

/// What each method asks of the stack before it runs; a removal names a
/// tracked window.
pub open spec fn op_allowed(s: Seq<Client>, op: StackOp) -> bool {
    match op {
        StackOp::Push(c) => !tracks(s, c.window),
        StackOp::Remove(w) => tracks(s, w),
        StackOp::MoveToAbove(w, sibling) => tracks(s, w) && tracks(s, sibling) && w != sibling,
        StackOp::MoveToBottom(w) => tracks(s, w),
        StackOp::MoveToTop(w) => tracks(s, w),
    }
}

/// The stack after one operation.
pub open spec fn apply_op(s: Seq<Client>, op: StackOp) -> Seq<Client> {
    match op {
        StackOp::Push(c) => s.push(c),
        StackOp::Remove(w) => removed(s, w),
        StackOp::MoveToAbove(w, sibling) => moved_above(s, w, sibling),
        StackOp::MoveToBottom(w) => moved_to_bottom(s, w),
        StackOp::MoveToTop(w) => moved_to_top(s, w),
    }
}

/// The stack after a sequence of operations, first to last.
pub open spec fn apply_ops(s: Seq<Client>, ops: Seq<StackOp>) -> Seq<Client>
    decreases ops.len(),
{
    if ops.len() == 0 {
        s
    } else {
        apply_ops(apply_op(s, ops[0]), ops.drop_first())
    }
}

/// Every operation of the sequence is allowed where it runs.
pub open spec fn ops_allowed(s: Seq<Client>, ops: Seq<StackOp>) -> bool
    decreases ops.len(),
{
    ops.len() == 0 || (op_allowed(s, ops[0]) && ops_allowed(apply_op(s, ops[0]), ops.drop_first()))
}

/// The number of pushes in a sequence.
pub open spec fn pushes(ops: Seq<StackOp>) -> int
    decreases ops.len(),
{
    if ops.len() == 0 {
        0
    } else {
        (if ops[0] is Push {
            1int
        } else {
            0int
        }) + pushes(ops.drop_first())
    }
}

/// The number of removals in a sequence.
pub open spec fn removes(ops: Seq<StackOp>) -> int
    decreases ops.len(),
{
    if ops.len() == 0 {
        0
    } else {
        (if ops[0] is Remove {
            1int
        } else {
            0int
        }) + removes(ops.drop_first())
    }
}

/// One allowed operation keeps the windows distinct and changes the length
/// by one for a push, minus one for a removal, and not at all for a move.
pub proof fn lemma_stack_op(s: Seq<Client>, op: StackOp)
    requires
        windows_distinct(s),
        op_allowed(s, op),
    ensures
        windows_distinct(apply_op(s, op)),
        apply_op(s, op).len() == s.len() + (if op is Push {
            1int
        } else {
            0int
        }) - (if op is Remove {
            1int
        } else {
            0int
        }),
{
    match op {
        StackOp::Push(c) => {
            lemma_insert(s, s.len() as int, c);
            assert(s.insert(s.len() as int, c) =~= s.push(c));
        },
        StackOp::Remove(w) => {
            lemma_remove(s, position(s, w));
        },
        StackOp::MoveToAbove(w, sibling) => {
            lemma_move(s, position(s, w), true, sibling);
        },
        StackOp::MoveToBottom(w) => {
            lemma_move(s, position(s, w), false, w);
        },
        StackOp::MoveToTop(w) => {
            lemma_move(s, position(s, w), false, w);
        },
    }
}

/// Stack invariant: after any allowed sequence of pushes, removals and
/// moves, no window occurs twice, and the length is the initial length plus
/// the pushes minus the removals.
pub proof fn lemma_stack_ops(s: Seq<Client>, ops: Seq<StackOp>)
    requires
        windows_distinct(s),
        ops_allowed(s, ops),
    ensures
        windows_distinct(apply_ops(s, ops)),
        apply_ops(s, ops).len() == s.len() + pushes(ops) - removes(ops),
    decreases ops.len(),
{
    if ops.len() > 0 {
        lemma_stack_op(s, ops[0]);
        lemma_stack_ops(apply_op(s, ops[0]), ops.drop_first());
    }
}

/// The mirrored window stack (index 0 is the bottom) and the focused window.
#[derive(Debug)]
pub struct Clients {
    /// The window stack, bottom to top.
    stack: Vec<Client>,
    /// The focused window, if any (the root window does not count).
    focus: Option<Window>,
}

impl Clients {
    /// The stack, bottom to top.
    pub closed spec fn stack_spec(&self) -> Seq<Client> {
        self.stack@
    }

    /// The focused window.
    pub closed spec fn focus_spec(&self) -> Option<Window> {
        self.focus
    }

    /// The invariant: no window twice, and the focus names a tracked window.
    pub open spec fn wf(&self) -> bool {
        &&& windows_distinct(self.stack_spec())
        &&& match self.focus_spec() {
            Some(f) => tracks(self.stack_spec(), f),
            None => true,
        }
    }

    /// Whether `w` is tracked.
    pub open spec fn has_spec(&self, w: Window) -> bool {
        tracks(self.stack_spec(), w)
    }

    /// The client of a tracked window.
    pub open spec fn client_spec(&self, w: Window) -> Client {
        self.stack_spec()[position(self.stack_spec(), w)]
    }

    /// An empty stack with no focus.
    pub fn new() -> (r: Clients)
        ensures
            r.wf(),
            r.stack_spec() == Seq::<Client>::empty(),
            r.focus_spec() is None,
    {
        Clients { stack: Vec::new(), focus: None }
    }

    /// Build the stack from the server's windows in stacking order; the
    /// focus is the server's input focus where that is a tracked window.
    pub fn bulk_load(stack: Vec<Client>, input_focus: Window) -> (r: Clients)
        requires
            windows_distinct(stack@),
        ensures
            r.wf(),
            r.stack_spec() == stack@,
            r.focus_spec() == if tracks(stack@, input_focus) {
                Some(input_focus)
            } else {
                None
            },
    {
        let mut ret = Clients { stack, focus: None };
        let found = ret.find(input_focus);
        if found.is_some() {
            ret.focus = Some(input_focus);
        }
        ret
    }

    /// Where `w` stands, if it is tracked.
    fn find(&self, w: Window) -> (r: Option<usize>)
        requires
            windows_distinct(self.stack@),
        ensures
            r is None <==> !tracks(self.stack@, w),
            r matches Some(i) ==> i < self.stack@.len() && self.stack@[i as int].window == w
                && position(self.stack@, w) == i,
    {
        let mut i: usize = 0;
        while i < self.stack.len()
            invariant
                i <= self.stack@.len(),
                windows_distinct(self.stack@),
                forall|k: int| 0 <= k < i ==> #[trigger] self.stack@[k].window != w,
            decreases self.stack@.len() - i,
        {
            if self.stack[i].window == w {
                proof {
                    lemma_position(self.stack@, w, i as int);
                }
                return Some(i);
            }
            i += 1;
        }
        None
    }

    /// Where a tracked `w` stands.
    fn index_of(&self, w: Window) -> (i: usize)
        requires
            windows_distinct(self.stack@),
            tracks(self.stack@, w),
        ensures
            i < self.stack@.len(),
            self.stack@[i as int].window == w,
            position(self.stack@, w) == i,
    {
        match self.find(w) {
            Some(i) => i,
            None => 0,
        }
    }

    /// Whether a client for `w` exists.
    pub fn has_client(&self, w: Window) -> (r: bool)
        requires
            self.wf(),
        ensures
            r == self.has_spec(w),
    {
        self.find(w).is_some()
    }

    /// The number of tracked windows.
    pub fn len(&self) -> (r: usize)
        ensures
            r == self.stack_spec().len(),
    {
        self.stack.len()
    }

    /// The stack, bottom to top.
    pub fn stack(&self) -> (r: &Vec<Client>)
        ensures
            r@ == self.stack_spec(),
    {
        &self.stack
    }

    /// The client of a tracked window.
    pub fn get(&self, w: Window) -> (r: Client)
        requires
            self.wf(),
            self.has_spec(w),
        ensures
            r == self.client_spec(w),
            r.window == w,
    {
        let i = self.index_of(w);
        self.stack[i]
    }

    /// The topmost client.
    pub fn top(&self) -> (r: Client)
        requires
            self.stack_spec().len() > 0,
        ensures
            r == self.stack_spec().last(),
    {
        self.stack[self.stack.len() - 1]
    }

    /// The focused client.
    pub fn get_focus(&self) -> (r: Option<Client>)
        requires
            self.wf(),
        ensures
            r == match self.focus_spec() {
                Some(f) => Some(self.client_spec(f)),
                None => None,
            },
    {
        match self.focus {
            Some(f) => Some(self.get(f)),
            None => None,
        }
    }

    /// The focused window.
    pub fn focus(&self) -> (r: Option<Window>)
        ensures
            r == self.focus_spec(),
    {
        self.focus
    }

    /// Set the focused window, which must be tracked.
    pub fn set_focus(&mut self, f: Option<Window>)
        requires
            old(self).wf(),
            f matches Some(w) ==> old(self).has_spec(w),
        ensures
            final(self).wf(),
            final(self).focus_spec() == f,
            final(self).stack_spec() == old(self).stack_spec(),
    {
        self.focus = f;
    }

    /// Replace the state of a tracked, managed window.
    pub fn set_state(&mut self, w: Window, st: ClientState)
        requires
            old(self).wf(),
            old(self).has_spec(w),
            old(self).client_spec(w).state is Some,
        ensures
            final(self).wf(),
            final(self).stack_spec() == with_state(old(self).stack_spec(), w, st),
            final(self).focus_spec() == old(self).focus_spec(),
    {
        let i = self.index_of(w);
        let ghost s = self.stack@;
        self.stack.set(i, Client { window: w, state: Some(st) });
        proof {
            let t = self.stack@;
            assert forall|a: int, b: int|
                0 <= a < t.len() && 0 <= b < t.len() && a != b implies #[trigger] t[a].window
                != #[trigger] t[b].window by {
                assert(t[a].window == s[a].window);
                assert(t[b].window == s[b].window);
            }
            if let Some(f) = self.focus {
                let k = choose|k: int| 0 <= k < s.len() && #[trigger] s[k].window == f;
                assert(t[k].window == f);
            }
        }
    }

    /// Push a client on top of the stack; its window must be new.
    pub fn push(&mut self, c: Client)
        requires
            old(self).wf(),
            !old(self).has_spec(c.window),
        ensures
            final(self).wf(),
            final(self).stack_spec() == old(self).stack_spec().push(c),
            final(self).focus_spec() == old(self).focus_spec(),
    {
        let ghost s = self.stack@;
        self.stack.push(c);
        proof {
            lemma_insert(s, s.len() as int, c);
            assert(s.insert(s.len() as int, c) =~= s.push(c));
        }
    }

    /// Remove a window's client; nothing happens where there is none. The
    /// focus is cleared when it named that window.
    pub fn remove(&mut self, w: Window)
        requires
            old(self).wf(),
        ensures
            final(self).wf(),
            final(self).stack_spec() == removed(old(self).stack_spec(), w),
            final(self).focus_spec() == if old(self).focus_spec() == Some(w) {
                None
            } else {
                old(self).focus_spec()
            },
    {
        let ghost s = self.stack@;
        match self.find(w) {
            Some(i) => {
                self.stack.remove(i);
                proof {
                    lemma_remove(s, i as int);
                }
            },
            None => {},
        }
        if self.focus == Some(w) {
            self.focus = None;
        }
        proof {
            if tracks(s, w) {
                lemma_remove(s, position(s, w));
            }
        }
    }

    /// Move a tracked window to just above a tracked sibling.
    pub fn move_to_above(&mut self, w: Window, sibling: Window)
        requires
            old(self).wf(),
            old(self).has_spec(w),
            old(self).has_spec(sibling),
            w != sibling,
        ensures
            final(self).wf(),
            final(self).stack_spec() == moved_above(old(self).stack_spec(), w, sibling),
            final(self).focus_spec() == old(self).focus_spec(),
    {
        let ghost s = self.stack@;
        let i = self.index_of(w);
        proof {
            lemma_move(s, i as int, true, sibling);
        }
        if i > 0 && self.stack[i - 1].window == sibling {
            proof {
                let t = s.remove(i as int);
                assert(t[i - 1] == s[i - 1]);
                lemma_position(t, sibling, i - 1);
                assert(t.insert(i as int, s[i as int]) =~= s);
            }
            return;
        }
        let c = self.stack.remove(i);
        let j = self.index_of(sibling);
        let n = self.stack.len();
        assert(j < n);
        self.stack.insert(j + 1, c);
    }

    /// Move a tracked window to the bottom of the stack.
    pub fn move_to_bottom(&mut self, w: Window)
        requires
            old(self).wf(),
            old(self).has_spec(w),
        ensures
            final(self).wf(),
            final(self).stack_spec() == moved_to_bottom(old(self).stack_spec(), w),
            final(self).focus_spec() == old(self).focus_spec(),
    {
        let ghost s = self.stack@;
        let i = self.index_of(w);
        proof {
            lemma_move(s, i as int, false, w);
        }
        if i == 0 {
            assert(s.remove(0).insert(0, s[0]) =~= s);
            return;
        }
        let c = self.stack.remove(i);
        self.stack.insert(0, c);
    }

    /// Move a tracked window to the top of the stack.
    pub fn move_to_top(&mut self, w: Window)
        requires
            old(self).wf(),
            old(self).has_spec(w),
        ensures
            final(self).wf(),
            final(self).stack_spec() == moved_to_top(old(self).stack_spec(), w),
            final(self).focus_spec() == old(self).focus_spec(),
    {
        let ghost s = self.stack@;
        let i = self.index_of(w);
        proof {
            lemma_move(s, i as int, false, w);
        }
        if i == self.stack.len() - 1 {
            assert(s.remove(i as int).push(s[i as int]) =~= s);
            return;
        }
        let c = self.stack.remove(i);
        self.stack.push(c);
    }
}

} // verus!

//! Cancellation token for cooperative task shutdown.
//!
//! A token and all its clones share one state behind a lock: whether
//! cancellation was triggered, and the wakers of the tasks waiting for it.
//! The lock keeps an invariant that every update is proved to preserve: once
//! cancelled, no waker is left registered, so no waiting task can be missed.

use std::sync::Arc;
use std::task::Waker;
use vstd::prelude::*;
use vstd::rwlock::RwLock;
use vstd::rwlock::RwLockPredicate;

verus! {

/// `std::task::Waker`, carried through the library as an opaque value.
#[verifier::external_type_specification]
#[verifier::external_body]
pub struct ExWaker(Waker);

/// Calls `std::task::Waker::wake`, which wakes the task the waker belongs to.
/// It returns nothing that a clause could speak of.
#[verifier::external_body]
fn wake(waker: Waker) {
    waker.wake()
}

/// The state that a token shares with its clones, as a value: whether
/// cancellation was triggered, and the wakers registered by waiting tasks,
/// oldest first.
pub type CancelView = (bool, Seq<Waker>);

/// No waker is left registered once cancelled.
pub open spec fn no_stranded_waker(state: CancelView) -> bool {
    state.0 ==> state.1.len() == 0
}

/// Cancelling: the state becomes cancelled with no waiters, and the waiters
/// it had are handed back to be woken.
pub open spec fn cancel_step(state: CancelView) -> (CancelView, Seq<Waker>) {
    ((true, Seq::empty()), state.1)
}

/// Registering `waker` for a waiting task: ready, with the state unchanged,
/// when cancelled; otherwise not ready, with `waker` kept as the newest waiter.
pub open spec fn register_step(state: CancelView, waker: Waker) -> (CancelView, bool) {
    if state.0 {
        (state, true)
    } else {
        ((false, state.1.push(waker)), false)
    }
}

/// The state that a token shares with its clones.
pub struct CancelState {
    cancelled: bool,
    wakers: Vec<Waker>,
}

impl View for CancelState {
    type V = CancelView;

    closed spec fn view(&self) -> CancelView {
        (self.cancelled, self.wakers@)
    }
}

impl CancelState {
    /// A state that is not cancelled and has no waiters.
    pub fn new() -> (state: Self)
        ensures
            state@ == (false, Seq::<Waker>::empty()),
    {
        CancelState { cancelled: false, wakers: Vec::new() }
    }

    /// Whether cancellation was triggered.
    pub fn is_cancelled(&self) -> (cancelled: bool)
        ensures
            cancelled == self@.0,
    {
        self.cancelled
    }

    /// Triggers cancellation and hands back, oldest first, the wakers that
    /// must now be woken; none is left registered.
    pub fn cancel(&mut self) -> (to_wake: Vec<Waker>)
        ensures
            (final(self)@, to_wake@) == cancel_step(old(self)@),
    {
        self.cancelled = true;
        let mut taken: Vec<Waker> = Vec::new();
        std::mem::swap(&mut taken, &mut self.wakers);
        taken
    }

    /// Checks for cancellation on behalf of a waiting task: returns `true`
    /// (ready) if cancellation was triggered, and otherwise keeps `waker` so
    /// that `cancel` will hand it back.
    pub fn register(&mut self, waker: Waker) -> (ready: bool)
        ensures
            (final(self)@, ready) == register_step(old(self)@, waker),
    {
        if self.cancelled {
            true
        } else {
            self.wakers.push(waker);
            false
        }
    }
}

/// Both steps keep the invariant of the shared state: once cancelled, no
/// waker is left registered.
pub proof fn law_steps_keep_no_stranded_waker(state: CancelView, waker: Waker)
    requires
        no_stranded_waker(state),
    ensures
        no_stranded_waker(cancel_step(state).0),
        no_stranded_waker(register_step(state, waker).0),
{
}

/// Cancelling twice is cancelling once: the second hands back no waker.
pub proof fn law_cancel_is_idempotent(state: CancelView)
    ensures
        cancel_step(cancel_step(state).0) == (cancel_step(state).0, Seq::<Waker>::empty()),
{
}

/// Cancelling wakes every task waiting on a state that is not yet
/// cancelled, each exactly once and oldest first: the wakers handed back are
/// the waiters, in order, and none is left registered.
pub proof fn law_cancel_wakes_every_waiter(state: CancelView)
    ensures
        cancel_step(state).1 == state.1,
        cancel_step(state).1.len() == state.1.len(),
        forall|k: int| 0 <= k < state.1.len() ==> cancel_step(state).1[k] == #[trigger] state.1[k],
        cancel_step(state).0.1.len() == 0,
        cancel_step(state).0.0,
{
}

/// Once cancelled, every poll is ready and registers nothing.
pub proof fn law_ready_after_cancel(state: CancelView, waker: Waker)
    ensures
        register_step(cancel_step(state).0, waker) == (cancel_step(state).0, true),
{
}

/// A task that waits while not cancelled is woken by the next cancellation:
/// its waker is handed back after those registered before it.
pub proof fn law_waiting_task_is_woken(state: CancelView, waker: Waker)
    requires
        !state.0,
    ensures
        !register_step(state, waker).1,
        cancel_step(register_step(state, waker).0).1 == state.1.push(waker),
{
}

/// The invariant of a token's state: once cancelled, no waker is left
/// registered. `depth` is the state's place in its token's line of parents:
/// 0 for a root token, one more for each child.
pub struct NoStrandedWaker {
    pub depth: usize,
}

impl RwLockPredicate<CancelState> for NoStrandedWaker {
    open spec fn inv(self, state: CancelState) -> bool {
        no_stranded_waker(state@)
    }
}

/// The lock that holds one token's state.
pub type SharedState = RwLock<CancelState, NoStrandedWaker>;

/// Calls `std::task::Waker::clone`, which gives another waker for the same
/// task. `Waker` holds no plain value that a clause could speak of.
#[verifier::external_body]
fn clone_waker(waker: &Waker) -> (copy: Waker) {
    waker.clone()
}

/// Wakes each of `wakers`, in order, exactly once. The result records the
/// wakers woken, in the order they were woken.
fn wake_all(wakers: Vec<Waker>) -> (woken: Ghost<Seq<Waker>>)
    ensures
        woken@ == wakers@,
{
    let ghost all = wakers@;
    let mut wakers = wakers;
    let mut woken: Ghost<Seq<Waker>> = Ghost(Seq::empty());
    while wakers.len() > 0
        invariant
            woken@ + wakers@ == all,
        decreases wakers.len(),
    {
        let ghost rest = wakers@;
        let waker = wakers.remove(0);
        proof {
            woken@ = woken@.push(waker);
            assert(woken@ + wakers@ =~= all) by {
                assert(rest == seq![waker] + wakers@);
            }
        }
        wake(waker);
    }
    assert(woken@ =~= all);
    woken
}

/// Triggers cancellation on one state and wakes every task that was waiting
/// for it. The result is the state as it was found, and the wakers woken, in
/// order.
fn cancel_shared(shared: &SharedState) -> (woken: Ghost<(CancelView, Seq<Waker>)>)
    ensures
        no_stranded_waker(woken@.0),
        woken@.1 == cancel_step(woken@.0).1,
{
    let (mut state, handle) = shared.acquire_write();
    let ghost before = state@;
    let to_wake = state.cancel();
    handle.release_write(state);
    let log = wake_all(to_wake);
    Ghost((before, log@))
}

/// Reads whether cancellation was triggered on one state.
fn is_cancelled_shared(shared: &SharedState) -> (cancelled: bool) {
    let handle = shared.acquire_read();
    let cancelled = handle.borrow().is_cancelled();
    handle.release_read();
    cancelled
}

/// Checks one state for cancellation on behalf of a waiting task,
/// registering `waker` when not cancelled.
fn register_shared(shared: &SharedState, waker: Waker) -> (ready: bool) {
    let (mut state, handle) = shared.acquire_write();
    let ready = state.register(waker);
    handle.release_write(state);
    ready
}

/// A token for cooperative cancellation of async tasks.
///
/// Clone the token to share it across tasks. When `cancel()` is called,
/// all tasks waiting on `cancelled()` will be woken.
///
/// A token owns one state and watches the states of its parents too: it
/// counts as cancelled when any state it watches is cancelled, and `cancel`
/// writes only the state it owns. So a parent's cancellation reaches its
/// children, and a child can be cancelled without affecting its parent.
pub struct CancellationToken {
    own: Arc<SharedState>,
    parents: Vec<Arc<SharedState>>,
}

impl CancellationToken {
    /// The state this token owns, which `cancel` writes.
    pub closed spec fn own_state(&self) -> SharedState {
        *self.own
    }

    /// The states this token watches, root first and its own last:
    /// `is_cancelled` and the futures of `cancelled` read all of them.
    pub closed spec fn watched(&self) -> Seq<SharedState> {
        self.parents@.map_values(|p: Arc<SharedState>| *p).push(*self.own)
    }

    /// Each watched state's depth is its place in the line.
    pub closed spec fn wf(&self) -> bool {
        &&& forall|k: int| 0 <= k < self.parents@.len() ==> (#[trigger] self.parents@[k]).pred().depth == k
        &&& self.own.pred().depth == self.parents@.len()
    }

    /// Whether this token watches `state`.
    pub open spec fn watches(&self, state: SharedState) -> bool {
        self.watched().contains(state)
    }

    /// Creates a new cancellation token, not cancelled and with no waiting
    /// task, that watches only its own state. That the state is not cancelled
    /// lies behind a lock that no clause can look into, so it is not stated.
    pub fn new() -> (token: Self)
        ensures
            token.wf(),
            token.watched() == seq![token.own_state()],
    {
        let state = CancelState::new();
        let token = CancellationToken {
            own: Arc::new(RwLock::new(state, Ghost(NoStrandedWaker { depth: 0 }))),
            parents: Vec::new(),
        };
        assert(token.watched() =~= seq![token.own_state()]);
        token
    }

    /// Triggers cancellation of the state this token owns.
    ///
    /// All futures returned by `cancelled()` of this token, its clones and
    /// its children will complete: every task waiting on the owned state is
    /// woken, once each, oldest first. The result records the owned state as
    /// the cancel found it and the wakers woken. The state is shared with
    /// other tasks, so nothing is stated of what a later read of it gives;
    /// the update keeps the lock's invariant.
    pub fn cancel(&self) -> (woken: Ghost<(CancelView, Seq<Waker>)>)
        ensures
            no_stranded_waker(woken@.0),
            woken@.1 == woken@.0.1,
            woken@.1 == cancel_step(woken@.0).1,
    {
        cancel_shared(&*self.own)
    }

    /// Returns true if cancellation has been triggered on any state this
    /// token watches: its own or a parent's.
    ///
    /// The states are shared with other tasks, so no clause states the result.
    pub fn is_cancelled(&self) -> (cancelled: bool) {
        let mut i: usize = 0;
        while i < self.parents.len()
            decreases self.parents.len() - i,
        {
            if is_cancelled_shared(&*self.parents[i]) {
                return true;
            }
            i = i + 1;
        }
        is_cancelled_shared(&*self.own)
    }

    /// Returns a future that completes when cancellation is triggered.
    pub fn cancelled(&self) -> (waiting: CancelledFuture)
        ensures
            waiting.waits_on(self),
    {
        CancelledFuture { token: self.clone() }
    }

    /// Creates a child token linked to this one.
    ///
    /// When the parent is cancelled, the child is also cancelled: the child
    /// watches the parent's states. The child can be cancelled independently
    /// without affecting the parent: the state it owns is new, and the parent
    /// does not watch it.
    pub fn child_token(&self) -> (child: Self)
        requires
            self.wf(),
            self.watched().len() < usize::MAX,
        ensures
            child.wf(),
            child.watched() == self.watched().push(child.own_state()),
            child.watches(self.own_state()),
            !self.watches(child.own_state()),
    {
        let mut parents: Vec<Arc<SharedState>> = Vec::new();
        let mut i: usize = 0;
        while i < self.parents.len()
            invariant
                i <= self.parents.len(),
                parents@.len() == i,
                forall|k: int| 0 <= k < i ==> parents@[k] == self.parents@[k],
            decreases self.parents.len() - i,
        {
            parents.push(Arc::clone(&self.parents[i]));
            i = i + 1;
        }
        parents.push(Arc::clone(&self.own));
        let depth = self.parents.len() + 1;
        let state = CancelState::new();
        let child = CancellationToken {
            own: Arc::new(RwLock::new(state, Ghost(NoStrandedWaker { depth }))),
            parents,
        };
        proof {
            assert(child.parents@.map_values(|p: Arc<SharedState>| *p) =~= self.watched());
            assert(child.watched() =~= self.watched().push(child.own_state()));
            assert(child.watched()[self.watched().len() - 1] == self.own_state());
            assert forall|k: int| 0 <= k < self.watched().len() implies (#[trigger] self.watched()[k]).pred().depth < depth by {
                if k < self.parents@.len() {
                    assert(self.watched()[k] == *self.parents@[k]);
                }
            }
            if self.watches(child.own_state()) {
                let k = choose|k: int| 0 <= k < self.watched().len() && self.watched()[k] == child.own_state();
                assert(self.watched()[k].pred().depth < depth);
            }
        }
        child
    }
}

impl Clone for CancellationToken {
    fn clone(&self) -> (copy: Self)
        ensures
            copy.own_state() == self.own_state(),
            copy.watched() == self.watched(),
            self.wf() ==> copy.wf(),
    {
        let mut parents: Vec<Arc<SharedState>> = Vec::new();
        let mut i: usize = 0;
        while i < self.parents.len()
            invariant
                i <= self.parents.len(),
                parents@.len() == i,
                forall|k: int| 0 <= k < i ==> parents@[k] == self.parents@[k],
            decreases self.parents.len() - i,
        {
            parents.push(Arc::clone(&self.parents[i]));
            i = i + 1;
        }
        let copy = CancellationToken { own: Arc::clone(&self.own), parents };
        assert(copy.parents@ =~= self.parents@);
        copy
    }
}

impl Default for CancellationToken {
    fn default() -> (token: Self)
        ensures
            token.wf(),
            token.watched() == seq![token.own_state()],
    {
        Self::new()
    }
}

/// Future that completes when a cancellation token is triggered.
///
/// The polling itself is done by `poll_with`, which an executor adapter calls
/// with the task's waker.
pub struct CancelledFuture {
    token: CancellationToken,
}

impl CancelledFuture {
    /// Whether this future waits on the states that `token` watches.
    pub closed spec fn waits_on(&self, token: &CancellationToken) -> bool {
        self.token.watched() == token.watched()
    }

    /// Polls for cancellation: returns `true` (ready) if it was triggered on
    /// a watched state, and otherwise registers `waker` with every watched
    /// state, so that cancelling any of them wakes the task.
    ///
    /// The states are shared with other tasks, so no clause states the
    /// result; each registration keeps the lock's invariant, so a waker is
    /// never left behind by a cancellation.
    pub fn poll_with(&self, waker: Waker) -> (ready: bool) {
        if self.token.is_cancelled() {
            return true;
        }
        let mut i: usize = 0;
        while i < self.token.parents.len()
            decreases self.token.parents.len() - i,
        {
            if register_shared(&*self.token.parents[i], clone_waker(&waker)) {
                return true;
            }
            i = i + 1;
        }
        register_shared(&*self.token.own, waker)
    }
}

/// A child is linked to its parent one way: it watches everything the parent
/// watches, so the parent's cancellation reaches it, while the state the
/// child owns is one the parent does not watch, so the child's cancellation
/// leaves the parent alone. Clones watch the same states.
pub proof fn law_child_token_links_one_way(
    parent: CancellationToken,
    child: CancellationToken,
)
    requires
        parent.wf(),
        child.watched() == parent.watched().push(child.own_state()),
        !parent.watches(child.own_state()),
    ensures
        forall|s: SharedState| parent.watches(s) ==> child.watches(s),
        child.watches(child.own_state()),
        !parent.watches(child.own_state()),
{
    assert forall|s: SharedState| parent.watches(s) implies child.watches(s) by {
        let k = choose|k: int| 0 <= k < parent.watched().len() && parent.watched()[k] == s;
        assert(child.watched()[k] == s);
    }
    assert(child.watched()[child.watched().len() - 1] == child.own_state());
}

} // verus!

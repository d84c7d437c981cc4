//! The registry of live processes: the supervised client, the helper processes
//! started beside it, and the once-per-run update claim.
//!
//! The registry only keeps the books. Stopping hands back the process ids that
//! the caller has to terminate; the registry forgets them in the same step, so
//! that a second stop finds nothing left.

use vstd::prelude::*;

verus! {

/// The part a registered process plays.
#[derive(Clone, Copy, Debug, PartialEq, Eq, Structural)]
pub enum Role {
    /// The supervised client.
    Main,
    /// A short-lived helper, such as a driver installer.
    Auxiliary,
}

/// What a registry holds, as a mathematical value.
pub struct RegistryState {
    /// The process id of the supervised client, 0 where there is none.
    pub main: u32,
    /// The helper processes, in the order of their registration.
    pub auxiliary: Seq<u32>,
    /// The update check of this run has been claimed.
    pub update_claimed: bool,
}

impl RegistryState {
    /// No helper is 0, none is the client, none is listed twice.
    pub open spec fn wf(self) -> bool {
        &&& forall|i: int| 0 <= i < self.auxiliary.len() ==> self.auxiliary[i] != 0
        &&& forall|i: int| 0 <= i < self.auxiliary.len() ==> self.auxiliary[i] != self.main
        &&& forall|i: int, j: int|
            0 <= i < j < self.auxiliary.len() ==> self.auxiliary[i] != self.auxiliary[j]
    }

    /// A client is registered.
    pub open spec fn running(self) -> bool {
        self.main != 0
    }

    /// `pid` is registered, in either role.
    pub open spec fn holds(self, pid: u32) -> bool {
        pid != 0 && (self.main == pid || self.auxiliary.contains(pid))
    }

    /// The registered processes in the order in which a stop terminates them:
    /// the client first, then the helpers.
    pub open spec fn live(self) -> Seq<u32> {
        if self.main != 0 {
            seq![self.main] + self.auxiliary
        } else {
            self.auxiliary
        }
    }

    /// The state after a stop: no process is left; the update claim stays.
    pub open spec fn stopped(self) -> RegistryState {
        RegistryState { main: 0, auxiliary: Seq::empty(), update_claimed: self.update_claimed }
    }

    /// The state after `pid` was registered in `role`. The process id 0 names
    /// no process and is not registered. A process has one role: one that is
    /// registered as the client leaves the helpers, and the client is not
    /// registered as a helper again.
    pub open spec fn registered(self, pid: u32, role: Role) -> RegistryState {
        if pid == 0 {
            self
        } else {
            match role {
                Role::Main => RegistryState {
                    main: pid,
                    auxiliary: without(self.auxiliary, pid),
                    update_claimed: self.update_claimed,
                },
                Role::Auxiliary => if self.holds(pid) {
                    self
                } else {
                    RegistryState {
                        main: self.main,
                        auxiliary: self.auxiliary.push(pid),
                        update_claimed: self.update_claimed,
                    }
                },
            }
        }
    }

    /// The state after `pid` has ended and its record was removed.
    pub open spec fn released(self, pid: u32) -> RegistryState {
        RegistryState {
            main: if self.main == pid {
                0
            } else {
                self.main
            },
            auxiliary: without(self.auxiliary, pid),
            update_claimed: self.update_claimed,
        }
    }
}

/// The registry of live processes.
pub struct ProcessRegistry {
    main: u32,
    auxiliary: Vec<u32>,
    update_claimed: bool,
}

impl View for ProcessRegistry {
    type V = RegistryState;

    closed spec fn view(&self) -> RegistryState {
        RegistryState {
            main: self.main,
            auxiliary: self.auxiliary@,
            update_claimed: self.update_claimed,
        }
    }
}

/// The sequence without `pid`, the order of the others kept.
pub open spec fn without(list: Seq<u32>, pid: u32) -> Seq<u32> {
    list.filter(|p: u32| p != pid)
}

/// What is left of a sequence without `pid` does not hold `pid`, comes from
/// the sequence, and is distinct where the sequence was.
proof fn lemma_without(list: Seq<u32>, pid: u32)
    ensures
        forall|i: int|
            0 <= i < without(list, pid).len() ==> #[trigger] without(list, pid)[i] != pid
                && list.contains(without(list, pid)[i]),
        (forall|a: int, b: int| 0 <= a < b < list.len() ==> list[a] != list[b]) ==> (forall|
            i: int,
            j: int,
        | 0 <= i < j < without(list, pid).len() ==> without(list, pid)[i] != without(list, pid)[j]),
    decreases list.len(),
{
    reveal(Seq::filter);
    let kept = without(list, pid);
    if list.len() > 0 {
        let front = list.drop_last();
        let front_kept = without(front, pid);
        lemma_without(front, pid);
        assert forall|i: int| 0 <= i < kept.len() implies #[trigger] kept[i] != pid
            && list.contains(kept[i]) by {
            if i < front_kept.len() {
                assert(front.contains(front_kept[i]));
                let a = choose|a: int| 0 <= a < front.len() && front[a] == front_kept[i];
                assert(list[a] == kept[i]);
            } else {
                assert(list[list.len() - 1] == kept[i]);
            }
        }
        if forall|a: int, b: int| 0 <= a < b < list.len() ==> list[a] != list[b] {
            assert forall|i: int, j: int| 0 <= i < j < kept.len() implies kept[i] != kept[j] by {
                if j >= front_kept.len() {
                    assert(front.contains(front_kept[i]));
                    let a = choose|a: int| 0 <= a < front.len() && front[a] == front_kept[i];
                    assert(list[a] != list[list.len() - 1]);
                } else {
                    assert(front[i] == list[i]);
                    assert(forall|a: int, b: int|
                        0 <= a < b < front.len() ==> front[a] == list[a] && front[b] == list[b]);
                }
            }
        }
    }
}

/// Removing a process id, and changing the client to that id or to none,
/// keeps a registry well formed.
proof fn lemma_without_keeps_wf(s: RegistryState, pid: u32, main: u32)
    requires
        s.wf(),
        main == pid || main == s.main || main == 0,
    ensures
        (RegistryState {
            main,
            auxiliary: without(s.auxiliary, pid),
            update_claimed: s.update_claimed,
        }).wf(),
        !without(s.auxiliary, pid).contains(pid),
{
    lemma_without(s.auxiliary, pid);
    let kept = without(s.auxiliary, pid);
    assert forall|i: int| 0 <= i < kept.len() implies kept[i] != 0 && kept[i] != main by {
        assert(s.auxiliary.contains(kept[i]));
    }
}

impl ProcessRegistry {
    #[verifier::type_invariant]
    spec fn inv(&self) -> bool {
        self@.wf()
    }

    /// An empty registry: no client, no helper, the update check unclaimed.
    pub fn new() -> (r: Self)
        ensures
            r@ == (RegistryState { main: 0, auxiliary: Seq::empty(), update_claimed: false }),
            r@.wf(),
    {
        ProcessRegistry { main: 0, auxiliary: Vec::new(), update_claimed: false }
    }

    /// The process id of the registered client, 0 where there is none.
    pub fn main_pid(&self) -> (r: u32)
        ensures
            r == self@.main,
    {
        self.main
    }

    /// Whether `pid` is registered, in either role.
    pub fn holds(&self, pid: u32) -> (r: bool)
        ensures
            r == self@.holds(pid),
    {
        if pid == 0 {
            return false;
        }
        if self.main == pid {
            return true;
        }
        let mut i: usize = 0;
        while i < self.auxiliary.len()
            invariant
                pid != 0,
                i <= self.auxiliary@.len(),
                forall|k: int| 0 <= k < i ==> self.auxiliary@[k] != pid,
            decreases self.auxiliary@.len() - i,
        {
            if self.auxiliary[i] == pid {
                assert(self.auxiliary@[i as int] == pid);
                return true;
            }
            i += 1;
        }
        false
    }

    /// Registers `pid` in `role`. Returns whether `pid` names a process, that
    /// is, whether it is not 0.
    pub fn register(&mut self, pid: u32, role: Role) -> (r: bool)
        ensures
            r == (pid != 0),
            final(self)@ == old(self)@.registered(pid, role),
            final(self)@.wf(),
            r ==> final(self)@.holds(pid),
    {
        proof {
            use_type_invariant(&*self);
        }
        if pid == 0 {
            return false;
        }
        match role {
            Role::Main => {
                let kept = remove_pid(&self.auxiliary, pid);
                proof {
                    lemma_without_keeps_wf(self@, pid, pid);
                }
                *self = ProcessRegistry {
                    main: pid,
                    auxiliary: kept,
                    update_claimed: self.update_claimed,
                };
            },
            Role::Auxiliary => {
                if !self.holds(pid) {
                    let mut listed: Vec<u32> = Vec::new();
                    listed.extend_from_slice(self.auxiliary.as_slice());
                    listed.push(pid);
                    assert(listed@ =~= self.auxiliary@.push(pid));
                    self.auxiliary = listed;
                    assert(self.auxiliary@.last() == pid);
                }
            },
        }
        true
    }

    /// Removes the record of `pid`, which has ended.
    pub fn unregister(&mut self, pid: u32)
        ensures
            final(self)@ == old(self)@.released(pid),
            final(self)@.wf(),
            !final(self)@.holds(pid),
    {
        proof {
            use_type_invariant(&*self);
        }
        let kept = remove_pid(&self.auxiliary, pid);
        let main: u32 = if self.main == pid {
            0
        } else {
            self.main
        };
        proof {
            lemma_without_keeps_wf(self@, pid, main);
        }
        *self = ProcessRegistry { main, auxiliary: kept, update_claimed: self.update_claimed };
    }

    /// Claims the update check of this run. Returns `true` to the first claim
    /// and `false` to every later one.
    pub fn claim_update(&mut self) -> (r: bool)
        ensures
            r == !old(self)@.update_claimed,
            final(self)@ == (RegistryState { update_claimed: true, ..old(self)@ }),
            final(self)@.wf(),
    {
        proof {
            use_type_invariant(&*self);
        }
        let first = !self.update_claimed;
        self.update_claimed = true;
        first
    }
}

/// The process ids of `list` without `pid`, in their order.
fn remove_pid(list: &Vec<u32>, pid: u32) -> (r: Vec<u32>)
    ensures
        r@ == without(list@, pid),
{
    let mut out: Vec<u32> = Vec::new();
    let mut i: usize = 0;
    proof {
        reveal(Seq::filter);
        assert(list@.take(0) =~= Seq::<u32>::empty());
    }
    while i < list.len()
        invariant
            i <= list@.len(),
            out@ == without(list@.take(i as int), pid),
        decreases list@.len() - i,
    {
        proof {
            reveal(Seq::filter);
            assert(list@.take(i + 1).drop_last() =~= list@.take(i as int));
        }
        if list[i] != pid {
            out.push(list[i]);
        }
        i += 1;
    }
    assert(list@.take(list@.len() as int) =~= list@);
    out
}

/// Whether a supervised client is registered.
pub fn is_running(registry: &ProcessRegistry) -> (r: bool)
    ensures
        r == registry@.running(),
{
    registry.main != 0
}

/// Stops everything: clears the registry and returns the process ids to
/// terminate, the client first, then the helpers in the order of their
/// registration. Nothing is running afterwards, and a second call returns
/// nothing.
pub fn stop_hiper_directly(registry: &mut ProcessRegistry) -> (r: Vec<u32>)
    ensures
        r@ == old(registry)@.live(),
        final(registry)@ == old(registry)@.stopped(),
        final(registry)@.wf(),
        !final(registry)@.running(),
        forall|pid: u32| !final(registry)@.holds(pid),
{
    let mut doomed: Vec<u32> = Vec::new();
    if registry.main != 0 {
        doomed.push(registry.main);
    }
    doomed.extend_from_slice(registry.auxiliary.as_slice());
    assert(doomed@ =~= old(registry)@.live());
    *registry = ProcessRegistry {
        main: 0,
        auxiliary: Vec::new(),
        update_claimed: registry.update_claimed,
    };
    doomed
}

/// Stopping is idempotent: after a stop nothing runs and no process id is
/// registered, and a second stop in a row finds nothing to terminate and
/// leaves the registry as the first left it.
pub proof fn lemma_stop_idempotent(s: RegistryState)
    ensures
        !s.stopped().running(),
        forall|pid: u32| !s.stopped().holds(pid),
        s.stopped().live() == Seq::<u32>::empty(),
        s.stopped().stopped() == s.stopped(),
        s.stopped().wf(),
{
}

} // verus!

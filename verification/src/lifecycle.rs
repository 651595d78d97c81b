//! The runtime lifecycle state machine.
//!
//! The foreign runtime is process-wide state with init-once/exit-once
//! semantics. This module keeps the decisions: which action the guard must
//! perform at each step and which states allow a foreign call. The caller
//! performs the actions themselves (the foreign init and exit calls) and is
//! expected to hold at most one lifecycle per process; it must drive the
//! lifecycle to its end on every exit path.

use vstd::prelude::*;

verus! {

/// The three states of the foreign runtime within one process.
#[derive(Clone, Copy, Debug, PartialEq, Eq, Structural)]
pub enum LifecycleState {
    Uninitialized,
    Running,
    Finalized,
}

/// An action the guard's owner must perform against the foreign runtime.
#[derive(Clone, Copy, Debug, PartialEq, Eq, Structural)]
pub enum RuntimeAction {
    Init,
    Exit,
}

/// The lifecycle of the foreign runtime: the current state together with
/// the record of every action issued so far.
#[derive(Debug)]
pub struct RuntimeLifecycle {
    state: LifecycleState,
    actions: Vec<RuntimeAction>,
}

impl RuntimeLifecycle {
    /// The current state.
    pub closed spec fn state(self) -> LifecycleState {
        self.state
    }

    /// Every action issued so far, in order.
    pub closed spec fn log(self) -> Seq<RuntimeAction> {
        self.actions@
    }

    /// The record matches the state: nothing before initialization, exactly
    /// one initialization while running, and exactly one finalization after
    /// it once finalized.
    pub open spec fn wf(self) -> bool {
        match self.state() {
            LifecycleState::Uninitialized => self.log() == Seq::<RuntimeAction>::empty(),
            LifecycleState::Running => self.log() == seq![RuntimeAction::Init],
            LifecycleState::Finalized => self.log() == seq![RuntimeAction::Init, RuntimeAction::Exit],
        }
    }

    /// A fresh lifecycle: no action issued yet.
    pub fn new() -> (s: Self)
        ensures
            s.wf(),
            s.state() is Uninitialized,
    {
        RuntimeLifecycle { state: LifecycleState::Uninitialized, actions: Vec::new() }
    }

    /// The construction step: decides that the runtime must now be
    /// initialized, exactly once, before any foreign call.
    pub fn begin(&mut self) -> (a: RuntimeAction)
        requires
            old(self).wf(),
            old(self).state() is Uninitialized,
        ensures
            final(self).wf(),
            final(self).state() is Running,
            a == RuntimeAction::Init,
            final(self).log() == old(self).log().push(RuntimeAction::Init),
    {
        self.state = LifecycleState::Running;
        self.actions.push(RuntimeAction::Init);
        proof {
            assert(self.log() =~= seq![RuntimeAction::Init]);
        }
        RuntimeAction::Init
    }

    /// The teardown step: decides that the runtime must now be finalized,
    /// exactly once, after which no foreign call may follow.
    pub fn finish(&mut self) -> (a: RuntimeAction)
        requires
            old(self).wf(),
            old(self).state() is Running,
        ensures
            final(self).wf(),
            final(self).state() is Finalized,
            a == RuntimeAction::Exit,
            final(self).log() == old(self).log().push(RuntimeAction::Exit),
    {
        self.state = LifecycleState::Finalized;
        self.actions.push(RuntimeAction::Exit);
        proof {
            assert(self.log() =~= seq![RuntimeAction::Init, RuntimeAction::Exit]);
        }
        RuntimeAction::Exit
    }

    /// Whether a foreign call other than init and exit may be made now.
    pub fn foreign_calls_allowed(&self) -> (r: bool)
        ensures
            r == (self.state() is Running),
    {
        match self.state {
            LifecycleState::Running => true,
            _ => false,
        }
    }

    /// The current state, observable.
    pub fn current_state(&self) -> (s: LifecycleState)
        ensures
            s == self.state(),
    {
        self.state
    }

    /// The actions issued so far, observable.
    pub fn issued_actions(&self) -> (v: &Vec<RuntimeAction>)
        ensures
            v@ == self.log(),
    {
        &self.actions
    }
}

/// How many of the actions are `a`.
pub open spec fn action_count(s: Seq<RuntimeAction>, a: RuntimeAction) -> nat
    decreases s.len(),
{
    if s.len() == 0 {
        0
    } else if s.last() == a {
        action_count(s.drop_last(), a) + 1
    } else {
        action_count(s.drop_last(), a)
    }
}

/// Law: a lifecycle that was begun and then finished has issued exactly one
/// initialization and exactly one finalization, the initialization first.
pub proof fn lemma_finalized_exactly_once(l: RuntimeLifecycle)
    requires
        l.wf(),
        l.state() is Finalized,
    ensures
        l.log() == seq![RuntimeAction::Init, RuntimeAction::Exit],
        action_count(l.log(), RuntimeAction::Init) == 1,
        action_count(l.log(), RuntimeAction::Exit) == 1,
{
    let log = seq![RuntimeAction::Init, RuntimeAction::Exit];
    let first = seq![RuntimeAction::Init];
    let none = Seq::<RuntimeAction>::empty();
    assert(log.drop_last() =~= first);
    assert(first.drop_last() =~= none);
    assert(action_count(none, RuntimeAction::Init) == 0);
    assert(action_count(none, RuntimeAction::Exit) == 0);
    assert(action_count(first, RuntimeAction::Init) == 1);
    assert(action_count(first, RuntimeAction::Exit) == 0);
    assert(action_count(log, RuntimeAction::Init) == 1);
    assert(action_count(log, RuntimeAction::Exit) == 1);
}

} // verus!

//! The service: the single consumer of the ordered request queue, and the
//! only owner of the store.
//!
//! The runtime drains the queue and calls [`Service::step`] for each command
//! in arrival order, so no two commands are ever processed concurrently. The
//! step returns the outcome to send back through the command's reply channel,
//! and an [`Effect`] telling the runtime what else the command asks of it:
//! nothing, a persistence pass over a snapshot of the store, or closing the
//! queue's intake. The whole transition is specified by the pure
//! [`step_state`] / [`step_outcome`] functions over [`ServiceModel`], which
//! the laws of this crate reason about.

use vstd::prelude::*;

use crate::codec::Command;
use crate::codec::CommandModel;
use crate::codec::Outcome;
use crate::codec::OutcomeModel;
use crate::store::Store;
use crate::store::map_of;
use crate::store::unique_keys;

verus! {

/// The spec-level state of the service: the stored map, whether the queue's
/// intake has been closed, and whether the store changed since it was last
/// persisted.
pub struct ServiceModel {
    pub map: Map<Seq<char>, Seq<char>>,
    pub closed: bool,
    pub dirty: bool,
}

impl ServiceModel {
    /// The state at service start: an empty store, accepting commands,
    /// nothing to persist.
    pub open spec fn init() -> ServiceModel {
        ServiceModel { map: Map::empty(), closed: false, dirty: false }
    }
}

/// The state after processing one command.
pub open spec fn step_state(s: ServiceModel, c: CommandModel) -> ServiceModel {
    match c {
        CommandModel::Put { key, value } => ServiceModel {
            map: s.map.insert(key, value),
            closed: s.closed,
            dirty: true,
        },
        CommandModel::Get { .. } => s,
        CommandModel::Persist => ServiceModel { map: s.map, closed: s.closed, dirty: false },
        CommandModel::Close => ServiceModel { map: s.map, closed: true, dirty: s.dirty },
    }
}

/// The outcome replied for one command processed in state `s`.
pub open spec fn step_outcome(s: ServiceModel, c: CommandModel) -> OutcomeModel {
    match c {
        CommandModel::Get { key } => if s.map.contains_key(key) {
            OutcomeModel::Value(s.map[key])
        } else {
            OutcomeModel::NotFound(key)
        },
        _ => OutcomeModel::Done,
    }
}

/// The state after processing a whole sequence of commands in order.
pub open spec fn run_state(s: ServiceModel, cs: Seq<CommandModel>) -> ServiceModel
    decreases cs.len(),
{
    if cs.len() == 0 {
        s
    } else {
        step_state(run_state(s, cs.drop_last()), cs.last())
    }
}

/// What a processed command asks of the runtime, besides delivering the
/// outcome to the reply channel.
pub enum Effect {
    /// Nothing; keep draining the queue.
    Proceed,
    /// Hand this snapshot of the store to the persistence collaborator.
    Persist(Vec<(String, String)>),
    /// Close the queue's intake; commands already queued are still drained.
    CloseIntake,
}

/// The effect owed for command `c` processed in state `s`.
pub open spec fn effect_matches(s: ServiceModel, c: CommandModel, e: Effect) -> bool {
    match c {
        CommandModel::Persist => if s.dirty {
            e matches Effect::Persist(snap) && map_of(snap@) == s.map && unique_keys(snap@)
        } else {
            e is Proceed
        },
        CommandModel::Close => e is CloseIntake,
        _ => e is Proceed,
    }
}

/// The service task's state: the store it exclusively owns, the intake flag,
/// and the dirty flag driving persistence.
pub struct Service {
    store: Store,
    closed: bool,
    dirty: bool,
}

impl View for Service {
    type V = ServiceModel;

    closed spec fn view(&self) -> ServiceModel {
        ServiceModel { map: self.store@, closed: self.closed, dirty: self.dirty }
    }
}

impl Service {
    /// The store's entries hold pairwise distinct keys.
    pub closed spec fn wf(&self) -> bool {
        self.store.wf()
    }

    /// A service over an empty store.
    pub fn new() -> (s: Service)
        ensures
            s.wf(),
            s@ == ServiceModel::init(),
    {
        Service { store: Store::new(), closed: false, dirty: false }
    }

    /// Whether the queue's intake is still open. A submission made after
    /// `Close` was processed must be refused, not silently dropped; the
    /// runtime reports it as the service being unavailable.
    pub fn accepts(&self) -> (r: bool)
        ensures
            r == !self@.closed,
    {
        !self.closed
    }

    /// Processes one command: applies it to the store, and returns the reply
    /// owed to the submitter together with the effect owed to the runtime.
    pub fn step(&mut self, c: Command) -> (r: (Outcome, Effect))
        requires
            old(self).wf(),
        ensures
            final(self).wf(),
            final(self)@ == step_state(old(self)@, c@),
            r.0@ == step_outcome(old(self)@, c@),
            effect_matches(old(self)@, c@, r.1),
    {
        match c {
            Command::Put(key, value) => {
                self.store.set(key, value);
                self.dirty = true;
                (Outcome::Done, Effect::Proceed)
            },
            Command::Get(key) => {
                match self.store.get(&key) {
                    Some(v) => (Outcome::Value(v), Effect::Proceed),
                    None => (Outcome::NotFound(key), Effect::Proceed),
                }
            },
            Command::Persist => {
                if self.dirty {
                    self.dirty = false;
                    let snap = self.store.snapshot();
                    (Outcome::Done, Effect::Persist(snap))
                } else {
                    (Outcome::Done, Effect::Proceed)
                }
            },
            Command::Close => {
                self.closed = true;
                (Outcome::Done, Effect::CloseIntake)
            },
        }
    }

    /// The final, best-effort persistence pass after the queue has drained:
    /// a snapshot to hand to the persistence collaborator if the store still
    /// has unpersisted changes, `None` otherwise.
    pub fn finish(&mut self) -> (r: Option<Vec<(String, String)>>)
        requires
            old(self).wf(),
        ensures
            final(self).wf(),
            final(self)@ == (ServiceModel {
                map: old(self)@.map,
                closed: old(self)@.closed,
                dirty: false,
            }),
            match r {
                Some(snap) => old(self)@.dirty && map_of(snap@) == old(self)@.map
                    && unique_keys(snap@),
                None => !old(self)@.dirty,
            },
    {
        if self.dirty {
            self.dirty = false;
            Some(self.store.snapshot())
        } else {
            None
        }
    }
}

} // verus!

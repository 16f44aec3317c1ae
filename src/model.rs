//! The specification model: states, events and extended state of a machine,
//! as plain data.
use vstd::prelude::*;
use crate::action::Stmt;

verus! {

/// A field of a state's local data, of the extended state, or an event
/// parameter.
pub struct FieldSpec {
    pub name: String,
    /// The type's name, as shown in diagrams.
    pub ty: String,
    /// The declared default value; `None` when no default expression was
    /// given, in which case the type's default (zero) stands for local data
    /// and parameters, and an extended field must be supplied.
    pub default: Option<u64>,
}

pub struct StateSpec {
    pub name: String,
    pub fields: Vec<FieldSpec>,
    /// Runs when the state is entered, with its local fields in scope.
    pub entry: Vec<Stmt>,
    /// Runs when the state is left, with its local fields in scope.
    pub exit: Vec<Stmt>,
    pub initial: bool,
    pub terminal: bool,
}

/// Where an event may be raised from.
#[derive(Clone, Copy, PartialEq, Eq, Structural, Debug)]
pub enum Source {
    /// Any state (a universal transition).
    Any,
    /// The state at this index.
    State(usize),
}

pub struct EventSpec {
    pub name: String,
    pub source: Source,
    /// The state at this index is entered; `None` for an internal transition.
    pub target: Option<usize>,
    pub params: Vec<FieldSpec>,
    /// Names of the source state's local fields that the action may use.
    pub locals: Vec<String>,
    pub action: Vec<Stmt>,
}

pub struct MachineSpec {
    pub name: String,
    /// Type parameters, as shown in the diagram's title.
    pub type_vars: Vec<String>,
    pub states: Vec<StateSpec>,
    pub events: Vec<EventSpec>,
    pub extended: Vec<FieldSpec>,
    /// The name by which initial and terminal actions see the machine.
    pub self_reference: String,
    /// Runs once when a machine is built, before the initial state's entry
    /// action, with the initial state's local fields in scope.
    pub initial_action: Vec<Stmt>,
    /// Runs when a machine is finished in its terminal state.
    pub terminate_success: Vec<Stmt>,
    /// Runs when a machine is finished in another state.
    pub terminate_failure: Vec<Stmt>,
}

/// The kind of transition an event makes.
#[derive(Clone, Copy, PartialEq, Eq, Structural, Debug)]
pub enum Transition {
    /// Stays in the state at this index.
    Internal(usize),
    /// From the first state to the second.
    External(usize, usize),
    /// From any state to this one.
    Universal(usize),
}

/// The transition of an event; `None` for a wildcard source without target.
pub open spec fn transition_of(source: Source, target: Option<usize>) -> Option<Transition> {
    match (source, target) {
        (Source::State(s), None) => Some(Transition::Internal(s)),
        (Source::State(s), Some(t)) => Some(Transition::External(s, t)),
        (Source::Any, Some(t)) => Some(Transition::Universal(t)),
        (Source::Any, None) => None,
    }
}

impl EventSpec {
    /// The transition that this event makes.
    pub fn transition(&self) -> (r: Option<Transition>)
        ensures
            r == transition_of(self.source, self.target),
    {
        match (self.source, self.target) {
            (Source::State(s), None) => Some(Transition::Internal(s)),
            (Source::State(s), Some(t)) => Some(Transition::External(s, t)),
            (Source::Any, Some(t)) => Some(Transition::Universal(t)),
            (Source::Any, None) => None,
        }
    }
}

/// Whether the state carries the initial mark (`initial`) or the terminal
/// mark (otherwise).
pub open spec fn marked(s: StateSpec, initial: bool) -> bool {
    if initial { s.initial } else { s.terminal }
}

/// The index of the first of the first `n` states that carries the mark.
pub open spec fn first_marked(states: Seq<StateSpec>, initial: bool, n: int) -> Option<int>
    decreases n,
{
    if n <= 0 {
        None
    } else {
        match first_marked(states, initial, n - 1) {
            Some(i) => Some(i),
            None => if marked(states[n - 1], initial) { Some(n - 1) } else { None },
        }
    }
}

/// How many of the first `n` states carry the mark.
pub open spec fn count_marked(states: Seq<StateSpec>, initial: bool, n: int) -> nat
    decreases n,
{
    if n <= 0 {
        0
    } else {
        count_marked(states, initial, n - 1) + if marked(states[n - 1], initial) { 1nat } else { 0nat }
    }
}

impl MachineSpec {
    /// The index of the initial state.
    pub open spec fn initial_index(&self) -> Option<int> {
        first_marked(self.states@, true, self.states@.len() as int)
    }

    /// The index of the terminal state.
    pub open spec fn terminal_index(&self) -> Option<int> {
        first_marked(self.states@, false, self.states@.len() as int)
    }

    /// Finds the first state that carries the initial mark (`initial`) or the
    /// terminal mark.
    pub fn find_marked(&self, initial: bool) -> (r: Option<usize>)
        ensures
            r matches Some(i) ==> i < self.states@.len() && first_marked(self.states@, initial, self.states@.len() as int)
                == Some(i as int),
            r is None ==> first_marked(self.states@, initial, self.states@.len() as int) is None,
    {
        let mut i: usize = 0;
        while i < self.states.len()
            invariant
                i <= self.states@.len(),
                first_marked(self.states@, initial, i as int) is None,
            decreases self.states.len() - i,
        {
            let m = if initial { self.states[i].initial } else { self.states[i].terminal };
            if m {
                assert(first_marked(self.states@, initial, i + 1) == Some(i as int));
                proof { lemma_first_marked_stable(self.states@, initial, i + 1, self.states@.len() as int); }
                return Some(i);
            }
            i = i + 1;
        }
        None
    }
}

impl MachineSpec {
    /// The index of the state marked initial (the first, if several are).
    pub fn initial_state(&self) -> (r: Option<usize>)
        ensures
            r matches Some(i) ==> i < self.states@.len(),
            self.initial_index() == (match r {
                Some(i) => Some(i as int),
                None => None,
            }),
    {
        self.find_marked(true)
    }

    /// The index of the state marked terminal (the first, if several are).
    pub fn terminal_state(&self) -> (r: Option<usize>)
        ensures
            r matches Some(i) ==> i < self.states@.len(),
            self.terminal_index() == (match r {
                Some(i) => Some(i as int),
                None => None,
            }),
    {
        self.find_marked(false)
    }
}

/// Once found among the first `n` states, the first marked state stays the
/// same among more of them.
pub proof fn lemma_first_marked_stable(states: Seq<StateSpec>, initial: bool, n: int, k: int)
    requires
        0 <= n <= k,
        first_marked(states, initial, n) is Some,
    ensures
        first_marked(states, initial, k) == first_marked(states, initial, n),
    decreases k - n,
{
    if k > n {
        lemma_first_marked_stable(states, initial, n, k - 1);
    }
}

/// When some of the first `n` states carry the mark, the first marked state
/// is one of them.
pub proof fn lemma_first_marked_found(states: Seq<StateSpec>, initial: bool, n: int)
    requires
        0 <= n <= states.len(),
        count_marked(states, initial, n) > 0,
    ensures
        first_marked(states, initial, n) matches Some(i) && 0 <= i < n,
{
    lemma_first_marked_count(states, initial, n);
}

proof fn lemma_first_marked_count(states: Seq<StateSpec>, initial: bool, n: int)
    requires
        0 <= n <= states.len(),
    ensures
        (first_marked(states, initial, n) is None) == (count_marked(states, initial, n) == 0),
        first_marked(states, initial, n) matches Some(i) ==> 0 <= i < n,
    decreases n,
{
    if n > 0 {
        lemma_first_marked_count(states, initial, n - 1);
    }
}

} // verus!

//! The runtime: machine instances built from a valid specification, and the
//! dispatch of events to them.
use vstd::prelude::*;
use crate::action::{lemma_run_lengths, run, run_action, Data, Stmt};
use crate::check::{event_error, one_event_error};
use crate::model::{lemma_first_marked_found, transition_of, FieldSpec, MachineSpec, Source, Transition};

verus! {

/// Describes an exceptional result when attempting to handle an event.
#[derive(Clone, Copy, PartialEq, Eq, Structural, Debug)]
pub enum HandleEventException {
    /// The event may not be raised from the current state.
    WrongState,
}

/// Why finishing a machine reported failure.
#[derive(Clone, Copy, PartialEq, Eq, Structural, Debug)]
pub enum FinishError {
    /// The machine was not in its terminal state.
    NotTerminal,
}

/// An event to dispatch: the index of its specification and the values of
/// its parameters.
pub struct Event {
    pub id: usize,
    pub params: Vec<u64>,
}

/// The abstract value of a machine instance.
pub struct MachineView {
    /// The index of the current state.
    pub state: int,
    /// The current state's local data.
    pub locals: Seq<u64>,
    pub extended: Seq<u64>,
}

/// A running instance of a machine specification.
pub struct Machine<'a> {
    spec: &'a MachineSpec,
    state: usize,
    locals: Vec<u64>,
    extended: Vec<u64>,
}

/// The value a field starts with: its declared default, else zero.
pub open spec fn default_value(f: FieldSpec) -> u64 {
    match f.default {
        Some(v) => v,
        None => 0,
    }
}

/// The default values of a sequence of fields.
pub open spec fn defaults(fields: Seq<FieldSpec>) -> Seq<u64> {
    fields.map_values(|f: FieldSpec| default_value(f))
}

/// The local data of the state at index `s` when it is entered, before its
/// entry action.
pub open spec fn fresh_locals(m: MachineSpec, s: int) -> Seq<u64> {
    defaults(m.states@[s].fields@)
}

/// The instance after entering state `t` with extended state `ext`: its
/// local fields take their defaults, then its entry action runs.
pub open spec fn enter(m: MachineSpec, t: int, ext: Seq<u64>) -> MachineView {
    let d = run(Data { locals: fresh_locals(m, t), extended: ext }, Seq::empty(), m.states@[t].entry@);
    MachineView { state: t, locals: d.locals, extended: d.extended }
}

/// The data after the exit action of the current state.
pub open spec fn after_exit(m: MachineSpec, v: MachineView) -> Data {
    run(Data { locals: v.locals, extended: v.extended }, Seq::empty(), m.states@[v.state].exit@)
}

/// A transition that changes state: the exit action of the current state,
/// then the event's action, then the swap to the target's fresh local data,
/// then the target's entry action.
pub open spec fn change_state(m: MachineSpec, v: MachineView, id: int, params: Seq<u64>, t: int) -> MachineView {
    let d1 = after_exit(m, v);
    let d2 = run(d1, params, m.events@[id].action@);
    enter(m, t, d2.extended)
}

/// An internal transition: the event's action with the current local data in
/// scope, and no change of state.
pub open spec fn stay(m: MachineSpec, v: MachineView, id: int, params: Seq<u64>) -> MachineView {
    let d = run(Data { locals: v.locals, extended: v.extended }, params, m.events@[id].action@);
    MachineView { state: v.state, locals: d.locals, extended: d.extended }
}

/// Whether the event at index `id` may be raised in state `s`.
pub open spec fn accepts(m: MachineSpec, s: int, id: int) -> bool {
    match transition_of(m.events@[id].source, m.events@[id].target) {
        Some(Transition::Universal(_)) => true,
        Some(Transition::Internal(src)) => src == s,
        Some(Transition::External(src, _)) => src == s,
        None => false,
    }
}

/// The instance after the event at index `id` with the given parameters is
/// handled, and the result of handling it.
pub open spec fn dispatch(m: MachineSpec, v: MachineView, id: int, params: Seq<u64>) -> (MachineView, Result<(), HandleEventException>) {
    if !accepts(m, v.state, id) {
        (v, Err(HandleEventException::WrongState))
    } else {
        match transition_of(m.events@[id].source, m.events@[id].target) {
            Some(Transition::Internal(_)) => (stay(m, v, id, params), Ok(())),
            Some(Transition::External(_, t)) => (change_state(m, v, id, params, t as int), Ok(())),
            Some(Transition::Universal(t)) => (change_state(m, v, id, params, t as int), Ok(())),
            None => (v, Err(HandleEventException::WrongState)),
        }
    }
}

/// The value of an extended field at construction: the supplied one, else
/// its default; `None` for a required field that was not supplied.
pub open spec fn ext_start(f: FieldSpec, o: Option<u64>) -> Option<u64> {
    match o {
        Some(v) => Some(v),
        None => f.default,
    }
}

/// The override supplied for extended field `i`.
pub open spec fn override_at(overrides: Seq<Option<u64>>, i: int) -> Option<u64> {
    if 0 <= i < overrides.len() { overrides[i] } else { None }
}

/// Whether every extended field gets a value.
pub open spec fn all_supplied(m: MachineSpec, overrides: Seq<Option<u64>>) -> bool {
    forall|i: int| 0 <= i < m.extended@.len() ==>
        (#[trigger] ext_start(m.extended@[i], override_at(overrides, i))) is Some
}

/// The starting extended state.
pub open spec fn ext_values(m: MachineSpec, overrides: Seq<Option<u64>>) -> Seq<u64> {
    Seq::new(m.extended@.len(), |i: int| ext_start(m.extended@[i], override_at(overrides, i)).unwrap())
}

/// A new instance: the initial state's fresh local data and the given
/// extended state, then the initial action, then the initial state's entry
/// action, both on the same data, so that the entry action sees what the
/// initial action wrote.
pub open spec fn initial_view(m: MachineSpec, ext: Seq<u64>) -> MachineView {
    let i = m.initial_index().unwrap();
    let d = run(Data { locals: fresh_locals(m, i), extended: ext }, Seq::empty(), m.initial_action@);
    let e = run(d, Seq::empty(), m.states@[i].entry@);
    MachineView { state: i, locals: e.locals, extended: e.extended }
}

/// The consistency of an instance's value with its specification.
pub open spec fn view_wf(m: MachineSpec, v: MachineView) -> bool {
    &&& 0 <= v.state < m.states@.len()
    &&& v.locals.len() == m.states@[v.state].fields@.len()
    &&& v.extended.len() == m.extended@.len()
}

impl<'a> View for Machine<'a> {
    type V = MachineView;

    closed spec fn view(&self) -> MachineView {
        MachineView { state: self.state as int, locals: self.locals@, extended: self.extended@ }
    }
}

/// In a valid specification every event passes its own checks.
pub proof fn lemma_event_ok(m: MachineSpec, k: int, j: int)
    requires
        event_error(m, k) is None,
        0 <= k <= j < m.events@.len(),
    ensures
        one_event_error(m, j) is None,
    decreases j - k,
{
    if k < j {
        lemma_event_ok(m, k + 1, j);
    }
}

/// What a valid specification guarantees the runtime: an initial state,
/// and events whose source and target states exist and whose transition
/// is defined.
pub proof fn lemma_valid_facts(m: MachineSpec)
    requires
        m.valid(),
    ensures
        m.initial_index() matches Some(i) && 0 <= i < m.states@.len(),
        forall|j: int| 0 <= j < m.events@.len() ==> {
            &&& (m.events@[j].source matches Source::State(s) ==> s < m.states@.len())
            &&& (m.events@[j].target matches Some(t) ==> t < m.states@.len())
            &&& #[trigger] transition_of(m.events@[j].source, m.events@[j].target) is Some
        },
{
    lemma_first_marked_found(m.states@, true, m.states@.len() as int);
    assert forall|j: int| 0 <= j < m.events@.len() implies {
        &&& (m.events@[j].source matches Source::State(s) ==> s < m.states@.len())
        &&& (m.events@[j].target matches Some(t) ==> t < m.states@.len())
        &&& #[trigger] transition_of(m.events@[j].source, m.events@[j].target) is Some
    } by {
        lemma_event_ok(m, 0, j);
    }
}

fn fresh_locals_exec(fields: &Vec<FieldSpec>) -> (r: Vec<u64>)
    ensures
        r@ == defaults(fields@),
{
    let mut r: Vec<u64> = Vec::new();
    let mut i: usize = 0;
    while i < fields.len()
        invariant
            i <= fields@.len(),
            r@.len() == i,
            forall|k: int| 0 <= k < i ==> r@[k] == default_value(fields@[k]),
        decreases fields.len() - i,
    {
        let v = match fields[i].default {
            Some(v) => v,
            None => 0,
        };
        r.push(v);
        i = i + 1;
    }
    assert(r@ =~= defaults(fields@));
    r
}

/// The instance after it is finished, and whether it was in its terminal
/// state: the exit action of the current state, then the success action if
/// the state is the terminal one, the failure action if another state is
/// terminal; with no terminal state, neither.
pub open spec fn finish_view(m: MachineSpec, v: MachineView) -> (MachineView, Result<(), FinishError>) {
    let d = after_exit(m, v);
    match m.terminal_index() {
        None => (MachineView { state: v.state, locals: d.locals, extended: d.extended }, Ok(())),
        Some(t) => if v.state == t {
            let e = run(d, Seq::empty(), m.terminate_success@);
            (MachineView { state: v.state, locals: e.locals, extended: e.extended }, Ok(()))
        } else {
            let e = run(d, Seq::empty(), m.terminate_failure@);
            (MachineView { state: v.state, locals: e.locals, extended: e.extended }, Err(FinishError::NotTerminal))
        },
    }
}

/// The parameters an event gets when built from its index alone.
pub open spec fn default_params(m: MachineSpec, id: int) -> Seq<u64> {
    defaults(m.events@[id].params@)
}

impl Event {
    /// The event at index `id` of `spec`, with each parameter at its default.
    pub fn from_id(spec: &MachineSpec, id: usize) -> (r: Event)
        requires
            id < spec.events@.len(),
        ensures
            r.id == id,
            r.params@ == default_params(*spec, id as int),
    {
        Event { id, params: fresh_locals_exec(&spec.events[id].params) }
    }
}

fn run_on_vecs(locals: &mut Vec<u64>, extended: &mut Vec<u64>, stmts: &Vec<Stmt>)
    ensures
        final(locals)@.len() == old(locals)@.len(),
        final(extended)@.len() == old(extended)@.len(),
        (Data { locals: final(locals)@, extended: final(extended)@ }) == run(
            Data { locals: old(locals)@, extended: old(extended)@ },
            Seq::empty(),
            stmts@,
        ),
{
    let none: Vec<u64> = Vec::new();
    run_action(locals, extended, &none, stmts);
    proof {
        lemma_run_lengths(Data { locals: old(locals)@, extended: old(extended)@ }, Seq::empty(), stmts@);
    }
}

impl<'a> Machine<'a> {
    /// The specification this instance runs.
    pub closed spec fn spec_of(&self) -> MachineSpec {
        *self.spec
    }

    /// Whether the instance is consistent with its valid specification.
    pub open spec fn wf(&self) -> bool {
        self.spec_of().valid() && view_wf(self.spec_of(), self@)
    }

    /// Builds an instance: each extended field takes the value supplied at
    /// its index in `overrides`, else its default; `None` if a field with
    /// no default is not supplied. The instance starts in the initial state
    /// with fresh local data, after the initial action and the initial
    /// state's entry action.
    pub fn new(spec: &'a MachineSpec, overrides: &Vec<Option<u64>>) -> (r: Option<Machine<'a>>)
        requires
            spec.valid(),
        ensures
            r is Some <==> all_supplied(*spec, overrides@),
            r matches Some(mc) ==> {
                &&& mc.spec_of() == *spec
                &&& mc.wf()
                &&& mc@ == initial_view(*spec, ext_values(*spec, overrides@))
            },
    {
        let mut extended: Vec<u64> = Vec::new();
        let mut i: usize = 0;
        while i < spec.extended.len()
            invariant
                i <= spec.extended@.len(),
                extended@.len() == i,
                forall|k: int| 0 <= k < i ==> (#[trigger] ext_start(spec.extended@[k], override_at(overrides@, k)))
                    == Some(extended@[k]),
            decreases spec.extended.len() - i,
        {
            let o = if i < overrides.len() { overrides[i] } else { None };
            let v = match o {
                Some(v) => v,
                None => match spec.extended[i].default {
                    Some(d) => d,
                    None => {
                        assert(ext_start(spec.extended@[i as int], override_at(overrides@, i as int)) is None);
                        return None;
                    },
                },
            };
            extended.push(v);
            i = i + 1;
        }
        assert(extended@ =~= ext_values(*spec, overrides@));
        proof {
            lemma_valid_facts(*spec);
        }
        let s0 = match spec.find_marked(true) {
            Some(s0) => s0,
            None => {
                return None;
            },
        };
        let mut locals = fresh_locals_exec(&spec.states[s0].fields);
        run_on_vecs(&mut locals, &mut extended, &spec.initial_action);
        run_on_vecs(&mut locals, &mut extended, &spec.states[s0].entry);
        Some(Machine { spec, state: s0, locals, extended })
    }

    /// Handles an event: an event whose transition starts from another
    /// state than the current one is refused with `WrongState` and changes
    /// nothing; otherwise an internal transition runs the event's action on
    /// the current data, and a transition to a state runs the exit action,
    /// the event's action, the swap to the target's fresh local data and the
    /// target's entry action, in this order.
    pub fn handle_event(&mut self, event: &Event) -> (r: Result<(), HandleEventException>)
        requires
            old(self).wf(),
            event.id < old(self).spec_of().events@.len(),
        ensures
            final(self).spec_of() == old(self).spec_of(),
            final(self).wf(),
            (final(self)@, r) == dispatch(old(self).spec_of(), old(self)@, event.id as int, event.params@),
            r is Err <==> !accepts(old(self).spec_of(), old(self)@.state, event.id as int),
            r is Err ==> final(self)@ == old(self)@,
    {
        proof {
            lemma_valid_facts(*self.spec);
        }
        let spec = self.spec;
        let ev = &spec.events[event.id];
        match ev.transition() {
            Some(Transition::Universal(t)) => {
                self.change_to(event, t);
                Ok(())
            },
            Some(Transition::Internal(s)) => {
                if self.state == s {
                    run_action(&mut self.locals, &mut self.extended, &event.params, &ev.action);
                    proof {
                        lemma_run_lengths(
                            Data { locals: old(self)@.locals, extended: old(self)@.extended },
                            event.params@,
                            ev.action@,
                        );
                    }
                    Ok(())
                } else {
                    Err(HandleEventException::WrongState)
                }
            },
            Some(Transition::External(s, t)) => {
                if self.state == s {
                    self.change_to(event, t);
                    Ok(())
                } else {
                    Err(HandleEventException::WrongState)
                }
            },
            None => Err(HandleEventException::WrongState),
        }
    }

    fn change_to(&mut self, event: &Event, t: usize)
        requires
            old(self).wf(),
            event.id < old(self).spec_of().events@.len(),
            t < old(self).spec_of().states@.len(),
        ensures
            final(self).spec_of() == old(self).spec_of(),
            final(self).wf(),
            final(self)@ == change_state(old(self).spec_of(), old(self)@, event.id as int, event.params@, t as int),
    {
        let spec = self.spec;
        run_on_vecs(&mut self.locals, &mut self.extended, &spec.states[self.state].exit);
        let ghost d1 = Data { locals: self.locals@, extended: self.extended@ };
        run_action(&mut self.locals, &mut self.extended, &event.params, &spec.events[event.id].action);
        proof {
            lemma_run_lengths(d1, event.params@, spec.events@[event.id as int].action@);
        }
        let mut fresh = fresh_locals_exec(&spec.states[t].fields);
        assert(fresh@.len() == spec.states@[t as int].fields@.len());
        run_on_vecs(&mut fresh, &mut self.extended, &spec.states[t].entry);
        self.locals = fresh;
        self.state = t;
    }

    /// Finishes the instance: runs the current state's exit action, then
    /// the success action and `Ok` in the terminal state, or the failure
    /// action and `NotTerminal` in another state when a terminal state is
    /// marked; with none marked, `Ok` after the exit action alone.
    pub fn finish(&mut self) -> (r: Result<(), FinishError>)
        requires
            old(self).wf(),
        ensures
            final(self).spec_of() == old(self).spec_of(),
            final(self).wf(),
            (final(self)@, r) == finish_view(old(self).spec_of(), old(self)@),
    {
        let spec = self.spec;
        run_on_vecs(&mut self.locals, &mut self.extended, &spec.states[self.state].exit);
        match spec.find_marked(false) {
            None => Ok(()),
            Some(t) => {
                if self.state == t {
                    run_on_vecs(&mut self.locals, &mut self.extended, &spec.terminate_success);
                    Ok(())
                } else {
                    run_on_vecs(&mut self.locals, &mut self.extended, &spec.terminate_failure);
                    Err(FinishError::NotTerminal)
                }
            },
        }
    }

    /// The index of the current state.
    pub fn state(&self) -> (r: usize)
        ensures
            r as int == self@.state,
    {
        self.state
    }

    /// The name of the current state.
    pub fn state_name(&self) -> (r: &String)
        requires
            self.wf(),
        ensures
            r@ == self.spec_of().states@[self@.state].name@,
    {
        &self.spec.states[self.state].name
    }

    /// The current state's local data.
    pub fn locals(&self) -> (r: &Vec<u64>)
        ensures
            r@ == self@.locals,
    {
        &self.locals
    }

    /// The extended state.
    pub fn extended(&self) -> (r: &Vec<u64>)
        ensures
            r@ == self@.extended,
    {
        &self.extended
    }

    /// The specification this instance runs.
    pub fn spec(&self) -> (r: &'a MachineSpec)
        ensures
            *r == self.spec_of(),
    {
        self.spec
    }
}

} // verus!

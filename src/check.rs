//! The consistency checker: what makes a machine specification valid.
use vstd::prelude::*;
use crate::action::{FieldRef, Operand, Stmt};
use crate::model::{count_marked, first_marked, EventSpec, FieldSpec, MachineSpec, Source, StateSpec};

verus! {

/// Why a machine specification is not valid.
#[derive(Clone, Copy, PartialEq, Eq, Structural, Debug)]
pub enum SpecError {
    /// Two states, the first at this index, share a name.
    DuplicateStateName(usize),
    /// The name of the state at this index holds a double quote or a
    /// backslash, which cannot stand in a quoted diagram identifier.
    InvalidStateName(usize),
    /// Two events, the first at this index, share a name.
    DuplicateEventName(usize),
    /// Two local fields of the state at this index share a name.
    DuplicateFieldName(usize),
    /// No state is marked initial.
    NoInitialState,
    /// More than one state is marked initial.
    MultipleInitialStates,
    /// More than one state is marked terminal.
    MultipleTerminalStates,
    /// The entry or exit action of the state at this index refers to a field
    /// that is not in its scope.
    InvalidStateAction(usize),
    /// The initial action refers to a field that is not in its scope.
    InvalidInitialAction,
    /// A terminal action refers to a field that is not in its scope.
    InvalidTerminalAction,
    /// The event at this index names a source state that does not exist.
    UnknownSource(usize),
    /// The event at this index names a target state that does not exist.
    UnknownTarget(usize),
    /// The event at this index may be raised from any state but has no target.
    WildcardWithoutTarget(usize),
    /// The event at this index declares in scope a local field that its source
    /// state does not have (a universal event has no local fields).
    UnknownLocalField(usize),
    /// The action of the event at this index refers to a field or parameter
    /// that is not in its scope.
    InvalidEventAction(usize),
}

/// Where an action runs, which decides the fields in its scope.
#[derive(Clone, Copy, PartialEq, Eq, Structural, Debug)]
pub enum Site {
    /// The entry or exit action of the state at this index: the extended
    /// state and that state's local fields.
    StateAction(usize),
    /// The initial action: the extended state and the initial state's local
    /// fields.
    Initial,
    /// A terminal action: the extended state.
    Terminal,
    /// The action of the event at this index: the extended state, its
    /// parameters and, for an internal transition only, the source state's
    /// local fields that it declares in scope.
    Event(usize),
}

/// The names of a sequence of fields.
pub open spec fn field_names(fields: Seq<FieldSpec>) -> Seq<Seq<char>> {
    fields.map_values(|f: FieldSpec| f.name@)
}

/// Whether `name` is among the event's declared local fields.
pub open spec fn declared(e: EventSpec, name: Seq<char>) -> bool {
    exists|q: int| 0 <= q < e.locals@.len() && e.locals@[q]@ == name
}

/// Whether local field `k` is in the scope of an action at `site`.
pub open spec fn local_in_scope(m: MachineSpec, site: Site, k: usize) -> bool {
    match site {
        Site::StateAction(i) => i < m.states@.len() && k < m.states@[i as int].fields@.len(),
        Site::Initial => match first_marked(m.states@, true, m.states@.len() as int) {
            Some(i) => 0 <= i < m.states@.len() && k < m.states@[i].fields@.len(),
            None => false,
        },
        Site::Terminal => false,
        Site::Event(j) => j < m.events@.len() && match (m.events@[j as int].source, m.events@[j as int].target) {
            (Source::State(s), None) => s < m.states@.len() && k < m.states@[s as int].fields@.len()
                && declared(m.events@[j as int], m.states@[s as int].fields@[k as int].name@),
            _ => false,
        },
    }
}

/// Whether parameter `k` is in the scope of an action at `site`.
pub open spec fn param_in_scope(m: MachineSpec, site: Site, k: usize) -> bool {
    match site {
        Site::Event(j) => j < m.events@.len() && k < m.events@[j as int].params@.len(),
        _ => false,
    }
}

/// Whether a field reference is in the scope of an action at `site`.
pub open spec fn field_in_scope(m: MachineSpec, site: Site, f: FieldRef) -> bool {
    match f {
        FieldRef::Extended(k) => k < m.extended@.len(),
        FieldRef::Local(k) => local_in_scope(m, site, k),
    }
}

/// Whether a statement reads and writes only what is in scope at `site`.
pub open spec fn stmt_in_scope(m: MachineSpec, site: Site, st: Stmt) -> bool {
    field_in_scope(m, site, st.target) && match st.operand {
        Operand::Const(_) => true,
        Operand::Param(k) => param_in_scope(m, site, k),
        Operand::Field(f) => field_in_scope(m, site, f),
    }
}

/// Whether every statement refers only to fields in the scope of `site`.
pub open spec fn action_in_scope(m: MachineSpec, site: Site, stmts: Seq<Stmt>) -> bool {
    forall|q: int| 0 <= q < stmts.len() ==> stmt_in_scope(m, site, #[trigger] stmts[q])
}

/// The first error among the states from index `i` on: duplicate field
/// names, then actions out of scope.
pub open spec fn state_error(m: MachineSpec, i: int) -> Option<SpecError>
    decreases m.states@.len() - i,
{
    if i < 0 || i >= m.states@.len() {
        None
    } else if first_repeated(field_names(m.states@[i].fields@), 0) is Some {
        Some(SpecError::DuplicateFieldName(i as usize))
    } else if !action_in_scope(m, Site::StateAction(i as usize), m.states@[i].entry@)
        || !action_in_scope(m, Site::StateAction(i as usize), m.states@[i].exit@) {
        Some(SpecError::InvalidStateAction(i as usize))
    } else {
        state_error(m, i + 1)
    }
}

/// Whether the event's declared local fields are fields of its source.
pub open spec fn locals_declared_ok(m: MachineSpec, e: EventSpec) -> bool {
    match e.source {
        Source::State(s) => forall|q: int| 0 <= q < e.locals@.len() ==>
            field_names(m.states@[s as int].fields@).contains(#[trigger] e.locals@[q]@),
        Source::Any => e.locals@.len() == 0,
    }
}

/// The first error of the event at index `j`, if any.
pub open spec fn one_event_error(m: MachineSpec, j: int) -> Option<SpecError> {
    let e = m.events@[j];
    let n = m.states@.len();
    if e.source matches Source::State(s) && s >= n {
        Some(SpecError::UnknownSource(j as usize))
    } else if e.target matches Some(t) && t >= n {
        Some(SpecError::UnknownTarget(j as usize))
    } else if e.source == Source::Any && e.target is None {
        Some(SpecError::WildcardWithoutTarget(j as usize))
    } else if !locals_declared_ok(m, e) {
        Some(SpecError::UnknownLocalField(j as usize))
    } else if !action_in_scope(m, Site::Event(j as usize), e.action@) {
        Some(SpecError::InvalidEventAction(j as usize))
    } else {
        None
    }
}

/// The first error among the events from index `j` on.
pub open spec fn event_error(m: MachineSpec, j: int) -> Option<SpecError>
    decreases m.events@.len() - j,
{
    if j < 0 || j >= m.events@.len() {
        None
    } else {
        match one_event_error(m, j) {
            Some(e) => Some(e),
            None => event_error(m, j + 1),
        }
    }
}

/// Whether a name can stand between double quotes as a diagram identifier:
/// it holds no double quote and no backslash.
pub open spec fn quote_free(s: Seq<char>) -> bool {
    forall|k: int| 0 <= k < s.len() ==> #[trigger] s[k] != '"' && s[k] != '\\'
}

/// The first index from `i` on of a state whose name is not quote free.
pub open spec fn first_unquotable(states: Seq<StateSpec>, i: int) -> Option<int>
    decreases states.len() - i,
{
    if i < 0 || i >= states.len() {
        None
    } else if !quote_free(states[i].name@) {
        Some(i)
    } else {
        first_unquotable(states, i + 1)
    }
}

/// Whether a later name equals the one at index `a`.
pub open spec fn repeated_later(names: Seq<Seq<char>>, a: int) -> bool {
    exists|b: int| a < b < names.len() && names[a] == #[trigger] names[b]
}

/// The first index from `a` on whose name occurs again later.
pub open spec fn first_repeated(names: Seq<Seq<char>>, a: int) -> Option<int>
    decreases names.len() - a,
{
    if a < 0 || a >= names.len() {
        None
    } else if repeated_later(names, a) {
        Some(a)
    } else {
        first_repeated(names, a + 1)
    }
}

impl MachineSpec {
    /// The outcome of checking this specification: the first error in this
    /// order, else success.
    pub open spec fn validation(&self) -> Result<(), SpecError> {
        match self.header_error() {
            Some(e) => Err(e),
            None => self.body_validation(),
        }
    }

    /// The first error in the names and the marks of the states.
    pub open spec fn header_error(&self) -> Option<SpecError> {
        let n = self.states@.len() as int;
        let state_names = self.states@.map_values(|s: StateSpec| s.name@);
        let event_names = self.events@.map_values(|e: EventSpec| e.name@);
        if first_repeated(state_names, 0) is Some {
            Some(SpecError::DuplicateStateName(first_repeated(state_names, 0).unwrap() as usize))
        } else if first_unquotable(self.states@, 0) is Some {
            Some(SpecError::InvalidStateName(first_unquotable(self.states@, 0).unwrap() as usize))
        } else if first_repeated(event_names, 0) is Some {
            Some(SpecError::DuplicateEventName(first_repeated(event_names, 0).unwrap() as usize))
        } else if count_marked(self.states@, true, n) == 0 {
            Some(SpecError::NoInitialState)
        } else if count_marked(self.states@, true, n) > 1 {
            Some(SpecError::MultipleInitialStates)
        } else if count_marked(self.states@, false, n) > 1 {
            Some(SpecError::MultipleTerminalStates)
        } else {
            None
        }
    }

    /// The first error in the actions and the events.
    pub open spec fn body_validation(&self) -> Result<(), SpecError> {
        if state_error(*self, 0) is Some {
            Err(state_error(*self, 0).unwrap())
        } else if !action_in_scope(*self, Site::Initial, self.initial_action@) {
            Err(SpecError::InvalidInitialAction)
        } else if !action_in_scope(*self, Site::Terminal, self.terminate_success@)
            || !action_in_scope(*self, Site::Terminal, self.terminate_failure@) {
            Err(SpecError::InvalidTerminalAction)
        } else if event_error(*self, 0) is Some {
            Err(event_error(*self, 0).unwrap())
        } else {
            Ok(())
        }
    }

    /// Whether the specification passes every check.
    pub open spec fn valid(&self) -> bool {
        self.validation() is Ok
    }
}

/// The texts of a sequence of strings.
pub open spec fn views(v: Seq<String>) -> Seq<Seq<char>> {
    v.map_values(|s: String| s@)
}

/// An optional index as a mathematical integer.
pub open spec fn as_int(r: Option<usize>) -> Option<int> {
    match r {
        Some(a) => Some(a as int),
        None => None,
    }
}

fn is_quote_free(s: &String) -> (r: bool)
    ensures
        r == quote_free(s@),
{
    let n = s.as_str().unicode_len();
    let mut k: usize = 0;
    while k < n
        invariant
            n == s@.len(),
            k <= n,
            forall|j: int| 0 <= j < k ==> #[trigger] s@[j] != '"' && s@[j] != '\\',
        decreases n - k,
    {
        let c = s.as_str().get_char(k);
        if c == '"' || c == '\\' {
            assert(!(s@[k as int] != '"' && s@[k as int] != '\\'));
            return false;
        }
        k = k + 1;
    }
    true
}

/// Finds the first name that occurs again later.
fn find_repeated(names: &Vec<String>) -> (r: Option<usize>)
    ensures
        as_int(r) == first_repeated(views(names@), 0),
{
    let ghost ns = views(names@);
    let mut a: usize = 0;
    while a < names.len()
        invariant
            a <= names@.len(),
            ns == views(names@),
            first_repeated(ns, 0) == first_repeated(ns, a as int),
        decreases names.len() - a,
    {
        let mut b: usize = a + 1;
        while b < names.len()
            invariant
                a < names@.len(),
                a < b <= names@.len(),
                ns == views(names@),
                first_repeated(ns, 0) == first_repeated(ns, a as int),
                forall|c: int| a < c < b ==> ns[a as int] != ns[c],
            decreases names.len() - b,
        {
            if names[a] == names[b] {
                assert(ns[a as int] == ns[b as int]);
                assert(repeated_later(ns, a as int));
                return Some(a);
            }
            b = b + 1;
        }
        assert(!repeated_later(ns, a as int));
        a = a + 1;
    }
    None
}

fn collect_field_names(fields: &Vec<FieldSpec>) -> (r: Vec<String>)
    ensures
        views(r@) == field_names(fields@),
{
    let mut r: Vec<String> = Vec::new();
    let mut i: usize = 0;
    while i < fields.len()
        invariant
            i <= fields@.len(),
            r@.len() == i,
            forall|k: int| 0 <= k < i ==> r@[k]@ == fields@[k].name@,
        decreases fields.len() - i,
    {
        r.push(fields[i].name.clone());
        i = i + 1;
    }
    assert(views(r@) =~= field_names(fields@));
    r
}

fn collect_state_names(states: &Vec<StateSpec>) -> (r: Vec<String>)
    ensures
        views(r@) == states@.map_values(|s: StateSpec| s.name@),
{
    let mut r: Vec<String> = Vec::new();
    let mut i: usize = 0;
    while i < states.len()
        invariant
            i <= states@.len(),
            r@.len() == i,
            forall|k: int| 0 <= k < i ==> r@[k]@ == states@[k].name@,
        decreases states.len() - i,
    {
        r.push(states[i].name.clone());
        i = i + 1;
    }
    assert(views(r@) =~= states@.map_values(|s: StateSpec| s.name@));
    r
}

fn collect_event_names(events: &Vec<EventSpec>) -> (r: Vec<String>)
    ensures
        views(r@) == events@.map_values(|e: EventSpec| e.name@),
{
    let mut r: Vec<String> = Vec::new();
    let mut i: usize = 0;
    while i < events.len()
        invariant
            i <= events@.len(),
            r@.len() == i,
            forall|k: int| 0 <= k < i ==> r@[k]@ == events@[k].name@,
        decreases events.len() - i,
    {
        r.push(events[i].name.clone());
        i = i + 1;
    }
    assert(views(r@) =~= events@.map_values(|e: EventSpec| e.name@));
    r
}

fn count_marks(states: &Vec<StateSpec>, initial: bool) -> (r: usize)
    ensures
        r as nat == count_marked(states@, initial, states@.len() as int),
{
    let mut c: usize = 0;
    let mut i: usize = 0;
    while i < states.len()
        invariant
            i <= states@.len(),
            c <= i,
            c as nat == count_marked(states@, initial, i as int),
        decreases states.len() - i,
    {
        let mk = if initial { states[i].initial } else { states[i].terminal };
        if mk {
            c = c + 1;
        }
        i = i + 1;
    }
    c
}

/// Whether `name` is among the event's declared local fields.
fn is_declared(e: &EventSpec, name: &String) -> (r: bool)
    ensures
        r == declared(*e, name@),
{
    let mut q: usize = 0;
    while q < e.locals.len()
        invariant
            q <= e.locals@.len(),
            forall|p: int| 0 <= p < q ==> e.locals@[p]@ != name@,
        decreases e.locals.len() - q,
    {
        if e.locals[q] == *name {
            return true;
        }
        q = q + 1;
    }
    false
}

fn local_in_scope_exec(m: &MachineSpec, site: Site, k: usize) -> (r: bool)
    ensures
        r == local_in_scope(*m, site, k),
{
    match site {
        Site::StateAction(i) => i < m.states.len() && k < m.states[i].fields.len(),
        Site::Initial => match m.find_marked(true) {
            Some(i) => k < m.states[i].fields.len(),
            None => false,
        },
        Site::Terminal => false,
        Site::Event(j) => {
            if j >= m.events.len() {
                return false;
            }
            let e = &m.events[j];
            match (e.source, e.target) {
                (Source::State(s), None) => s < m.states.len() && k < m.states[s].fields.len()
                    && is_declared(e, &m.states[s].fields[k].name),
                _ => false,
            }
        },
    }
}

fn field_in_scope_exec(m: &MachineSpec, site: Site, f: FieldRef) -> (r: bool)
    ensures
        r == field_in_scope(*m, site, f),
{
    match f {
        FieldRef::Extended(k) => k < m.extended.len(),
        FieldRef::Local(k) => local_in_scope_exec(m, site, k),
    }
}

fn action_in_scope_exec(m: &MachineSpec, site: Site, stmts: &Vec<Stmt>) -> (r: bool)
    ensures
        r == action_in_scope(*m, site, stmts@),
{
    let mut q: usize = 0;
    while q < stmts.len()
        invariant
            q <= stmts@.len(),
            forall|p: int| 0 <= p < q ==> stmt_in_scope(*m, site, #[trigger] stmts@[p]),
        decreases stmts.len() - q,
    {
        let st = stmts[q];
        let ok = field_in_scope_exec(m, site, st.target) && match st.operand {
            Operand::Const(_) => true,
            Operand::Param(k) => match site {
                Site::Event(j) => j < m.events.len() && k < m.events[j].params.len(),
                _ => false,
            },
            Operand::Field(f) => field_in_scope_exec(m, site, f),
        };
        if !ok {
            assert(!stmt_in_scope(*m, site, stmts@[q as int]));
            return false;
        }
        q = q + 1;
    }
    true
}

fn locals_declared_ok_exec(m: &MachineSpec, e: &EventSpec) -> (r: bool)
    requires
        e.source matches Source::State(s) ==> s < m.states@.len(),
    ensures
        r == locals_declared_ok(*m, *e),
{
    match e.source {
        Source::Any => e.locals.len() == 0,
        Source::State(s) => {
            let names = collect_field_names(&m.states[s].fields);
            let ghost fns = field_names(m.states@[s as int].fields@);
            let mut q: usize = 0;
            while q < e.locals.len()
                invariant
                    q <= e.locals@.len(),
                    s < m.states@.len(),
                    e.source == Source::State(s),
                    fns == field_names(m.states@[s as int].fields@),
                    views(names@) == fns,
                    forall|p: int| 0 <= p < q ==> fns.contains(#[trigger] e.locals@[p]@),
                decreases e.locals.len() - q,
            {
                let mut found = false;
                let mut k: usize = 0;
                while k < names.len()
                    invariant
                        q < e.locals@.len(),
                        s < m.states@.len(),
                        fns == field_names(m.states@[s as int].fields@),
                        k <= names@.len(),
                        views(names@) == fns,
                        found ==> fns.contains(e.locals@[q as int]@),
                        !found ==> forall|c: int| 0 <= c < k ==> fns[c] != e.locals@[q as int]@,
                    decreases names.len() - k,
                {
                    if names[k] == e.locals[q] {
                        found = true;
                        assert(fns[k as int] == e.locals@[q as int]@);
                    }
                    k = k + 1;
                }
                if !found {
                    assert(forall|c: int| 0 <= c < fns.len() ==> fns[c] != e.locals@[q as int]@);
                    assert(!fns.contains(e.locals@[q as int]@));
                    return false;
                }
                q = q + 1;
            }
            true
        },
    }
}

fn one_event_error_exec(m: &MachineSpec, j: usize) -> (r: Option<SpecError>)
    requires
        j < m.events@.len(),
    ensures
        r == one_event_error(*m, j as int),
{
    let e = &m.events[j];
    let n = m.states.len();
    if let Source::State(s) = e.source {
        if s >= n {
            return Some(SpecError::UnknownSource(j));
        }
    }
    if let Some(t) = e.target {
        if t >= n {
            return Some(SpecError::UnknownTarget(j));
        }
    }
    if e.source == Source::Any && e.target.is_none() {
        return Some(SpecError::WildcardWithoutTarget(j));
    }
    if !locals_declared_ok_exec(m, e) {
        return Some(SpecError::UnknownLocalField(j));
    }
    if !action_in_scope_exec(m, Site::Event(j), &e.action) {
        return Some(SpecError::InvalidEventAction(j));
    }
    None
}

impl MachineSpec {
    /// Checks that the specification is consistent: names unique, exactly
    /// one initial and at most one terminal state, every action within its
    /// scope, and every event's source and target existing, with a target
    /// whenever it may be raised from any state.
    pub fn validate(&self) -> (r: Result<(), SpecError>)
        ensures
            r == self.validation(),
    {
        let sn = collect_state_names(&self.states);
        if let Some(a) = find_repeated(&sn) {
            return Err(SpecError::DuplicateStateName(a));
        }
        let mut q: usize = 0;
        while q < self.states.len()
            invariant
                q <= self.states@.len(),
                first_repeated(self.states@.map_values(|s: StateSpec| s.name@), 0) is None,
                first_unquotable(self.states@, 0) == first_unquotable(self.states@, q as int),
            decreases self.states.len() - q,
        {
            if !is_quote_free(&self.states[q].name) {
                return Err(SpecError::InvalidStateName(q));
            }
            q = q + 1;
        }
        let en = collect_event_names(&self.events);
        if let Some(a) = find_repeated(&en) {
            return Err(SpecError::DuplicateEventName(a));
        }
        let ni = count_marks(&self.states, true);
        if ni == 0 {
            return Err(SpecError::NoInitialState);
        }
        if ni > 1 {
            return Err(SpecError::MultipleInitialStates);
        }
        if count_marks(&self.states, false) > 1 {
            return Err(SpecError::MultipleTerminalStates);
        }
        let mut i: usize = 0;
        while i < self.states.len()
            invariant
                i <= self.states@.len(),
                self.header_error() is None,
                state_error(*self, 0) == state_error(*self, i as int),
            decreases self.states.len() - i,
        {
            let fnames = collect_field_names(&self.states[i].fields);
            if find_repeated(&fnames).is_some() {
                assert(state_error(*self, i as int) == Some(SpecError::DuplicateFieldName(i)));
                return Err(SpecError::DuplicateFieldName(i));
            }
            if !action_in_scope_exec(self, Site::StateAction(i), &self.states[i].entry)
                || !action_in_scope_exec(self, Site::StateAction(i), &self.states[i].exit) {
                return Err(SpecError::InvalidStateAction(i));
            }
            i = i + 1;
        }
        if !action_in_scope_exec(self, Site::Initial, &self.initial_action) {
            return Err(SpecError::InvalidInitialAction);
        }
        if !action_in_scope_exec(self, Site::Terminal, &self.terminate_success)
            || !action_in_scope_exec(self, Site::Terminal, &self.terminate_failure) {
            return Err(SpecError::InvalidTerminalAction);
        }
        let mut j: usize = 0;
        while j < self.events.len()
            invariant
                j <= self.events@.len(),
                self.header_error() is None,
                state_error(*self, 0) is None,
                action_in_scope(*self, Site::Initial, self.initial_action@),
                action_in_scope(*self, Site::Terminal, self.terminate_success@),
                action_in_scope(*self, Site::Terminal, self.terminate_failure@),
                event_error(*self, 0) == event_error(*self, j as int),
            decreases self.events.len() - j,
        {
            if let Some(e) = one_event_error_exec(self, j) {
                return Err(e);
            }
            j = j + 1;
        }
        Ok(())
    }
}

} // verus!

use machines::{EventSpec, FieldRef, FieldSpec, MachineSpec, Op, Operand, Source, SpecError, StateSpec, Stmt};

fn field(name: &str) -> FieldSpec {
    FieldSpec { name: name.to_string(), ty: "u64".to_string(), default: Some(0) }
}

fn state(name: &str, fields: Vec<FieldSpec>, initial: bool) -> StateSpec {
    StateSpec { name: name.to_string(), fields, entry: vec![], exit: vec![], initial, terminal: false }
}

fn event(name: &str, source: Source, target: Option<usize>) -> EventSpec {
    EventSpec { name: name.to_string(), source, target, params: vec![], locals: vec![], action: vec![] }
}

fn set(target: FieldRef, operand: Operand) -> Stmt {
    Stmt { target, op: Op::Assign, operand }
}

fn base() -> MachineSpec {
    MachineSpec {
        name: "V".to_string(),
        type_vars: vec![],
        states: vec![state("A", vec![field("a")], true), state("B", vec![field("b")], false)],
        events: vec![event("Go", Source::State(0), Some(1)), event("Stay", Source::State(1), None)],
        extended: vec![field("e")],
        self_reference: String::new(),
        initial_action: vec![],
        terminate_success: vec![],
        terminate_failure: vec![],
    }
}

#[test]
fn valid_specification_passes_twice() {
    let spec = base();
    let first = spec.validate();
    let second = spec.validate();
    assert_eq!(first, Ok(()));
    assert_eq!(first, second);
    let mut bad = base();
    bad.states[1].initial = true;
    assert_eq!(bad.validate(), bad.validate());
}

#[test]
fn duplicate_state_name() {
    let mut spec = base();
    spec.states.push(state("C", vec![], false));
    spec.states.push(state("B", vec![], false));
    assert_eq!(spec.validate(), Err(SpecError::DuplicateStateName(1)));
}

#[test]
fn duplicate_event_name() {
    let mut spec = base();
    spec.events.push(event("Go", Source::State(1), Some(0)));
    assert_eq!(spec.validate(), Err(SpecError::DuplicateEventName(0)));
}

#[test]
fn duplicate_field_name() {
    let mut spec = base();
    spec.states[1].fields.push(field("c"));
    spec.states[1].fields.push(field("b"));
    assert_eq!(spec.validate(), Err(SpecError::DuplicateFieldName(1)));
}

#[test]
fn missing_initial_state() {
    let mut spec = base();
    spec.states[0].initial = false;
    assert_eq!(spec.validate(), Err(SpecError::NoInitialState));
}

#[test]
fn two_initial_states() {
    let mut spec = base();
    spec.states[1].initial = true;
    assert_eq!(spec.validate(), Err(SpecError::MultipleInitialStates));
}

#[test]
fn two_terminal_states() {
    let mut spec = base();
    spec.states[1].terminal = true;
    assert_eq!(spec.validate(), Ok(()));
    spec.states[0].terminal = true;
    assert_eq!(spec.validate(), Err(SpecError::MultipleTerminalStates));
}

#[test]
fn state_action_out_of_scope() {
    let mut spec = base();
    spec.states[1].entry = vec![set(FieldRef::Local(0), Operand::Field(FieldRef::Extended(0)))];
    assert_eq!(spec.validate(), Ok(()));
    spec.states[1].exit = vec![set(FieldRef::Local(1), Operand::Const(1))];
    assert_eq!(spec.validate(), Err(SpecError::InvalidStateAction(1)));
    spec.states[1].exit = vec![set(FieldRef::Extended(0), Operand::Param(0))];
    assert_eq!(spec.validate(), Err(SpecError::InvalidStateAction(1)));
}

#[test]
fn initial_action_out_of_scope() {
    let mut spec = base();
    spec.initial_action = vec![set(FieldRef::Local(0), Operand::Const(1))];
    assert_eq!(spec.validate(), Ok(()));
    spec.initial_action = vec![set(FieldRef::Local(1), Operand::Const(1))];
    assert_eq!(spec.validate(), Err(SpecError::InvalidInitialAction));
}

#[test]
fn terminal_action_out_of_scope() {
    let mut spec = base();
    spec.terminate_failure = vec![set(FieldRef::Extended(0), Operand::Const(1))];
    assert_eq!(spec.validate(), Ok(()));
    spec.terminate_success = vec![set(FieldRef::Local(0), Operand::Const(1))];
    assert_eq!(spec.validate(), Err(SpecError::InvalidTerminalAction));
}

#[test]
fn unknown_source_state() {
    let mut spec = base();
    spec.events[1].source = Source::State(2);
    assert_eq!(spec.validate(), Err(SpecError::UnknownSource(1)));
}

#[test]
fn unknown_target_state() {
    let mut spec = base();
    spec.events[0].target = Some(5);
    assert_eq!(spec.validate(), Err(SpecError::UnknownTarget(0)));
}

#[test]
fn wildcard_without_target() {
    let mut spec = base();
    spec.events.push(event("Any", Source::Any, None));
    assert_eq!(spec.validate(), Err(SpecError::WildcardWithoutTarget(2)));
}

#[test]
fn undeclared_local_field() {
    let mut spec = base();
    spec.events[1].locals = vec!["b".to_string()];
    assert_eq!(spec.validate(), Ok(()));
    spec.events[1].locals = vec!["a".to_string()];
    assert_eq!(spec.validate(), Err(SpecError::UnknownLocalField(1)));
    let mut universal = base();
    universal.events.push(event("Reset", Source::Any, Some(0)));
    universal.events[2].locals = vec!["a".to_string()];
    assert_eq!(universal.validate(), Err(SpecError::UnknownLocalField(2)));
}

#[test]
fn event_action_out_of_scope() {
    let mut spec = base();
    spec.events[1].locals = vec!["b".to_string()];
    spec.events[1].action = vec![set(FieldRef::Local(0), Operand::Const(1))];
    assert_eq!(spec.validate(), Ok(()));
    spec.events[1].locals = vec![];
    assert_eq!(spec.validate(), Err(SpecError::InvalidEventAction(1)));

    let mut external = base();
    external.events[0].locals = vec!["a".to_string()];
    assert_eq!(external.validate(), Ok(()));
    external.events[0].action = vec![set(FieldRef::Local(0), Operand::Const(1))];
    assert_eq!(external.validate(), Err(SpecError::InvalidEventAction(0)));

    let mut params = base();
    params.events[0].action = vec![set(FieldRef::Extended(0), Operand::Param(0))];
    assert_eq!(params.validate(), Err(SpecError::InvalidEventAction(0)));
    params.events[0].params = vec![field("p")];
    assert_eq!(params.validate(), Ok(()));
}

#[test]
fn first_error_wins() {
    let mut spec = base();
    spec.events[0].target = Some(9);
    spec.events[1].source = Source::State(9);
    assert_eq!(spec.validate(), Err(SpecError::UnknownTarget(0)));
    spec.states[0].initial = false;
    assert_eq!(spec.validate(), Err(SpecError::NoInitialState));
}

#[test]
fn state_name_that_cannot_be_quoted() {
    let mut spec = base();
    spec.states[1].name = "B\"x".to_string();
    assert_eq!(spec.validate(), Err(SpecError::InvalidStateName(1)));
    spec.states[1].name = "B\\x".to_string();
    assert_eq!(spec.validate(), Err(SpecError::InvalidStateName(1)));
    spec.states[1].name = "B x&<y>".to_string();
    assert_eq!(spec.validate(), Ok(()));
}

use machines::{
    Event, EventSpec, FieldRef, FieldSpec, FinishError, HandleEventException, Machine, MachineSpec,
    Op, Operand, Source, StateSpec, Stmt, Transition,
};

fn field(name: &str, default: Option<u64>) -> FieldSpec {
    FieldSpec { name: name.to_string(), ty: "u64".to_string(), default }
}

fn state(name: &str, fields: Vec<FieldSpec>, initial: bool) -> StateSpec {
    StateSpec { name: name.to_string(), fields, entry: vec![], exit: vec![], initial, terminal: false }
}

fn event(name: &str, source: Source, target: Option<usize>) -> EventSpec {
    EventSpec {
        name: name.to_string(),
        source,
        target,
        params: vec![],
        locals: vec![],
        action: vec![],
    }
}

fn machine(name: &str, states: Vec<StateSpec>, events: Vec<EventSpec>, extended: Vec<FieldSpec>) -> MachineSpec {
    MachineSpec {
        name: name.to_string(),
        type_vars: vec![],
        states,
        events,
        extended,
        self_reference: String::new(),
        initial_action: vec![],
        terminate_success: vec![],
        terminate_failure: vec![],
    }
}

fn stmt(target: FieldRef, op: Op, operand: Operand) -> Stmt {
    Stmt { target, op, operand }
}

fn universal() -> MachineSpec {
    machine(
        "U",
        vec![state("R", vec![], false), state("S", vec![], true), state("T", vec![], false)],
        vec![
            event("ToR", Source::Any, Some(0)),
            event("ToT", Source::Any, Some(2)),
            event("ToS", Source::State(2), Some(1)),
        ],
        vec![],
    )
}

#[test]
fn universal_scenario() {
    let spec = universal();
    assert_eq!(spec.validate(), Ok(()));
    let mut m = Machine::new(&spec, &vec![]).unwrap();
    assert_eq!(m.state_name().as_str(), "S");
    assert_eq!(m.handle_event(&Event::from_id(&spec, 0)), Ok(()));
    assert_eq!(m.state_name().as_str(), "R");
    assert_eq!(m.handle_event(&Event::from_id(&spec, 2)), Err(HandleEventException::WrongState));
    assert_eq!(m.state_name().as_str(), "R");
    assert_eq!(m.handle_event(&Event::from_id(&spec, 0)), Ok(()));
    assert_eq!(m.state_name().as_str(), "R");
    assert_eq!(m.handle_event(&Event::from_id(&spec, 1)), Ok(()));
    assert_eq!(m.handle_event(&Event::from_id(&spec, 2)), Ok(()));
    assert_eq!(m.state_name().as_str(), "S");
}

#[test]
fn required_field_scenario() {
    let spec = machine(
        "Req",
        vec![state("A", vec![], true)],
        vec![event("Stay", Source::State(0), None)],
        vec![FieldSpec { name: "x".to_string(), ty: "X".to_string(), default: None }],
    );
    assert_eq!(spec.validate(), Ok(()));
    assert!(Machine::new(&spec, &vec![]).is_none());
    assert!(Machine::new(&spec, &vec![None]).is_none());
    let m = Machine::new(&spec, &vec![Some(3)]).unwrap();
    assert_eq!(m.extended(), &vec![3]);
}

#[test]
fn overrides_replace_defaults() {
    let spec = machine(
        "Over",
        vec![state("A", vec![], true)],
        vec![event("Stay", Source::State(0), None)],
        vec![field("a", Some(1)), field("b", Some(2))],
    );
    let m = Machine::new(&spec, &vec![None, Some(9)]).unwrap();
    assert_eq!(m.extended(), &vec![1, 9]);
}

fn params_machine() -> MachineSpec {
    let mut foo = event("Foo", Source::State(1), None);
    foo.params = vec![field("add", None)];
    foo.locals = vec!["sum".to_string()];
    foo.action = vec![stmt(FieldRef::Local(0), Op::Add, Operand::Param(0))];
    machine(
        "M",
        vec![state("S", vec![], true), state("T", vec![field("sum", None)], false)],
        vec![event("A", Source::State(0), Some(1)), foo],
        vec![],
    )
}

#[test]
fn parameter_scenario() {
    let spec = params_machine();
    assert_eq!(spec.validate(), Ok(()));
    let mut m = Machine::new(&spec, &vec![]).unwrap();
    assert_eq!(m.handle_event(&Event::from_id(&spec, 0)), Ok(()));
    assert_eq!(m.locals(), &vec![0]);
    let e = Event { id: 1, params: vec![5] };
    assert_eq!(m.handle_event(&e), Ok(()));
    assert_eq!(m.locals(), &vec![5]);
    assert_eq!(m.handle_event(&e), Ok(()));
    assert_eq!(m.locals(), &vec![10]);
}

#[test]
fn event_from_id_takes_parameter_defaults() {
    let mut spec = params_machine();
    spec.events[1].params = vec![field("add", Some(4)), field("other", None)];
    let e = Event::from_id(&spec, 1);
    assert_eq!(e.id, 1);
    assert_eq!(e.params, vec![4, 0]);
}

#[test]
fn rejection_leaves_instance_unchanged() {
    let spec = params_machine();
    let mut m = Machine::new(&spec, &vec![]).unwrap();
    assert_eq!(m.handle_event(&Event { id: 1, params: vec![5] }), Err(HandleEventException::WrongState));
    assert_eq!(m.state(), 0);
    assert_eq!(m.locals(), &Vec::<u64>::new());
    m.handle_event(&Event::from_id(&spec, 0)).unwrap();
    m.handle_event(&Event { id: 1, params: vec![7] }).unwrap();
    assert_eq!(m.handle_event(&Event::from_id(&spec, 0)), Err(HandleEventException::WrongState));
    assert_eq!(m.state(), 1);
    assert_eq!(m.locals(), &vec![7]);
}

fn ordered() -> MachineSpec {
    let mut a = state("A", vec![], true);
    a.exit = vec![stmt(FieldRef::Extended(0), Op::Assign, Operand::Const(1))];
    let mut b = state("B", vec![field("x", Some(7))], false);
    b.entry = vec![stmt(FieldRef::Extended(2), Op::Assign, Operand::Field(FieldRef::Extended(1)))];
    b.exit = vec![stmt(FieldRef::Extended(3), Op::Add, Operand::Field(FieldRef::Local(0)))];
    let mut go = event("Go", Source::State(0), Some(1));
    go.action = vec![stmt(FieldRef::Extended(1), Op::Assign, Operand::Field(FieldRef::Extended(0)))];
    let mut poke = event("Poke", Source::State(1), None);
    poke.locals = vec!["x".to_string()];
    poke.action = vec![stmt(FieldRef::Local(0), Op::Add, Operand::Const(1))];
    let back = event("Back", Source::State(1), Some(0));
    machine(
        "Ordered",
        vec![a, b],
        vec![go, poke, back],
        vec![field("exited", Some(0)), field("acted", Some(0)), field("entered", Some(0)), field("left", Some(0))],
    )
}

#[test]
fn exit_action_entry_run_in_order() {
    let spec = ordered();
    assert_eq!(spec.validate(), Ok(()));
    let mut m = Machine::new(&spec, &vec![]).unwrap();
    assert_eq!(m.extended(), &vec![0, 0, 0, 0]);
    assert_eq!(m.handle_event(&Event::from_id(&spec, 0)), Ok(()));
    assert_eq!(m.extended(), &vec![1, 1, 1, 0]);
    assert_eq!(m.locals(), &vec![7]);
}

#[test]
fn internal_transition_runs_no_entry_or_exit() {
    let spec = ordered();
    let mut m = Machine::new(&spec, &vec![]).unwrap();
    m.handle_event(&Event::from_id(&spec, 0)).unwrap();
    assert_eq!(m.handle_event(&Event::from_id(&spec, 1)), Ok(()));
    assert_eq!(m.locals(), &vec![8]);
    assert_eq!(m.extended(), &vec![1, 1, 1, 0]);
}

#[test]
fn reentered_state_starts_from_defaults() {
    let spec = ordered();
    let mut m = Machine::new(&spec, &vec![]).unwrap();
    m.handle_event(&Event::from_id(&spec, 0)).unwrap();
    m.handle_event(&Event::from_id(&spec, 1)).unwrap();
    m.handle_event(&Event::from_id(&spec, 1)).unwrap();
    assert_eq!(m.locals(), &vec![9]);
    assert_eq!(m.handle_event(&Event::from_id(&spec, 2)), Ok(()));
    assert_eq!(m.extended()[3], 9);
    assert_eq!(m.handle_event(&Event::from_id(&spec, 0)), Ok(()));
    assert_eq!(m.locals(), &vec![7]);
}

#[test]
fn initial_action_runs_before_entry() {
    let mut spec = ordered();
    spec.states[0].fields = vec![field("y", Some(3))];
    spec.initial_action = vec![
        stmt(FieldRef::Extended(0), Op::Assign, Operand::Field(FieldRef::Local(0))),
        stmt(FieldRef::Local(0), Op::Assign, Operand::Const(50)),
    ];
    spec.states[0].entry = vec![
        stmt(FieldRef::Extended(1), Op::Assign, Operand::Field(FieldRef::Extended(0))),
        stmt(FieldRef::Extended(2), Op::Assign, Operand::Field(FieldRef::Local(0))),
    ];
    assert_eq!(spec.validate(), Ok(()));
    let m = Machine::new(&spec, &vec![]).unwrap();
    assert_eq!(m.extended(), &vec![3, 3, 50, 0]);
    assert_eq!(m.locals(), &vec![50]);
}

fn terminal_machine() -> MachineSpec {
    let mut spec = ordered();
    spec.states[0].terminal = true;
    spec.terminate_success = vec![stmt(FieldRef::Extended(3), Op::Assign, Operand::Const(100))];
    spec.terminate_failure = vec![stmt(FieldRef::Extended(3), Op::Assign, Operand::Const(200))];
    spec
}

#[test]
fn finish_in_terminal_state_succeeds() {
    let spec = terminal_machine();
    assert_eq!(spec.validate(), Ok(()));
    let mut m = Machine::new(&spec, &vec![]).unwrap();
    assert_eq!(m.finish(), Ok(()));
    assert_eq!(m.extended(), &vec![1, 0, 0, 100]);
}

#[test]
fn finish_elsewhere_runs_failure_action() {
    let spec = terminal_machine();
    let mut m = Machine::new(&spec, &vec![]).unwrap();
    m.handle_event(&Event::from_id(&spec, 0)).unwrap();
    assert_eq!(m.finish(), Err(FinishError::NotTerminal));
    assert_eq!(m.extended()[3], 200);
}

#[test]
fn finish_without_terminal_state_succeeds() {
    let spec = ordered();
    let mut m = Machine::new(&spec, &vec![]).unwrap();
    m.handle_event(&Event::from_id(&spec, 0)).unwrap();
    assert_eq!(m.finish(), Ok(()));
    assert_eq!(m.extended()[3], 7);
}

#[test]
fn arithmetic_wraps() {
    let mut spec = ordered();
    spec.extended[0].default = Some(u64::MAX);
    spec.states[0].entry = vec![
        stmt(FieldRef::Extended(0), Op::Add, Operand::Const(2)),
        stmt(FieldRef::Extended(1), Op::Sub, Operand::Const(1)),
        stmt(FieldRef::Extended(2), Op::Assign, Operand::Const(6)),
        stmt(FieldRef::Extended(2), Op::Sub, Operand::Const(4)),
    ];
    let m = Machine::new(&spec, &vec![]).unwrap();
    assert_eq!(m.extended(), &vec![1, u64::MAX, 2, 0]);
}

#[test]
fn transitions_by_kind() {
    let spec = ordered();
    assert_eq!(spec.events[0].transition(), Some(Transition::External(0, 1)));
    assert_eq!(spec.events[1].transition(), Some(Transition::Internal(1)));
    let u = universal();
    assert_eq!(u.events[0].transition(), Some(Transition::Universal(0)));
    assert_eq!(event("Bad", Source::Any, None).transition(), None);
}

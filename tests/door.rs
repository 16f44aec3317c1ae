use machines::{
    Event, EventSpec, FieldRef, FieldSpec, HandleEventException, Machine, MachineSpec, Op, Operand,
    Source, StateSpec, Stmt,
};

fn field(name: &str, ty: &str, default: Option<u64>) -> FieldSpec {
    FieldSpec { name: name.to_string(), ty: ty.to_string(), default }
}

fn state(name: &str, fields: Vec<FieldSpec>, initial: bool, terminal: bool) -> StateSpec {
    StateSpec { name: name.to_string(), fields, entry: vec![], exit: vec![], initial, terminal }
}

fn event(name: &str, source: Source, target: Option<usize>, locals: Vec<&str>, action: Vec<Stmt>) -> EventSpec {
    EventSpec {
        name: name.to_string(),
        source,
        target,
        params: vec![],
        locals: locals.into_iter().map(|s| s.to_string()).collect(),
        action,
    }
}

fn door() -> MachineSpec {
    MachineSpec {
        name: "Door".to_string(),
        type_vars: vec![],
        states: vec![
            state("Closed", vec![field("knock_count", "u64", None)], true, true),
            state("Opened", vec![], false, false),
        ],
        events: vec![
            event(
                "Knock",
                Source::State(0),
                None,
                vec!["knock_count"],
                vec![Stmt { target: FieldRef::Local(0), op: Op::Add, operand: Operand::Const(1) }],
            ),
            event(
                "Open",
                Source::State(0),
                Some(1),
                vec![],
                vec![Stmt { target: FieldRef::Extended(0), op: Op::Add, operand: Operand::Const(1) }],
            ),
            event("Close", Source::State(1), Some(0), vec![], vec![]),
        ],
        extended: vec![field("open_count", "u64", Some(0))],
        self_reference: "door".to_string(),
        initial_action: vec![],
        terminate_success: vec![],
        terminate_failure: vec![],
    }
}

fn raise(m: &mut Machine, spec: &MachineSpec, id: usize) -> Result<(), HandleEventException> {
    m.handle_event(&Event::from_id(spec, id))
}

#[test]
fn door_scenario() {
    let spec = door();
    assert_eq!(spec.validate(), Ok(()));
    let mut m = Machine::new(&spec, &vec![]).unwrap();
    assert_eq!(m.state_name().as_str(), "Closed");
    assert_eq!(m.locals(), &vec![0]);
    assert_eq!(m.extended(), &vec![0]);

    assert_eq!(raise(&mut m, &spec, 0), Ok(()));
    assert_eq!(m.locals(), &vec![1]);

    assert_eq!(raise(&mut m, &spec, 1), Ok(()));
    assert_eq!(m.state_name().as_str(), "Opened");
    assert_eq!(m.extended(), &vec![1]);

    assert_eq!(raise(&mut m, &spec, 1), Err(HandleEventException::WrongState));
    assert_eq!(m.state_name().as_str(), "Opened");
    assert_eq!(m.extended(), &vec![1]);

    assert_eq!(raise(&mut m, &spec, 0), Err(HandleEventException::WrongState));
    assert_eq!(m.state(), 1);

    assert_eq!(raise(&mut m, &spec, 2), Ok(()));
    assert_eq!(m.state_name().as_str(), "Closed");
    assert_eq!(m.locals(), &vec![0]);
    assert_eq!(m.finish(), Ok(()));
}

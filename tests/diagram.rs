use machines::{
    machine_dotfile, EventSpec, FieldRef, FieldSpec, Machine, MachineDotfile, MachineSpec, Op,
    Operand, Source, StateSpec, Stmt,
};

fn door() -> MachineSpec {
    MachineSpec {
        name: "Door".to_string(),
        type_vars: vec![],
        states: vec![
            StateSpec {
                name: "Closed".to_string(),
                fields: vec![FieldSpec { name: "knock_count".to_string(), ty: "u64".to_string(), default: None }],
                entry: vec![],
                exit: vec![],
                initial: true,
                terminal: true,
            },
            StateSpec {
                name: "Opened".to_string(),
                fields: vec![],
                entry: vec![],
                exit: vec![],
                initial: false,
                terminal: false,
            },
        ],
        events: vec![
            EventSpec {
                name: "Knock".to_string(),
                source: Source::State(0),
                target: None,
                params: vec![],
                locals: vec!["knock_count".to_string()],
                action: vec![Stmt { target: FieldRef::Local(0), op: Op::Add, operand: Operand::Const(1) }],
            },
            EventSpec {
                name: "Open".to_string(),
                source: Source::State(0),
                target: Some(1),
                params: vec![],
                locals: vec![],
                action: vec![Stmt { target: FieldRef::Extended(0), op: Op::Add, operand: Operand::Const(1) }],
            },
            EventSpec {
                name: "Close".to_string(),
                source: Source::State(1),
                target: Some(0),
                params: vec![],
                locals: vec![],
                action: vec![],
            },
        ],
        extended: vec![FieldSpec { name: "open_count".to_string(), ty: "u64".to_string(), default: Some(0) }],
        self_reference: "door".to_string(),
        initial_action: vec![],
        terminate_success: vec![],
        terminate_failure: vec![],
    }
}

fn door_text(ext_line: &str, knock_line: &str) -> String {
    let mut s = String::new();
    s.push_str("digraph {\n  rankdir=LR\n  node [shape=record, style=rounded, fontname=\"Sans Bold\"]\n  edge [fontname=\"Sans\"]\n");
    s.push_str("  subgraph cluster_Door {\n");
    s.push_str("    label=<Door<FONT FACE=\"Mono\"><BR/><BR/>\n");
    s.push_str(ext_line);
    s.push_str("<BR ALIGN=\"LEFT\"/>@ door<BR ALIGN=\"CENTER\"/>\n      </FONT><BR/>>\n");
    s.push_str("    shape=record\n    style=rounded\n    fontname=\"Sans Bold Italic\"\n");
    s.push_str("    INITIAL [label=\"\", shape=circle, width=0.2, style=filled, fillcolor=black]\n");
    s.push_str("    \"Closed\" [label=<<B>Closed</B>|<FONT FACE=\"Mono\"><BR/>\n");
    s.push_str(knock_line);
    s.push_str("<BR ALIGN=\"LEFT\"/></FONT>>]\n");
    s.push_str("    \"Opened\" [label=<<B>Opened</B>>]\n");
    s.push_str("    INITIAL -> \"Closed\"\n");
    s.push_str("    \"Closed\" -> \"Closed\" [label=<<FONT FACE=\"Sans Italic\">Knock</FONT><FONT FACE=\"Mono\"><BR/>knock_count &#43;&#61; 1;</FONT>>]\n");
    s.push_str("    \"Closed\" -> \"Opened\" [label=<<FONT FACE=\"Sans Italic\">Open</FONT><FONT FACE=\"Mono\"><BR/>open_count &#43;&#61; 1;</FONT>>]\n");
    s.push_str("    \"Opened\" -> \"Closed\" [label=<<FONT FACE=\"Sans Italic\">Close</FONT>>]\n");
    s.push_str("    TERMINAL [label=\"\", shape=doublecircle, width=0.2,\n      style=filled, fillcolor=black]\n");
    s.push_str("    \"Closed\" -> TERMINAL\n");
    s.push_str("  }\n}");
    s
}

#[test]
fn door_diagram_hides_defaults() {
    let spec = door();
    assert_eq!(spec.dotfile(), door_text("open_count : u64", "knock_count : u64"));
    assert_eq!(machine_dotfile(&spec, true, false), spec.dotfile());
}

#[test]
fn door_diagram_shows_defaults() {
    let spec = door();
    assert_eq!(spec.dotfile_show_defaults(), door_text("open_count : u64 &#61; 0", "knock_count : u64"));
}

#[test]
fn door_diagram_pretty_defaults() {
    let spec = door();
    assert_eq!(spec.dotfile_pretty_defaults(), door_text("open_count : u64 &#61; 0", "knock_count : u64 &#61; 0"));
}

#[test]
fn running_machine_renders_its_specification() {
    let spec = door();
    let m = Machine::new(&spec, &vec![]).unwrap();
    assert_eq!(m.dotfile(), spec.dotfile());
    assert_eq!(m.dotfile_show_defaults(), spec.dotfile_show_defaults());
}

#[test]
fn every_state_and_event_appears() {
    let spec = door();
    for text in [spec.dotfile(), spec.dotfile_show_defaults(), spec.dotfile_pretty_defaults()] {
        for st in &spec.states {
            assert!(text.contains(&format!("    \"{}\" [label=<<B>", st.name)));
        }
        for ev in &spec.events {
            assert!(text.contains(&format!("[label=<<FONT FACE=\"Sans Italic\">{}</FONT>", ev.name)));
        }
    }
}

fn small(states: Vec<StateSpec>, events: Vec<EventSpec>, extended: Vec<FieldSpec>) -> MachineSpec {
    MachineSpec {
        name: "G".to_string(),
        type_vars: vec!["T = u8".to_string(), "U = bool".to_string()],
        states,
        events,
        extended,
        self_reference: String::new(),
        initial_action: vec![],
        terminate_success: vec![],
        terminate_failure: vec![],
    }
}

#[test]
fn fields_are_aligned_and_escaped() {
    let fields = vec![
        FieldSpec { name: "a".to_string(), ty: "u64".to_string(), default: Some(5) },
        FieldSpec { name: "long_name".to_string(), ty: "Vec<u8>".to_string(), default: None },
    ];
    let spec = small(
        vec![StateSpec { name: "S".to_string(), fields, entry: vec![], exit: vec![], initial: true, terminal: false }],
        vec![],
        vec![],
    );
    let text = spec.dotfile_show_defaults();
    assert!(text.contains(
        "|<FONT FACE=\"Mono\"><BR/>\na         : u64     &#61; 5,<BR ALIGN=\"LEFT\"/>\nlong_name : Vec&lt;u8&gt;<BR ALIGN=\"LEFT\"/></FONT>>]\n"
    ));
    let hidden = spec.dotfile();
    assert!(hidden.contains("\na         : u64,<BR ALIGN=\"LEFT\"/>\nlong_name : Vec&lt;u8&gt;<BR"));
    let pretty = spec.dotfile_pretty_defaults();
    assert!(pretty.contains("\nlong_name : Vec&lt;u8&gt; &#61; 0<BR"));
    assert!(text.contains("    label=<G&lt;T &#61; u8,U &#61; bool&gt;<BR ALIGN=\"LEFT\"/>>\n"));
    assert!(!text.contains("TERMINAL"));
}

#[test]
fn universal_events_get_dashed_edges() {
    let st = |n: &str, initial: bool| StateSpec {
        name: n.to_string(),
        fields: vec![],
        entry: vec![],
        exit: vec![],
        initial,
        terminal: false,
    };
    let reset = EventSpec {
        name: "Reset".to_string(),
        source: Source::Any,
        target: Some(0),
        params: vec![FieldSpec { name: "by".to_string(), ty: "u64".to_string(), default: None }],
        locals: vec![],
        action: vec![Stmt { target: FieldRef::Extended(0), op: Op::Sub, operand: Operand::Param(0) }],
    };
    let ext = vec![FieldSpec { name: "n".to_string(), ty: "u64".to_string(), default: None }];
    let spec = small(vec![st("R", true), st("S", false)], vec![reset], ext);
    let text = spec.dotfile();
    assert!(text.contains(
        "    \"*\" -> \"R\" [label=<<FONT FACE=\"Sans Italic\">Reset</FONT><FONT FACE=\"Mono\"><BR/>n -&#61; by;</FONT>>]\n"
    ));
    assert!(text.ends_with(
        "    \"R\" -> \"*\" [style=dashed, color=gray]\n    \"S\" -> \"*\" [style=dashed, color=gray]\n  }\n}"
    ));
}

#[test]
fn user_text_is_escaped() {
    let spec = small(
        vec![StateSpec {
            name: "A&B".to_string(),
            fields: vec![],
            entry: vec![],
            exit: vec![],
            initial: true,
            terminal: false,
        }],
        vec![EventSpec {
            name: "{go}".to_string(),
            source: Source::State(0),
            target: None,
            params: vec![],
            locals: vec![],
            action: vec![],
        }],
        vec![],
    );
    let text = spec.dotfile();
    assert!(text.contains("[label=<<B>A&amp;B</B>>]"));
    assert!(text.contains("<FONT FACE=\"Sans Italic\">&#123;go&#125;</FONT>>]"));
}

#[test]
fn node_and_edge_statements_are_exactly_states_and_events() {
    let spec = door();
    for text in [spec.dotfile(), spec.dotfile_show_defaults(), spec.dotfile_pretty_defaults()] {
        let nodes: Vec<&str> = text.lines().filter(|l| l.contains(" [label=<<B>")).collect();
        assert_eq!(nodes.len(), 2);
        assert!(nodes[0].starts_with("    \"Closed\" [label=<<B>"));
        assert!(nodes[1].starts_with("    \"Opened\" [label=<<B>"));
        let labelled: Vec<&str> = text.lines().filter(|l| l.contains("[label=<<FONT FACE=\"Sans Italic\">")).collect();
        assert_eq!(labelled.len(), 3);
        assert!(labelled[0].starts_with("    \"Closed\" -> \"Closed\" [label=<<FONT FACE=\"Sans Italic\">Knock</FONT>"));
        assert!(labelled[1].starts_with("    \"Closed\" -> \"Opened\" [label=<<FONT FACE=\"Sans Italic\">Open</FONT>"));
        assert!(labelled[2].starts_with("    \"Opened\" -> \"Closed\" [label=<<FONT FACE=\"Sans Italic\">Close</FONT>"));
    }
}

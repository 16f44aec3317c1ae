//! The graphviz DOT exporter: a text rendering of a machine's states, events
//! and fields, derived from its specification alone.
use vstd::prelude::*;
use crate::action::{FieldRef, Op, Operand, Stmt};
use crate::escape::{escape, escaped};
use crate::runtime::Machine;
use crate::model::{EventSpec, FieldSpec, MachineSpec, Source, first_marked};
use crate::text::{decimal, push_decimal, push_spaces, spaces};

verus! {

/// The text shown as a field's default: its declared value, or under
/// `pretty` the value of the type's default when none was declared.
pub open spec fn default_text(f: FieldSpec, pretty: bool) -> Seq<char> {
    match f.default {
        Some(v) => decimal(v as nat),
        None => if pretty { seq!['0'] } else { Seq::empty() },
    }
}

/// The length of the longest name among the first `n` fields.
pub open spec fn longest_name(fields: Seq<FieldSpec>, n: int) -> nat
    decreases n,
{
    if n <= 0 {
        0
    } else {
        let p = longest_name(fields, n - 1);
        let l = fields[n - 1].name@.len();
        if l > p { l } else { p }
    }
}

/// The length of the longest type name among the first `n` fields.
pub open spec fn longest_ty(fields: Seq<FieldSpec>, n: int) -> nat
    decreases n,
{
    if n <= 0 {
        0
    } else {
        let p = longest_ty(fields, n - 1);
        let l = fields[n - 1].ty@.len();
        if l > p { l } else { p }
    }
}

/// One field as a line `name : type = default`, with names and types padded
/// to a column; the default is shown unless hidden or empty.
pub open spec fn field_line(fields: Seq<FieldSpec>, i: int, hide: bool, pretty: bool) -> Seq<char> {
    let f = fields[i];
    let lw = longest_name(fields, fields.len() as int);
    let tw = longest_ty(fields, fields.len() as int);
    let d = default_text(f, pretty);
    let head = f.name@ + spaces((lw - f.name@.len()) as nat) + " : "@ + f.ty@;
    if !hide && d.len() > 0 {
        escaped(head + spaces((tw - f.ty@.len()) as nat) + " = "@ + d)
    } else {
        escaped(head)
    }
}

pub open spec fn field_sep() -> Seq<char> {
    ",<BR ALIGN=\"LEFT\"/>\n"@
}

/// The lines of the first `n` fields, joined by line breaks.
pub open spec fn field_lines(fields: Seq<FieldSpec>, n: int, hide: bool, pretty: bool) -> Seq<char>
    decreases n,
{
    if n <= 0 {
        Seq::empty()
    } else if n == 1 {
        field_line(fields, 0, hide, pretty)
    } else {
        field_lines(fields, n - 1, hide, pretty) + field_sep() + field_line(fields, n - 1, hide, pretty)
    }
}

pub open spec fn fields_text(fields: Seq<FieldSpec>, hide: bool, pretty: bool) -> Seq<char> {
    field_lines(fields, fields.len() as int, hide, pretty)
}

fn longest(fields: &Vec<FieldSpec>) -> (r: (usize, usize))
    ensures
        r.0 as nat == longest_name(fields@, fields@.len() as int),
        r.1 as nat == longest_ty(fields@, fields@.len() as int),
{
    let mut lw: usize = 0;
    let mut tw: usize = 0;
    let mut i: usize = 0;
    while i < fields.len()
        invariant
            i <= fields@.len(),
            lw as nat == longest_name(fields@, i as int),
            tw as nat == longest_ty(fields@, i as int),
        decreases fields.len() - i,
    {
        let l = fields[i].name.as_str().unicode_len();
        if l > lw {
            lw = l;
        }
        let t = fields[i].ty.as_str().unicode_len();
        if t > tw {
            tw = t;
        }
        i = i + 1;
    }
    (lw, tw)
}

proof fn lemma_longest_bounds(fields: Seq<FieldSpec>, n: int, i: int)
    requires
        0 <= i < n,
    ensures
        fields[i].name@.len() <= longest_name(fields, n),
        fields[i].ty@.len() <= longest_ty(fields, n),
    decreases n,
{
    if i < n - 1 {
        lemma_longest_bounds(fields, n - 1, i);
    }
}

fn field_line_exec(
    fields: &Vec<FieldSpec>,
    i: usize,
    lw: usize,
    tw: usize,
    hide: bool,
    pretty: bool,
) -> (r: String)
    requires
        i < fields@.len(),
        lw as nat == longest_name(fields@, fields@.len() as int),
        tw as nat == longest_ty(fields@, fields@.len() as int),
    ensures
        r@ == field_line(fields@, i as int, hide, pretty),
{
    proof {
        lemma_longest_bounds(fields@, fields@.len() as int, i as int);
        reveal_strlit("0");
    }
    let f = &fields[i];
    let mut t = f.name.clone();
    push_spaces(&mut t, lw - f.name.as_str().unicode_len());
    t.append(" : ");
    t.append(f.ty.as_str());
    let shown = match f.default {
        Some(_) => true,
        None => pretty,
    };
    if !hide && shown {
        push_spaces(&mut t, tw - f.ty.as_str().unicode_len());
        t.append(" = ");
        match f.default {
            Some(v) => push_decimal(&mut t, v),
            None => t.append("0"),
        }
    }
    proof {
        let d = default_text(fields@[i as int], pretty);
        match f.default {
            Some(v) => {
                assert(decimal(v as nat).len() > 0) by { reveal_with_fuel(decimal, 2); }
            },
            None => {},
        }
        assert(shown == (d.len() > 0));
        let head = f.name@ + spaces((lw - f.name@.len()) as nat) + " : "@ + f.ty@;
        if !hide && d.len() > 0 {
            assert(t@ == head + spaces((tw - f.ty@.len()) as nat) + " = "@ + d);
        } else {
            assert(t@ == head);
        }
    }
    escape(t.as_str())
}

fn fields_text_exec(fields: &Vec<FieldSpec>, hide: bool, pretty: bool) -> (r: String)
    ensures
        r@ == fields_text(fields@, hide, pretty),
{
    let (lw, tw) = longest(fields);
    let mut s = String::new();
    let mut i: usize = 0;
    while i < fields.len()
        invariant
            i <= fields@.len(),
            lw as nat == longest_name(fields@, fields@.len() as int),
            tw as nat == longest_ty(fields@, fields@.len() as int),
            s@ == field_lines(fields@, i as int, hide, pretty),
        decreases fields.len() - i,
    {
        let line = field_line_exec(fields, i, lw, tw, hide, pretty);
        if i > 0 {
            s.append(",<BR ALIGN=\"LEFT\"/>\n");
        }
        s.append(line.as_str());
        i = i + 1;
        assert(s@ =~= field_lines(fields@, i as int, hide, pretty));
    }
    s
}

/// The first `n` texts joined by commas.
pub open spec fn comma_joined(v: Seq<String>, n: int) -> Seq<char>
    decreases n,
{
    if n <= 0 {
        Seq::empty()
    } else if n == 1 {
        v[0]@
    } else {
        comma_joined(v, n - 1) + ","@ + v[n - 1]@
    }
}

/// The machine's name, followed by its type parameters in angle brackets if
/// it has any.
pub open spec fn title(m: MachineSpec) -> Seq<char> {
    if m.type_vars@.len() > 0 {
        m.name@ + "<"@ + comma_joined(m.type_vars@, m.type_vars@.len() as int) + ">"@
    } else {
        m.name@
    }
}

fn title_exec(m: &MachineSpec) -> (r: String)
    ensures
        r@ == title(*m),
{
    let mut s = m.name.clone();
    if m.type_vars.len() > 0 {
        s.append("<");
        let ghost start = s@;
        let mut j = String::new();
        let mut i: usize = 0;
        while i < m.type_vars.len()
            invariant
                i <= m.type_vars@.len(),
                j@ == comma_joined(m.type_vars@, i as int),
            decreases m.type_vars.len() - i,
        {
            if i > 0 {
                j.append(",");
            }
            j.append(m.type_vars[i].as_str());
            i = i + 1;
            assert(j@ =~= comma_joined(m.type_vars@, i as int));
        }
        s.append(j.as_str());
        s.append(">");
    }
    s
}

/// The opening of the cluster that holds the machine: its title, its
/// extended state fields and its self reference.
pub open spec fn cluster_head(m: MachineSpec, hide: bool) -> Seq<char> {
    let ext = m.extended@.len() > 0;
    "  subgraph cluster_"@ + m.name@ + " {\n"@ + "    label=<"@ + escaped(title(m))
        + (if ext {
        "<FONT FACE=\"Mono\"><BR/><BR/>\n"@ + fields_text(m.extended@, hide, false)
    } else {
        Seq::empty()
    }) + "<BR ALIGN=\"LEFT\"/>"@ + (if ext && m.self_reference@.len() > 0 {
        "@ "@ + escaped(m.self_reference@) + "<BR ALIGN=\"CENTER\"/>"@
    } else {
        Seq::empty()
    }) + (if ext {
        "\n      </FONT><BR/>"@
    } else {
        Seq::empty()
    }) + ">\n    shape=record\n    style=rounded\n    fontname=\"Sans Bold Italic\"\n"@
}

fn cluster_head_exec(m: &MachineSpec, hide: bool) -> (r: String)
    ensures
        r@ == cluster_head(*m, hide),
{
    let ext = m.extended.len() > 0;
    let mut s = String::new();
    s.append("  subgraph cluster_");
    s.append(m.name.as_str());
    s.append(" {\n");
    s.append("    label=<");
    let t = title_exec(m);
    let et = escape(t.as_str());
    s.append(et.as_str());
    let ghost p1 = s@;
    let mut a = String::new();
    if ext {
        a.append("<FONT FACE=\"Mono\"><BR/><BR/>\n");
        let f = fields_text_exec(&m.extended, hide, false);
        a.append(f.as_str());
    }
    s.append(a.as_str());
    s.append("<BR ALIGN=\"LEFT\"/>");
    let mut b = String::new();
    if ext && m.self_reference.as_str().unicode_len() > 0 {
        b.append("@ ");
        let r = escape(m.self_reference.as_str());
        b.append(r.as_str());
        b.append("<BR ALIGN=\"CENTER\"/>");
    }
    s.append(b.as_str());
    let mut c = String::new();
    if ext {
        c.append("\n      </FONT><BR/>");
    }
    s.append(c.as_str());
    s.append(">\n    shape=record\n    style=rounded\n    fontname=\"Sans Bold Italic\"\n");
    proof {
        if !ext {
            assert(a@ =~= Seq::<char>::empty());
        }
    }
    s
}

/// The opening of the node statement of a state with the given name.
pub open spec fn node_head(name: Seq<char>) -> Seq<char> {
    "    \""@ + name + "\" [label=<<B>"@
}

/// An edge label showing the given (escaped) text.
pub open spec fn label_part(text: Seq<char>) -> Seq<char> {
    "[label=<<FONT FACE=\"Sans Italic\">"@ + text + "</FONT>"@
}

/// The label of the edge of an event with the given name.
pub open spec fn edge_label(name: Seq<char>) -> Seq<char> {
    label_part(escaped(name))
}

/// The dashed edge from the state with the given name to the any-state node.
pub open spec fn any_state_edge(name: Seq<char>) -> Seq<char> {
    "    \""@ + name + "\" -> \"*\" [style=dashed, color=gray]\n"@
}

/// The node of the state at index `i`: its name in bold, then its local
/// fields.
pub open spec fn node_text(m: MachineSpec, i: int, hide: bool, pretty: bool) -> Seq<char> {
    let st = m.states@[i];
    node_head(st.name@) + escaped(st.name@) + "</B>"@ + (if st.fields@.len() > 0 {
        "|<FONT FACE=\"Mono\"><BR/>\n"@ + fields_text(st.fields@, hide, pretty) + "<BR ALIGN=\"LEFT\"/></FONT>"@
    } else {
        Seq::empty()
    }) + ">]\n"@
}

fn node_text_exec(m: &MachineSpec, i: usize, hide: bool, pretty: bool) -> (r: String)
    requires
        i < m.states@.len(),
    ensures
        r@ == node_text(*m, i as int, hide, pretty),
{
    let st = &m.states[i];
    let mut s = String::new();
    s.append("    \"");
    s.append(st.name.as_str());
    s.append("\" [label=<<B>");
    let e = escape(st.name.as_str());
    s.append(e.as_str());
    assert(s@ =~= node_head(st.name@) + escaped(st.name@));
    s.append("</B>");
    let mut a = String::new();
    if st.fields.len() > 0 {
        a.append("|<FONT FACE=\"Mono\"><BR/>\n");
        let f = fields_text_exec(&st.fields, hide, pretty);
        a.append(f.as_str());
        a.append("<BR ALIGN=\"LEFT\"/></FONT>");
    }
    s.append(a.as_str());
    s.append(">]\n");
    s
}

/// The name of the state at index `s`, or `?` for an index past the end.
pub open spec fn state_name(m: MachineSpec, s: usize) -> Seq<char> {
    if s < m.states@.len() {
        m.states@[s as int].name@
    } else {
        "?"@
    }
}

/// The name of a field in the scope of an event's action, or `?` for a
/// reference that resolves to none.
pub open spec fn ref_name(m: MachineSpec, e: EventSpec, f: FieldRef) -> Seq<char> {
    match f {
        FieldRef::Extended(i) => if i < m.extended@.len() {
            m.extended@[i as int].name@
        } else {
            "?"@
        },
        FieldRef::Local(i) => match e.source {
            Source::State(s) => if s < m.states@.len() && i < m.states@[s as int].fields@.len() {
                m.states@[s as int].fields@[i as int].name@
            } else {
                "?"@
            },
            Source::Any => "?"@,
        },
    }
}

pub open spec fn operand_text(m: MachineSpec, e: EventSpec, o: Operand) -> Seq<char> {
    match o {
        Operand::Const(v) => decimal(v as nat),
        Operand::Param(i) => if i < e.params@.len() {
            e.params@[i as int].name@
        } else {
            "?"@
        },
        Operand::Field(f) => ref_name(m, e, f),
    }
}

pub open spec fn op_text(op: Op) -> Seq<char> {
    match op {
        Op::Assign => " = "@,
        Op::Add => " += "@,
        Op::Sub => " -= "@,
    }
}

/// A statement of an event's action as source text, `target += operand;`.
pub open spec fn stmt_text(m: MachineSpec, e: EventSpec, st: Stmt) -> Seq<char> {
    ref_name(m, e, st.target) + op_text(st.op) + operand_text(m, e, st.operand) + ";"@
}

/// The first `n` statements of an event's action, separated by spaces.
pub open spec fn action_text(m: MachineSpec, e: EventSpec, n: int) -> Seq<char>
    decreases n,
{
    if n <= 0 {
        Seq::empty()
    } else if n == 1 {
        stmt_text(m, e, e.action@[0])
    } else {
        action_text(m, e, n - 1) + " "@ + stmt_text(m, e, e.action@[n - 1])
    }
}

fn ref_name_exec(m: &MachineSpec, e: &EventSpec, f: FieldRef) -> (r: String)
    ensures
        r@ == ref_name(*m, *e, f),
{
    proof {
        reveal_strlit("?");
    }
    match f {
        FieldRef::Extended(i) => if i < m.extended.len() {
            m.extended[i].name.clone()
        } else {
            String::from_str("?")
        },
        FieldRef::Local(i) => match e.source {
            Source::State(s) => if s < m.states.len() && i < m.states[s].fields.len() {
                m.states[s].fields[i].name.clone()
            } else {
                String::from_str("?")
            },
            Source::Any => String::from_str("?"),
        },
    }
}

fn stmt_text_exec(m: &MachineSpec, e: &EventSpec, st: Stmt) -> (r: String)
    ensures
        r@ == stmt_text(*m, *e, st),
{
    let mut s = ref_name_exec(m, e, st.target);
    match st.op {
        Op::Assign => s.append(" = "),
        Op::Add => s.append(" += "),
        Op::Sub => s.append(" -= "),
    }
    match st.operand {
        Operand::Const(v) => push_decimal(&mut s, v),
        Operand::Param(i) => if i < e.params.len() {
            s.append(e.params[i].name.as_str());
        } else {
            s.append("?");
        },
        Operand::Field(f) => {
            let n = ref_name_exec(m, e, f);
            s.append(n.as_str());
        },
    }
    s.append(";");
    s
}

fn action_text_exec(m: &MachineSpec, e: &EventSpec) -> (r: String)
    ensures
        r@ == action_text(*m, *e, e.action@.len() as int),
{
    let mut s = String::new();
    let mut i: usize = 0;
    while i < e.action.len()
        invariant
            i <= e.action@.len(),
            s@ == action_text(*m, *e, i as int),
        decreases e.action.len() - i,
    {
        if i > 0 {
            s.append(" ");
        }
        let t = stmt_text_exec(m, e, e.action[i]);
        s.append(t.as_str());
        i = i + 1;
        assert(s@ =~= action_text(*m, *e, i as int));
    }
    s
}

/// The edge of the event at index `j`: from its source (`*` for any state)
/// to its target (its source again for an internal transition), labelled
/// with its name and its action.
pub open spec fn edge_text(m: MachineSpec, j: int) -> Seq<char> {
    let e = m.events@[j];
    let src = match e.source {
        Source::Any => "*"@,
        Source::State(s) => state_name(m, s),
    };
    let tgt = match e.target {
        Some(t) => state_name(m, t),
        None => src,
    };
    "    \""@ + src + "\" -> \""@ + tgt + "\" "@ + edge_label(e.name@) + (if e.action@.len() > 0 {
        "<FONT FACE=\"Mono\"><BR/>"@ + escaped(action_text(m, e, e.action@.len() as int)) + "</FONT>"@
    } else {
        Seq::empty()
    }) + ">]\n"@
}

fn state_name_exec(m: &MachineSpec, s: usize) -> (r: String)
    ensures
        r@ == state_name(*m, s),
{
    proof {
        reveal_strlit("?");
    }
    if s < m.states.len() {
        m.states[s].name.clone()
    } else {
        String::from_str("?")
    }
}

fn edge_text_exec(m: &MachineSpec, j: usize) -> (r: String)
    requires
        j < m.events@.len(),
    ensures
        r@ == edge_text(*m, j as int),
{
    proof {
        reveal_strlit("*");
    }
    let e = &m.events[j];
    let src = match e.source {
        Source::Any => String::from_str("*"),
        Source::State(s) => state_name_exec(m, s),
    };
    let tgt = match e.target {
        Some(t) => state_name_exec(m, t),
        None => src.clone(),
    };
    let mut s = String::new();
    s.append("    \"");
    s.append(src.as_str());
    s.append("\" -> \"");
    s.append(tgt.as_str());
    s.append("\" ");
    let ghost p = s@;
    let mut l = String::new();
    l.append("[label=<<FONT FACE=\"Sans Italic\">");
    let n = escape(e.name.as_str());
    l.append(n.as_str());
    l.append("</FONT>");
    s.append(l.as_str());
    assert(s@ =~= p + edge_label(e.name@));
    let mut a = String::new();
    if e.action.len() > 0 {
        a.append("<FONT FACE=\"Mono\"><BR/>");
        let t = action_text_exec(m, e);
        let et = escape(t.as_str());
        a.append(et.as_str());
        a.append("</FONT>");
    }
    s.append(a.as_str());
    s.append(">]\n");
    s
}

/// The nodes of the first `n` states.
pub open spec fn nodes_text(m: MachineSpec, n: int, hide: bool, pretty: bool) -> Seq<char>
    decreases n,
{
    if n <= 0 {
        Seq::empty()
    } else {
        nodes_text(m, n - 1, hide, pretty) + node_text(m, n - 1, hide, pretty)
    }
}

/// The edges of the first `n` events.
pub open spec fn edges_text(m: MachineSpec, n: int) -> Seq<char>
    decreases n,
{
    if n <= 0 {
        Seq::empty()
    } else {
        edges_text(m, n - 1) + edge_text(m, n - 1)
    }
}

/// A dashed edge from each of the first `n` states to the any-state node.
pub open spec fn any_state_edges(m: MachineSpec, n: int) -> Seq<char>
    decreases n,
{
    if n <= 0 {
        Seq::empty()
    } else {
        any_state_edges(m, n - 1) + any_state_edge(m.states@[n - 1].name@)
    }
}

/// Whether some event may be raised from any state.
pub open spec fn has_universal(m: MachineSpec) -> bool {
    exists|j: int| 0 <= j < m.events@.len() && m.events@[j].source == Source::Any
}

pub open spec fn initial_edge(m: MachineSpec) -> Seq<char> {
    match first_marked(m.states@, true, m.states@.len() as int) {
        Some(i) => "    INITIAL -> \""@ + m.states@[i].name@ + "\"\n"@,
        None => Seq::empty(),
    }
}

pub open spec fn terminal_part(m: MachineSpec) -> Seq<char> {
    match first_marked(m.states@, false, m.states@.len() as int) {
        Some(i) => "    TERMINAL [label=\"\", shape=doublecircle, width=0.2,\n      style=filled, fillcolor=black]\n"@
            + "    \""@ + m.states@[i].name@ + "\" -> TERMINAL\n"@,
        None => Seq::empty(),
    }
}

pub open spec fn graph_head() -> Seq<char> {
    "digraph {\n  rankdir=LR\n  node [shape=record, style=rounded, fontname=\"Sans Bold\"]\n  edge [fontname=\"Sans\"]\n"@
}

pub open spec fn initial_node() -> Seq<char> {
    "    INITIAL [label=\"\", shape=circle, width=0.2, style=filled, fillcolor=black]\n"@
}

/// The whole DOT text of a machine: the cluster with its title and extended
/// state, the initial marker, one node per state, the initial edge, one edge
/// per event, dashed edges to the any-state node when some event is
/// universal, and the terminal marker with its edge when a terminal state is
/// marked. `hide` leaves out default values; `pretty` shows the value of each
/// local field's default, where none was declared the type's default.
pub open spec fn dot_text(m: MachineSpec, hide: bool, pretty: bool) -> Seq<char> {
    let n = m.states@.len() as int;
    graph_head() + cluster_head(m, hide) + initial_node() + nodes_text(m, n, hide, pretty)
        + initial_edge(m) + edges_text(m, m.events@.len() as int) + (if has_universal(m) {
        any_state_edges(m, n)
    } else {
        Seq::empty()
    }) + terminal_part(m) + "  }\n}"@
}

/// Renders the DOT text of a machine; `hide_defaults` leaves out default
/// values, `pretty_defaults` shows the values of local fields' defaults.
pub fn machine_dotfile(m: &MachineSpec, hide_defaults: bool, pretty_defaults: bool) -> (r: String)
    ensures
        r@ == dot_text(*m, hide_defaults, pretty_defaults),
{
    let mut s = String::new();
    s.append("digraph {\n  rankdir=LR\n  node [shape=record, style=rounded, fontname=\"Sans Bold\"]\n  edge [fontname=\"Sans\"]\n");
    let h = cluster_head_exec(m, hide_defaults);
    s.append(h.as_str());
    s.append("    INITIAL [label=\"\", shape=circle, width=0.2, style=filled, fillcolor=black]\n");
    let mut nodes = String::new();
    let mut i: usize = 0;
    while i < m.states.len()
        invariant
            i <= m.states@.len(),
            nodes@ == nodes_text(*m, i as int, hide_defaults, pretty_defaults),
        decreases m.states.len() - i,
    {
        let t = node_text_exec(m, i, hide_defaults, pretty_defaults);
        nodes.append(t.as_str());
        i = i + 1;
    }
    s.append(nodes.as_str());
    let mut ie = String::new();
    match m.find_marked(true) {
        Some(k) => {
            ie.append("    INITIAL -> \"");
            ie.append(m.states[k].name.as_str());
            ie.append("\"\n");
        },
        None => {},
    }
    s.append(ie.as_str());
    let mut edges = String::new();
    let mut universal = false;
    let mut j: usize = 0;
    while j < m.events.len()
        invariant
            j <= m.events@.len(),
            edges@ == edges_text(*m, j as int),
            universal == exists|k: int| 0 <= k < j && m.events@[k].source == Source::Any,
        decreases m.events.len() - j,
    {
        let t = edge_text_exec(m, j);
        edges.append(t.as_str());
        if m.events[j].source == Source::Any {
            universal = true;
        }
        j = j + 1;
    }
    s.append(edges.as_str());
    let mut any = String::new();
    if universal {
        let mut i: usize = 0;
        while i < m.states.len()
            invariant
                i <= m.states@.len(),
                any@ == any_state_edges(*m, i as int),
            decreases m.states.len() - i,
        {
            any.append("    \"");
            any.append(m.states[i].name.as_str());
            any.append("\" -> \"*\" [style=dashed, color=gray]\n");
            i = i + 1;
            assert(any@ =~= any_state_edges(*m, i as int));
        }
    }
    s.append(any.as_str());
    let mut term = String::new();
    match m.find_marked(false) {
        Some(k) => {
            term.append("    TERMINAL [label=\"\", shape=doublecircle, width=0.2,\n      style=filled, fillcolor=black]\n");
            term.append("    \"");
            term.append(m.states[k].name.as_str());
            term.append("\" -> TERMINAL\n");
        },
        None => {},
    }
    s.append(term.as_str());
    s.append("  }\n}");
    proof {
        if !universal {
            assert(any@ =~= Seq::<char>::empty());
        }
    }
    s
}

/// Methods for DOT file creation.
pub trait MachineDotfile {
    /// The specification that the diagram shows.
    spec fn description(&self) -> MachineSpec;

    /// Generates a DOT file for the machine that hides the default values
    /// of state fields and extended state fields.
    fn dotfile(&self) -> (r: String)
        ensures
            r@ == dot_text(self.description(), true, false),
    ;

    /// Generates a DOT file for the machine that shows the declared default
    /// values of state fields and extended state fields.
    fn dotfile_show_defaults(&self) -> (r: String)
        ensures
            r@ == dot_text(self.description(), false, false),
    ;

    /// Generates a DOT file for the machine that shows the value each state
    /// field starts with, the type's default where none was declared.
    fn dotfile_pretty_defaults(&self) -> (r: String)
        ensures
            r@ == dot_text(self.description(), false, true),
    ;
}

impl MachineDotfile for MachineSpec {
    open spec fn description(&self) -> MachineSpec {
        *self
    }

    fn dotfile(&self) -> (r: String) {
        machine_dotfile(self, true, false)
    }

    fn dotfile_show_defaults(&self) -> (r: String) {
        machine_dotfile(self, false, false)
    }

    fn dotfile_pretty_defaults(&self) -> (r: String) {
        machine_dotfile(self, false, true)
    }
}

impl<'a> MachineDotfile for Machine<'a> {
    open spec fn description(&self) -> MachineSpec {
        self.spec_of()
    }

    fn dotfile(&self) -> (r: String) {
        machine_dotfile(self.spec(), true, false)
    }

    fn dotfile_show_defaults(&self) -> (r: String) {
        machine_dotfile(self.spec(), false, false)
    }

    fn dotfile_pretty_defaults(&self) -> (r: String) {
        machine_dotfile(self.spec(), false, true)
    }
}

} // verus!

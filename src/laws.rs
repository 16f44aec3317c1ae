//! Properties that hold of every machine: of dispatch, and of the agreement
//! between the diagram and the specification.
use vstd::prelude::*;
use vstd::seq_lib::lemma_flatten_concat;
use crate::action::{run, Data, Stmt};
use crate::dotfile::{
    any_state_edge, any_state_edges, cluster_head, label_part, dot_text, edge_label, edge_text, edges_text, graph_head,
    has_universal, initial_edge, initial_node, node_head, state_name, node_text, nodes_text, terminal_part,
};
use crate::check::{first_repeated, first_unquotable, quote_free, repeated_later};
use crate::escape::{escaped, escaped_char};
use crate::model::{first_marked, EventSpec, MachineSpec, Source, StateSpec};
use crate::dotfile::default_text;
use crate::text::decimal;
use crate::runtime::{all_supplied, ext_start, override_at, 
    after_exit, accepts, dispatch, fresh_locals, view_wf, HandleEventException, MachineView,
};

verus! {

/// Whether no statement writes a local field.
pub open spec fn writes_no_local(stmts: Seq<Stmt>) -> bool {
    forall|q: int| 0 <= q < stmts.len() ==> !((#[trigger] stmts[q]).target is Local)
}

/// Statements that write no local field leave the local data as it was.
pub proof fn lemma_run_keeps_locals(d: Data, params: Seq<u64>, stmts: Seq<Stmt>)
    requires
        writes_no_local(stmts),
    ensures
        run(d, params, stmts).locals == d.locals,
    decreases stmts.len(),
{
    if stmts.len() > 0 {
        assert(writes_no_local(stmts.drop_last())) by {
            assert forall|q: int| 0 <= q < stmts.drop_last().len() implies
                !((#[trigger] stmts.drop_last()[q]).target is Local) by {
                assert(stmts.drop_last()[q] == stmts[q]);
            }
        }
        lemma_run_keeps_locals(d, params, stmts.drop_last());
        assert(!(stmts[stmts.len() - 1].target is Local));
    }
}

/// An event raised in a state other than its fixed source is refused with
/// `WrongState`, and the instance is left exactly as it was.
pub proof fn rejection_changes_nothing(m: MachineSpec, v: MachineView, id: int, params: Seq<u64>)
    requires
        0 <= id < m.events@.len(),
        m.events@[id].source matches Source::State(s) && s != v.state,
    ensures
        dispatch(m, v, id, params) == (v, Err::<(), HandleEventException>(HandleEventException::WrongState)),
{
}

/// A transition to a state runs, in this order, the current state's exit
/// action, the event's action, the swap to the target's fresh local data and
/// the target's entry action; an internal transition runs the event's action
/// alone, on the current local data.
pub proof fn transition_order(m: MachineSpec, v: MachineView, id: int, params: Seq<u64>)
    requires
        m.valid(),
        view_wf(m, v),
        0 <= id < m.events@.len(),
        accepts(m, v.state, id),
    ensures
        m.events@[id].target matches Some(t) ==> {
            let d1 = run(Data { locals: v.locals, extended: v.extended }, Seq::empty(), m.states@[v.state].exit@);
            let d2 = run(d1, params, m.events@[id].action@);
            let d3 = run(Data { locals: fresh_locals(m, t as int), extended: d2.extended }, Seq::empty(), m.states@[t as int].entry@);
            dispatch(m, v, id, params) == (MachineView { state: t as int, locals: d3.locals, extended: d3.extended }, Ok::<(), HandleEventException>(()))
        },
        m.events@[id].target is None ==> {
            let d = run(Data { locals: v.locals, extended: v.extended }, params, m.events@[id].action@);
            dispatch(m, v, id, params) == (MachineView { state: v.state, locals: d.locals, extended: d.extended }, Ok::<(), HandleEventException>(()))
        },
{
    crate::runtime::lemma_valid_facts(m);
    assert(crate::model::transition_of(m.events@[id].source, m.events@[id].target) is Some);
}

/// After a transition into a state whose entry action writes no local
/// field, every local field of that state holds its declared default,
/// whatever the data of the state that was left.
pub proof fn entered_state_starts_fresh(m: MachineSpec, v: MachineView, id: int, params: Seq<u64>)
    requires
        m.valid(),
        view_wf(m, v),
        0 <= id < m.events@.len(),
        accepts(m, v.state, id),
        m.events@[id].target matches Some(t) && writes_no_local(m.states@[t as int].entry@),
    ensures
        dispatch(m, v, id, params).0.locals == fresh_locals(m, m.events@[id].target.unwrap() as int),
{
    transition_order(m, v, id, params);
    let t = m.events@[id].target.unwrap() as int;
    let d1 = after_exit(m, v);
    let d2 = run(d1, params, m.events@[id].action@);
    lemma_run_keeps_locals(Data { locals: fresh_locals(m, t), extended: d2.extended }, Seq::empty(), m.states@[t].entry@);
}

/// Whether `x` occurs in `s` as a contiguous part.
pub open spec fn occurs(s: Seq<char>, x: Seq<char>) -> bool {
    exists|k: int| 0 <= k && k + x.len() <= s.len() && #[trigger] s.subrange(k, k + x.len()) == x
}

proof fn lemma_occurs_left(a: Seq<char>, b: Seq<char>, x: Seq<char>)
    requires
        occurs(a, x),
    ensures
        occurs(a + b, x),
{
    let k = choose|k: int| 0 <= k && k + x.len() <= a.len() && #[trigger] a.subrange(k, k + x.len()) == x;
    assert((a + b).subrange(k, k + x.len()) =~= a.subrange(k, k + x.len()));
}

proof fn lemma_occurs_right(a: Seq<char>, b: Seq<char>, x: Seq<char>)
    requires
        occurs(b, x),
    ensures
        occurs(a + b, x),
{
    let k = choose|k: int| 0 <= k && k + x.len() <= b.len() && #[trigger] b.subrange(k, k + x.len()) == x;
    assert((a + b).subrange(a.len() + k, a.len() + k + x.len()) =~= b.subrange(k, k + x.len()));
}

proof fn lemma_nodes_occur(m: MachineSpec, n: int, i: int, hide: bool, pretty: bool)
    requires
        0 <= i < n <= m.states@.len(),
    ensures
        occurs(nodes_text(m, n, hide, pretty), node_head(m.states@[i].name@)),
    decreases n,
{
    if i < n - 1 {
        lemma_nodes_occur(m, n - 1, i, hide, pretty);
        lemma_occurs_left(nodes_text(m, n - 1, hide, pretty), node_text(m, n - 1, hide, pretty), node_head(m.states@[i].name@));
    } else {
        let h = node_head(m.states@[i].name@);
        let nt = node_text(m, i, hide, pretty);
        let k: int = 0;
        assert(nt.subrange(k, k + h.len()) =~= h);
        lemma_occurs_right(nodes_text(m, n - 1, hide, pretty), nt, h);
    }
}

proof fn lemma_edges_occur(m: MachineSpec, n: int, j: int)
    requires
        0 <= j < n <= m.events@.len(),
    ensures
        occurs(edges_text(m, n), edge_label(m.events@[j].name@)),
    decreases n,
{
    let x = edge_label(m.events@[j].name@);
    if j < n - 1 {
        lemma_edges_occur(m, n - 1, j);
        lemma_occurs_left(edges_text(m, n - 1), edge_text(m, n - 1), x);
    } else {
        let e = m.events@[j];
        let src = match e.source {
            Source::Any => "*"@,
            Source::State(s) => crate::dotfile::state_name(m, s),
        };
        let tgt = match e.target {
            Some(t) => crate::dotfile::state_name(m, t),
            None => src,
        };
        let p = "    \""@ + src + "\" -> \""@ + tgt + "\" "@;
        let et = edge_text(m, j);
        let k: int = p.len() as int;
        assert(et.subrange(k, k + x.len()) =~= x);
        lemma_occurs_right(edges_text(m, n - 1), et, x);
    }
}

/// Each state of the specification, which the runtime takes as the set of
/// its states, has a node in the diagram named by the state's name, and
/// each event has an edge labelled by the event's name, in every rendering
/// mode.
pub proof fn diagram_shows_every_state_and_event(m: MachineSpec, hide: bool, pretty: bool)
    ensures
        forall|i: int| 0 <= i < m.states@.len() ==>
            occurs(dot_text(m, hide, pretty), #[trigger] node_head(m.states@[i].name@)),
        forall|j: int| 0 <= j < m.events@.len() ==>
            occurs(dot_text(m, hide, pretty), #[trigger] edge_label(m.events@[j].name@)),
{
    let n = m.states@.len() as int;
    let a = graph_head() + cluster_head(m, hide) + initial_node();
    let nodes = nodes_text(m, n, hide, pretty);
    let b = initial_edge(m);
    let edges = edges_text(m, m.events@.len() as int);
    let c = (if has_universal(m) { any_state_edges(m, n) } else { Seq::empty() }) + terminal_part(m) + "  }\n}"@;
    assert(dot_text(m, hide, pretty) =~= a + nodes + b + edges + c);
    assert forall|i: int| 0 <= i < m.states@.len() implies
        occurs(dot_text(m, hide, pretty), #[trigger] node_head(m.states@[i].name@)) by {
        let x = node_head(m.states@[i].name@);
        lemma_nodes_occur(m, n, i, hide, pretty);
        lemma_occurs_right(a, nodes, x);
        lemma_occurs_left(a + nodes, b, x);
        lemma_occurs_left(a + nodes + b, edges, x);
        lemma_occurs_left(a + nodes + b + edges, c, x);
    }
    assert forall|j: int| 0 <= j < m.events@.len() implies
        occurs(dot_text(m, hide, pretty), #[trigger] edge_label(m.events@[j].name@)) by {
        let x = edge_label(m.events@[j].name@);
        lemma_edges_occur(m, m.events@.len() as int, j);
        lemma_occurs_right(a + nodes + b, edges, x);
        lemma_occurs_left(a + nodes + b + edges, c, x);
    }
}

/// The node statements of the diagram, one per state in order.
pub open spec fn node_statements(m: MachineSpec, hide: bool, pretty: bool) -> Seq<Seq<char>> {
    Seq::new(m.states@.len(), |i: int| node_text(m, i, hide, pretty))
}

/// The labelled edge statements of the diagram, one per event in order.
pub open spec fn edge_statements(m: MachineSpec) -> Seq<Seq<char>> {
    Seq::new(m.events@.len(), |j: int| edge_text(m, j))
}

/// The dashed edges to the any-state node, one per state when some event is
/// universal.
pub open spec fn any_state_statements(m: MachineSpec) -> Seq<Seq<char>> {
    if has_universal(m) {
        Seq::new(m.states@.len(), |i: int| any_state_edge(m.states@[i].name@))
    } else {
        Seq::empty()
    }
}

/// The diagram cut into its statements, in order: the graph's head, the
/// cluster's head, the initial marker, the state nodes, the initial edge,
/// the event edges, the dashed edges, the terminal marker and the closing
/// braces.
pub open spec fn statements(m: MachineSpec, hide: bool, pretty: bool) -> Seq<Seq<char>> {
    seq![graph_head()] + seq![cluster_head(m, hide)] + seq![initial_node()] + node_statements(m, hide, pretty)
        + seq![initial_edge(m)] + edge_statements(m) + any_state_statements(m) + seq![terminal_part(m)]
        + seq!["  }\n}"@]
}

proof fn lemma_flatten_nodes(m: MachineSpec, n: int, hide: bool, pretty: bool)
    requires
        0 <= n <= m.states@.len(),
    ensures
        Seq::new(n as nat, |i: int| node_text(m, i, hide, pretty)).flatten() == nodes_text(m, n, hide, pretty),
    decreases n,
{
    broadcast use Seq::lemma_flatten_push;
    if n > 0 {
        lemma_flatten_nodes(m, n - 1, hide, pretty);
        assert(Seq::new(n as nat, |i: int| node_text(m, i, hide, pretty))
            =~= Seq::new((n - 1) as nat, |i: int| node_text(m, i, hide, pretty)).push(node_text(m, n - 1, hide, pretty)));
    } else {
        assert(Seq::new(n as nat, |i: int| node_text(m, i, hide, pretty)) =~= Seq::<Seq<char>>::empty());
    }
}

proof fn lemma_flatten_edges(m: MachineSpec, n: int)
    requires
        0 <= n <= m.events@.len(),
    ensures
        Seq::new(n as nat, |j: int| edge_text(m, j)).flatten() == edges_text(m, n),
    decreases n,
{
    broadcast use Seq::lemma_flatten_push;
    if n > 0 {
        lemma_flatten_edges(m, n - 1);
        assert(Seq::new(n as nat, |j: int| edge_text(m, j))
            =~= Seq::new((n - 1) as nat, |j: int| edge_text(m, j)).push(edge_text(m, n - 1)));
    } else {
        assert(Seq::new(n as nat, |j: int| edge_text(m, j)) =~= Seq::<Seq<char>>::empty());
    }
}

proof fn lemma_flatten_any(m: MachineSpec, n: int)
    requires
        0 <= n <= m.states@.len(),
    ensures
        Seq::new(n as nat, |i: int| any_state_edge(m.states@[i].name@)).flatten() == any_state_edges(m, n),
    decreases n,
{
    broadcast use Seq::lemma_flatten_push;
    if n > 0 {
        lemma_flatten_any(m, n - 1);
        assert(Seq::new(n as nat, |i: int| any_state_edge(m.states@[i].name@))
            =~= Seq::new((n - 1) as nat, |i: int| any_state_edge(m.states@[i].name@)).push(any_state_edge(m.states@[n - 1].name@)));
    } else {
        assert(Seq::new(n as nat, |i: int| any_state_edge(m.states@[i].name@)) =~= Seq::<Seq<char>>::empty());
    }
}

/// The diagram's text is its statements, one after the other.
pub proof fn diagram_is_its_statements(m: MachineSpec, hide: bool, pretty: bool)
    ensures
        statements(m, hide, pretty).flatten() == dot_text(m, hide, pretty),
{
    broadcast use Seq::lemma_flatten_singleton;
    let n = m.states@.len() as int;
    lemma_flatten_nodes(m, n, hide, pretty);
    lemma_flatten_edges(m, m.events@.len() as int);
    lemma_flatten_any(m, n);
    assert(Seq::<Seq<char>>::empty().flatten() =~= Seq::<char>::empty());
    let s1 = seq![graph_head()];
    let s2 = s1 + seq![cluster_head(m, hide)];
    let s3 = s2 + seq![initial_node()];
    let s4 = s3 + node_statements(m, hide, pretty);
    let s5 = s4 + seq![initial_edge(m)];
    let s6 = s5 + edge_statements(m);
    let s7 = s6 + any_state_statements(m);
    let s8 = s7 + seq![terminal_part(m)];
    lemma_flatten_concat(s1, seq![cluster_head(m, hide)]);
    lemma_flatten_concat(s2, seq![initial_node()]);
    lemma_flatten_concat(s3, node_statements(m, hide, pretty));
    lemma_flatten_concat(s4, seq![initial_edge(m)]);
    lemma_flatten_concat(s5, edge_statements(m));
    lemma_flatten_concat(s6, any_state_statements(m));
    lemma_flatten_concat(s7, seq![terminal_part(m)]);
    lemma_flatten_concat(s8, seq!["  }\n}"@]);
    assert(statements(m, hide, pretty).flatten() =~= dot_text(m, hide, pretty));
}

/// Whether `x` is a prefix of `c`.
pub open spec fn starts_with(c: Seq<char>, x: Seq<char>) -> bool {
    x.len() <= c.len() && c.subrange(0, x.len() as int) == x
}

/// Whether `s` holds no `d`.
pub open spec fn free_of(s: Seq<char>, d: char) -> bool {
    forall|k: int| 0 <= k < s.len() ==> #[trigger] s[k] != d
}

proof fn lemma_prefix_chars(c: Seq<char>, x: Seq<char>)
    requires
        starts_with(c, x),
    ensures
        forall|k: int| 0 <= k < x.len() ==> #[trigger] c[k] == x[k],
{
    assert forall|k: int| 0 <= k < x.len() implies #[trigger] c[k] == x[k] by {
        assert(c.subrange(0, x.len() as int)[k] == c[k]);
    }
}

/// Two prefixes of one text that agree up to a field ended by `d`, where
/// neither field holds `d`, have the same field and agree after it.
proof fn lemma_delimited(
    c: Seq<char>,
    p: Seq<char>,
    a: Seq<char>,
    qa: Seq<char>,
    b: Seq<char>,
    qb: Seq<char>,
    d: char,
)
    requires
        free_of(a, d),
        free_of(b, d),
        qa.len() > 0 && qa[0] == d,
        qb.len() > 0 && qb[0] == d,
        starts_with(c, p + a + qa),
        starts_with(c, p + b + qb),
    ensures
        a == b,
        forall|k: int| 0 <= k < qa.len() && k < qb.len() ==> #[trigger] qa[k] == qb[k],
{
    let xa = p + a + qa;
    let xb = p + b + qb;
    lemma_prefix_chars(c, xa);
    lemma_prefix_chars(c, xb);
    let o = p.len() as int;
    if a.len() < b.len() {
        assert(xa[o + a.len()] == qa[0]);
        assert(xb[o + a.len()] == b[a.len() as int]);
        assert(false);
    }
    if b.len() < a.len() {
        assert(xb[o + b.len()] == qb[0]);
        assert(xa[o + b.len()] == a[b.len() as int]);
        assert(false);
    }
    assert forall|k: int| 0 <= k < a.len() implies a[k] == b[k] by {
        assert(xa[o + k] == a[k]);
        assert(xb[o + k] == b[k]);
    }
    assert(a =~= b);
    assert forall|k: int| 0 <= k < qa.len() && k < qb.len() implies #[trigger] qa[k] == qb[k] by {
        assert(xa[o + a.len() + k] == qa[k]);
        assert(xb[o + b.len() + k] == qb[k]);
    }
}

/// The opening of an edge statement between two identifiers.
pub open spec fn edge_head(a: Seq<char>, b: Seq<char>) -> Seq<char> {
    "    \""@ + a + "\" -> \""@ + b + "\" "@
}

/// Whether a statement is the node statement of the identifier `id`.
pub open spec fn is_node_statement(c: Seq<char>, id: Seq<char>) -> bool {
    free_of(id, '"') && starts_with(c, node_head(id))
}

/// Whether a statement is an edge, between two identifiers, labelled with
/// the text `text`.
pub open spec fn is_labelled_edge(c: Seq<char>, text: Seq<char>) -> bool {
    free_of(text, '<') && exists|a: Seq<char>, b: Seq<char>|
        free_of(a, '"') && free_of(b, '"') && #[trigger] starts_with(c, edge_head(a, b) + label_part(text))
}

proof fn lemma_node_node(c: Seq<char>, x: Seq<char>, y: Seq<char>)
    requires
        is_node_statement(c, x),
        is_node_statement(c, y),
    ensures
        x == y,
{
    reveal_strlit("\" [label=<<B>");
    lemma_delimited(c, "    \""@, x, "\" [label=<<B>"@, y, "\" [label=<<B>"@, '"');
}

proof fn lemma_node_not_edge(c: Seq<char>, x: Seq<char>, a: Seq<char>, b: Seq<char>, t: Seq<char>)
    requires
        is_node_statement(c, x),
        free_of(a, '"'),
    ensures
        !starts_with(c, edge_head(a, b) + label_part(t)),
{
    if starts_with(c, edge_head(a, b) + label_part(t)) {
        reveal_strlit("\" [label=<<B>");
        reveal_strlit("\" -> \"");
        let q = "\" -> \""@ + b + "\" "@ + label_part(t);
        assert(edge_head(a, b) + label_part(t) =~= "    \""@ + a + q);
        lemma_delimited(c, "    \""@, x, "\" [label=<<B>"@, a, q, '"');
        assert(q[2] == '-');
        assert("\" [label=<<B>"@[2] == '[');
    }
}

proof fn lemma_node_not_any(c: Seq<char>, x: Seq<char>, y: Seq<char>)
    requires
        free_of(x, '"'),
        free_of(y, '"'),
        c == any_state_edge(y),
    ensures
        !is_node_statement(c, x),
{
    if is_node_statement(c, x) {
        lemma_node_any(c, x, y);
        reveal_strlit("\" [label=<<B>");
        reveal_strlit("\" -> \"*\" [style=dashed, color=gray]\n");
        assert("\" [label=<<B>"@[2] == '[');
    }
}

proof fn lemma_node_any(c: Seq<char>, x: Seq<char>, y: Seq<char>)
    requires
        is_node_statement(c, x),
        free_of(y, '"'),
        c == any_state_edge(y),
    ensures
        x == y,
        "\" [label=<<B>"@[2] == "\" -> \"*\" [style=dashed, color=gray]\n"@[2],
{
    reveal_strlit("\" [label=<<B>");
    reveal_strlit("\" -> \"*\" [style=dashed, color=gray]\n");
    let q = "\" -> \"*\" [style=dashed, color=gray]\n"@;
    assert(c.subrange(0, c.len() as int) =~= c);
    lemma_delimited(c, "    \""@, x, "\" [label=<<B>"@, y, q, '"');
}

proof fn lemma_edge_edge(
    c: Seq<char>,
    a: Seq<char>,
    b: Seq<char>,
    t: Seq<char>,
    a2: Seq<char>,
    b2: Seq<char>,
    t2: Seq<char>,
)
    requires
        free_of(a, '"') && free_of(b, '"') && free_of(t, '<'),
        free_of(a2, '"') && free_of(b2, '"') && free_of(t2, '<'),
        starts_with(c, edge_head(a, b) + label_part(t)),
        starts_with(c, edge_head(a2, b2) + label_part(t2)),
    ensures
        t == t2,
{
    reveal_strlit("\" -> \"");
    reveal_strlit("\" ");
    reveal_strlit("</FONT>");
    let o = "    \""@;
    let q = "\" -> \""@ + b + "\" "@ + label_part(t);
    let q2 = "\" -> \""@ + b2 + "\" "@ + label_part(t2);
    assert(edge_head(a, b) + label_part(t) =~= o + a + q);
    assert(edge_head(a2, b2) + label_part(t2) =~= o + a2 + q2);
    lemma_delimited(c, o, a, q, a2, q2, '"');
    let p2 = o + a + "\" -> \""@;
    assert(edge_head(a, b) + label_part(t) =~= p2 + b + ("\" "@ + label_part(t)));
    assert(edge_head(a2, b2) + label_part(t2) =~= p2 + b2 + ("\" "@ + label_part(t2)));
    lemma_delimited(c, p2, b, "\" "@ + label_part(t), b2, "\" "@ + label_part(t2), '"');
    let p3 = edge_head(a, b) + "[label=<<FONT FACE=\"Sans Italic\">"@;
    assert(edge_head(a, b) + label_part(t) =~= p3 + t + "</FONT>"@);
    assert(edge_head(a2, b2) + label_part(t2) =~= p3 + t2 + "</FONT>"@);
    lemma_delimited(c, p3, t, "</FONT>"@, t2, "</FONT>"@, '<');
}

proof fn lemma_edge_not_any(c: Seq<char>, a: Seq<char>, b: Seq<char>, t: Seq<char>, y: Seq<char>)
    requires
        free_of(a, '"') && free_of(b, '"'),
        free_of(y, '"'),
        c == any_state_edge(y),
    ensures
        !starts_with(c, edge_head(a, b) + label_part(t)),
{
    if starts_with(c, edge_head(a, b) + label_part(t)) {
        lemma_edge_any(c, a, b, t, y);
        reveal_strlit("\" ");
        reveal_strlit("[label=<<FONT FACE=\"Sans Italic\">");
        reveal_strlit("\" [style=dashed, color=gray]\n");
        assert(("\" "@ + label_part(t))[3] == 'l');
    }
}

proof fn lemma_edge_any(c: Seq<char>, a: Seq<char>, b: Seq<char>, t: Seq<char>, y: Seq<char>)
    requires
        free_of(a, '"') && free_of(b, '"'),
        free_of(y, '"'),
        starts_with(c, edge_head(a, b) + label_part(t)),
        c == any_state_edge(y),
    ensures
        ("\" "@ + label_part(t))[3] == "\" [style=dashed, color=gray]\n"@[3],
{
    reveal_strlit("\" -> \"");
    reveal_strlit("\" ");
    reveal_strlit("*");
    reveal_strlit("[label=<<FONT FACE=\"Sans Italic\">");
    reveal_strlit("\" -> \"*\" [style=dashed, color=gray]\n");
    reveal_strlit("\" [style=dashed, color=gray]\n");
    let o = "    \""@;
    let q = "\" -> \""@ + b + "\" "@ + label_part(t);
    assert(edge_head(a, b) + label_part(t) =~= o + a + q);
    assert(c.subrange(0, c.len() as int) =~= c);
    lemma_delimited(c, o, a, q, y, "\" -> \"*\" [style=dashed, color=gray]\n"@, '"');
    let p2 = o + a + "\" -> \""@;
    let r = "\" [style=dashed, color=gray]\n"@;
    assert(c =~= p2 + "*"@ + r);
    assert(edge_head(a, b) + label_part(t) =~= p2 + b + ("\" "@ + label_part(t)));
    lemma_delimited(c, p2, b, "\" "@ + label_part(t), "*"@, r, '"');
}

/// Whether a statement opens with four spaces and a double quote, as node
/// and edge statements do.
pub open spec fn opens_quoted(c: Seq<char>) -> bool {
    c.len() >= 5 && c[0] == ' ' && c[2] == ' ' && c[4] == '"'
}

proof fn lemma_opens(c: Seq<char>, z: Seq<char>)
    requires
        starts_with(c, "    \""@ + z),
    ensures
        opens_quoted(c),
{
    reveal_strlit("    \"");
    lemma_prefix_chars(c, "    \""@ + z);
    assert(("    \""@ + z)[0] == ' ');
    assert(("    \""@ + z)[2] == ' ');
    assert(("    \""@ + z)[4] == '"');
}

proof fn lemma_fixed_statements(m: MachineSpec, hide: bool)
    ensures
        !opens_quoted(graph_head()),
        !opens_quoted(cluster_head(m, hide)),
        !opens_quoted(initial_node()),
        !opens_quoted(initial_edge(m)),
        !opens_quoted(terminal_part(m)),
        !opens_quoted("  }\n}"@),
{
    reveal_strlit("digraph {\n  rankdir=LR\n  node [shape=record, style=rounded, fontname=\"Sans Bold\"]\n  edge [fontname=\"Sans\"]\n");
    reveal_strlit("  subgraph cluster_");
    reveal_strlit("    INITIAL [label=\"\", shape=circle, width=0.2, style=filled, fillcolor=black]\n");
    reveal_strlit("    INITIAL -> \"");
    reveal_strlit("    TERMINAL [label=\"\", shape=doublecircle, width=0.2,\n      style=filled, fillcolor=black]\n");
    reveal_strlit("  }\n}");
    assert(graph_head()[0] == 'd');
    assert(cluster_head(m, hide)[2] == 's');
    assert(initial_node()[4] == 'I');
    match first_marked(m.states@, true, m.states@.len() as int) {
        Some(i) => assert(initial_edge(m)[4] == 'I'),
        None => assert(initial_edge(m).len() == 0),
    }
    match first_marked(m.states@, false, m.states@.len() as int) {
        Some(i) => assert(terminal_part(m)[4] == 'T'),
        None => assert(terminal_part(m).len() == 0),
    }
    assert("  }\n}"@[2] == '}');
}

/// Where each kind of statement stands in `statements`.
proof fn lemma_statement_at(m: MachineSpec, hide: bool, pretty: bool, k: int)
    requires
        0 <= k < statements(m, hide, pretty).len(),
    ensures
        ({
            let st = statements(m, hide, pretty);
            let n = m.states@.len() as int;
            let ne = m.events@.len() as int;
            let na = any_state_statements(m).len() as int;
            &&& st.len() == 6 + n + ne + na
            &&& k == 0 ==> st[k] == graph_head()
            &&& k == 1 ==> st[k] == cluster_head(m, hide)
            &&& k == 2 ==> st[k] == initial_node()
            &&& 3 <= k < 3 + n ==> st[k] == node_text(m, k - 3, hide, pretty)
            &&& k == 3 + n ==> st[k] == initial_edge(m)
            &&& 4 + n <= k < 4 + n + ne ==> st[k] == edge_text(m, k - 4 - n)
            &&& 4 + n + ne <= k < 4 + n + ne + na ==> has_universal(m) && na == n
                && st[k] == any_state_edge(m.states@[k - 4 - n - ne].name@)
            &&& k == 4 + n + ne + na ==> st[k] == terminal_part(m)
            &&& k == 5 + n + ne + na ==> st[k] == "  }\n}"@
        }),
{
}

proof fn lemma_unquotable_none(states: Seq<StateSpec>, a: int, i: int)
    requires
        0 <= a <= i < states.len(),
        first_unquotable(states, a) is None,
    ensures
        free_of(states[i].name@, '"'),
    decreases i - a,
{
    if a < i {
        lemma_unquotable_none(states, a + 1, i);
    } else {
        assert forall|k: int| 0 <= k < states[i].name@.len() implies #[trigger] states[i].name@[k] != '"' by {
            assert(quote_free(states[i].name@));
        }
    }
}

proof fn lemma_repeated_none(names: Seq<Seq<char>>, a: int, i: int, j: int)
    requires
        0 <= a <= i < j < names.len(),
        first_repeated(names, a) is None,
    ensures
        names[i] != names[j],
    decreases i - a,
{
    if a < i {
        lemma_repeated_none(names, a + 1, i, j);
    } else {
        assert(!repeated_later(names, i));
    }
}

proof fn lemma_escaped_lt_free(s: Seq<char>)
    ensures
        free_of(escaped(s), '<'),
    decreases s.len(),
{
    if s.len() > 0 {
        lemma_escaped_lt_free(s.drop_last());
        let e = escaped_char(s.last());
        assert(free_of(e, '<'));
        assert forall|k: int| 0 <= k < escaped(s).len() implies #[trigger] escaped(s)[k] != '<' by {
            if k < escaped(s.drop_last()).len() {
                assert(escaped(s)[k] == escaped(s.drop_last())[k]);
            } else {
                assert(escaped(s)[k] == e[k - escaped(s.drop_last()).len()]);
            }
        }
    }
}

/// The identifier an event's edge starts from.
pub open spec fn edge_source(m: MachineSpec, e: EventSpec) -> Seq<char> {
    match e.source {
        Source::Any => "*"@,
        Source::State(s) => state_name(m, s),
    }
}

/// The identifier an event's edge ends at.
pub open spec fn edge_target(m: MachineSpec, e: EventSpec) -> Seq<char> {
    match e.target {
        Some(t) => state_name(m, t),
        None => edge_source(m, e),
    }
}

proof fn lemma_edge_shape(m: MachineSpec, j: int)
    requires
        m.valid(),
        0 <= j < m.events@.len(),
    ensures
        free_of(edge_source(m, m.events@[j]), '"'),
        free_of(edge_target(m, m.events@[j]), '"'),
        starts_with(edge_text(m, j), edge_head(edge_source(m, m.events@[j]), edge_target(m, m.events@[j]))
            + label_part(escaped(m.events@[j].name@))),
{
    reveal_strlit("*");
    reveal_strlit("?");
    let e = m.events@[j];
    assert forall|s: usize| free_of(#[trigger] state_name(m, s), '"') by {
        if s < m.states@.len() {
            lemma_unquotable_none(m.states@, 0, s as int);
        }
    }
    let x = edge_head(edge_source(m, e), edge_target(m, e)) + label_part(escaped(e.name@));
    let c = edge_text(m, j);
    assert(c.subrange(0, x.len() as int) =~= x);
}

proof fn lemma_node_at(m: MachineSpec, hide: bool, pretty: bool, i: int)
    requires
        m.valid(),
        0 <= i < m.states@.len(),
    ensures
        is_node_statement(statements(m, hide, pretty)[3 + i], m.states@[i].name@),
{
    lemma_statement_at(m, hide, pretty, 3 + i);
    lemma_unquotable_none(m.states@, 0, i);
    let c = node_text(m, i, hide, pretty);
    let h = node_head(m.states@[i].name@);
    assert(c.subrange(0, h.len() as int) =~= h);
}

proof fn lemma_node_only(m: MachineSpec, hide: bool, pretty: bool, k: int, id: Seq<char>)
    requires
        m.valid(),
        0 <= k < statements(m, hide, pretty).len(),
        is_node_statement(statements(m, hide, pretty)[k], id),
    ensures
        3 <= k < 3 + m.states@.len() && id == m.states@[k - 3].name@,
{
    reveal_strlit("\" [label=<<B>");
    lemma_fixed_statements(m, hide);
    lemma_statement_at(m, hide, pretty, k);
    let st = statements(m, hide, pretty);
    let n = m.states@.len() as int;
    let ne = m.events@.len() as int;
    let c = st[k];
    assert(node_head(id) =~= "    \""@ + (id + "\" [label=<<B>"@));
    lemma_opens(c, id + "\" [label=<<B>"@);
    if 3 <= k < 3 + n {
        lemma_node_at(m, hide, pretty, k - 3);
        lemma_node_node(c, id, m.states@[k - 3].name@);
    } else if 4 + n <= k < 4 + n + ne {
        let e = m.events@[k - 4 - n];
        lemma_edge_shape(m, k - 4 - n);
        lemma_node_not_edge(c, id, edge_source(m, e), edge_target(m, e), escaped(e.name@));
    } else if 4 + n + ne <= k < st.len() - 2 {
        lemma_unquotable_none(m.states@, 0, k - 4 - n - ne);
        lemma_node_not_any(c, id, m.states@[k - 4 - n - ne].name@);
    }
}

proof fn lemma_edge_at(m: MachineSpec, hide: bool, pretty: bool, j: int)
    requires
        m.valid(),
        0 <= j < m.events@.len(),
    ensures
        is_labelled_edge(statements(m, hide, pretty)[4 + m.states@.len() + j], escaped(m.events@[j].name@)),
{
    let n = m.states@.len() as int;
    lemma_statement_at(m, hide, pretty, 4 + n + j);
    lemma_edge_shape(m, j);
    lemma_escaped_lt_free(m.events@[j].name@);
    let e = m.events@[j];
    assert(starts_with(statements(m, hide, pretty)[4 + n + j],
        edge_head(edge_source(m, e), edge_target(m, e)) + label_part(escaped(e.name@))));
}

proof fn lemma_edge_only(m: MachineSpec, hide: bool, pretty: bool, k: int, t: Seq<char>)
    requires
        m.valid(),
        0 <= k < statements(m, hide, pretty).len(),
        is_labelled_edge(statements(m, hide, pretty)[k], t),
    ensures
        4 + m.states@.len() <= k < 4 + m.states@.len() + m.events@.len()
            && t == escaped(m.events@[k - 4 - m.states@.len()].name@),
{
    lemma_fixed_statements(m, hide);
    lemma_statement_at(m, hide, pretty, k);
    let st = statements(m, hide, pretty);
    let n = m.states@.len() as int;
    let ne = m.events@.len() as int;
    let c = st[k];
    let (a, b) = choose|a: Seq<char>, b: Seq<char>|
        free_of(a, '"') && free_of(b, '"') && #[trigger] starts_with(c, edge_head(a, b) + label_part(t));
    assert(edge_head(a, b) + label_part(t) =~= "    \""@ + (a + "\" -> \""@ + b + "\" "@ + label_part(t)));
    lemma_opens(c, a + "\" -> \""@ + b + "\" "@ + label_part(t));
    if 3 <= k < 3 + n {
        lemma_node_at(m, hide, pretty, k - 3);
        lemma_node_not_edge(c, m.states@[k - 3].name@, a, b, t);
    } else if 4 + n <= k < 4 + n + ne {
        let e = m.events@[k - 4 - n];
        lemma_edge_shape(m, k - 4 - n);
        lemma_escaped_lt_free(e.name@);
        lemma_edge_edge(c, a, b, t, edge_source(m, e), edge_target(m, e), escaped(e.name@));
    } else if 4 + n + ne <= k < st.len() - 2 {
        lemma_unquotable_none(m.states@, 0, k - 4 - n - ne);
        lemma_edge_not_any(c, a, b, t, m.states@[k - 4 - n - ne].name@);
    }
}

/// The diagram's statements are exactly the specification's: the node
/// statements are one per state, in order, each named by its state's name,
/// and no other statement is a node statement; the labelled edges are one
/// per event, in order, each labelled by its event's escaped name, and no
/// other statement is a labelled edge. As names of states are distinct,
/// each state has exactly one node statement.
pub proof fn diagram_statements_are_states_and_events(m: MachineSpec, hide: bool, pretty: bool)
    requires
        m.valid(),
    ensures
        statements(m, hide, pretty).flatten() == dot_text(m, hide, pretty),
        forall|i: int| 0 <= i < m.states@.len() ==>
            is_node_statement(#[trigger] statements(m, hide, pretty)[3 + i], m.states@[i].name@),
        forall|k: int, id: Seq<char>| 0 <= k < statements(m, hide, pretty).len()
            && #[trigger] is_node_statement(statements(m, hide, pretty)[k], id) ==>
            3 <= k < 3 + m.states@.len() && id == m.states@[k - 3].name@,
        forall|k1: int, k2: int, id: Seq<char>|
            0 <= k1 < statements(m, hide, pretty).len() && 0 <= k2 < statements(m, hide, pretty).len()
            && #[trigger] is_node_statement(statements(m, hide, pretty)[k1], id)
            && #[trigger] is_node_statement(statements(m, hide, pretty)[k2], id) ==> k1 == k2,
        forall|j: int| 0 <= j < m.events@.len() ==>
            is_labelled_edge(#[trigger] statements(m, hide, pretty)[4 + m.states@.len() + j], escaped(m.events@[j].name@)),
        forall|k: int, t: Seq<char>| 0 <= k < statements(m, hide, pretty).len()
            && #[trigger] is_labelled_edge(statements(m, hide, pretty)[k], t) ==>
            4 + m.states@.len() <= k < 4 + m.states@.len() + m.events@.len()
            && t == escaped(m.events@[k - 4 - m.states@.len()].name@),
{
    diagram_is_its_statements(m, hide, pretty);
    let st = statements(m, hide, pretty);
    assert forall|i: int| 0 <= i < m.states@.len() implies
        is_node_statement(#[trigger] st[3 + i], m.states@[i].name@) by {
        lemma_node_at(m, hide, pretty, i);
    }
    assert forall|k: int, id: Seq<char>| 0 <= k < st.len() && #[trigger] is_node_statement(st[k], id) implies
        3 <= k < 3 + m.states@.len() && id == m.states@[k - 3].name@ by {
        lemma_node_only(m, hide, pretty, k, id);
    }
    assert forall|k1: int, k2: int, id: Seq<char>|
        0 <= k1 < st.len() && 0 <= k2 < st.len()
        && #[trigger] is_node_statement(st[k1], id) && #[trigger] is_node_statement(st[k2], id) implies k1 == k2 by {
        lemma_node_only(m, hide, pretty, k1, id);
        lemma_node_only(m, hide, pretty, k2, id);
        if k1 != k2 {
            let names = m.states@.map_values(|s: StateSpec| s.name@);
            if k1 < k2 {
                lemma_repeated_none(names, 0, k1 - 3, k2 - 3);
            } else {
                lemma_repeated_none(names, 0, k2 - 3, k1 - 3);
            }
        }
    }
    assert forall|j: int| 0 <= j < m.events@.len() implies
        is_labelled_edge(#[trigger] st[4 + m.states@.len() + j], escaped(m.events@[j].name@)) by {
        lemma_edge_at(m, hide, pretty, j);
    }
    assert forall|k: int, t: Seq<char>| 0 <= k < st.len() && #[trigger] is_labelled_edge(st[k], t) implies
        4 + m.states@.len() <= k < 4 + m.states@.len() + m.events@.len()
        && t == escaped(m.events@[k - 4 - m.states@.len()].name@) by {
        lemma_edge_only(m, hide, pretty, k, t);
    }
}

/// Each event's edge starts from `*` when the event is universal and from
/// its source state's node otherwise, so a state has an outgoing edge for an
/// event exactly when the event is accepted there, that is, exactly where
/// dispatching it does not answer `WrongState`.
pub proof fn diagram_edges_match_dispatch(m: MachineSpec, hide: bool, pretty: bool, j: int, q: int)
    requires
        m.valid(),
        0 <= j < m.events@.len(),
        0 <= q < m.states@.len(),
    ensures
        starts_with(
            statements(m, hide, pretty)[4 + m.states@.len() + j],
            edge_head(edge_source(m, m.events@[j]), edge_target(m, m.events@[j])) + label_part(escaped(m.events@[j].name@)),
        ),
        accepts(m, q, j) <==> (m.events@[j].source == Source::Any && edge_source(m, m.events@[j]) == "*"@)
            || edge_source(m, m.events@[j]) == m.states@[q].name@,
{
    lemma_statement_at(m, hide, pretty, 4 + m.states@.len() + j);
    lemma_edge_shape(m, j);
    crate::runtime::lemma_valid_facts(m);
    assert(crate::model::transition_of(m.events@[j].source, m.events@[j].target) is Some);
    if let Source::State(s) = m.events@[j].source {
        if s as int != q {
            let names = m.states@.map_values(|x: StateSpec| x.name@);
            if (s as int) < q {
                lemma_repeated_none(names, 0, s as int, q);
            } else {
                lemma_repeated_none(names, 0, q, s as int);
            }
            assert(names[s as int] == m.states@[s as int].name@);
            assert(names[q] == m.states@[q].name@);
        }
    }
}

/// In the pretty rendering every local field of a state shows a value, and
/// that value is the one the field takes each time the state is entered.
pub proof fn pretty_defaults_are_entry_values(m: MachineSpec, x: int, k: int)
    requires
        0 <= x < m.states@.len(),
        0 <= k < m.states@[x].fields@.len(),
    ensures
        default_text(m.states@[x].fields@[k], true) == decimal(fresh_locals(m, x)[k] as nat),
        default_text(m.states@[x].fields@[k], true).len() > 0,
{
    reveal_with_fuel(decimal, 2);
    let v = fresh_locals(m, x)[k];
    assert(decimal(v as nat).len() > 0);
    if m.states@[x].fields@[k].default is None {
        assert(decimal(0) == seq!['0']);
    }
}

/// When defaults are shown, an extended field's line shows none exactly when
/// the field has no default, and such a field is one that construction
/// needs: without a value supplied for it no instance is built.
pub proof fn unshown_defaults_are_required(m: MachineSpec, i: int, overrides: Seq<Option<u64>>)
    requires
        0 <= i < m.extended@.len(),
    ensures
        (default_text(m.extended@[i], false).len() == 0) <==> m.extended@[i].default is None,
        m.extended@[i].default is None && override_at(overrides, i) is None ==> !all_supplied(m, overrides),
{
    reveal_with_fuel(decimal, 2);
    if let Some(v) = m.extended@[i].default {
        assert(decimal(v as nat).len() > 0);
    }
    if m.extended@[i].default is None && override_at(overrides, i) is None {
        assert(ext_start(m.extended@[i], override_at(overrides, i)) is None);
    }
}

} // verus!

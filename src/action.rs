//! The action language: straight-line assignments over the fields in scope.
use vstd::prelude::*;

verus! {

/// A field that an action reads or writes.
#[derive(Clone, Copy, PartialEq, Eq, Structural, Debug)]
pub enum FieldRef {
    /// The field at this index of the machine's extended state.
    Extended(usize),
    /// The field at this index of the current state's local data.
    Local(usize),
}

/// The value on the right-hand side of an assignment.
#[derive(Clone, Copy, PartialEq, Eq, Structural, Debug)]
pub enum Operand {
    Const(u64),
    /// The event parameter at this index.
    Param(usize),
    Field(FieldRef),
}

/// How the operand is combined with the target's value.
#[derive(Clone, Copy, PartialEq, Eq, Structural, Debug)]
pub enum Op {
    Assign,
    /// Addition modulo 2^64.
    Add,
    /// Subtraction modulo 2^64.
    Sub,
}

/// One assignment `target op= operand`.
#[derive(Clone, Copy, PartialEq, Eq, Structural, Debug)]
pub struct Stmt {
    pub target: FieldRef,
    pub op: Op,
    pub operand: Operand,
}

/// The data an action works on: the current state's local fields and the
/// extended state.
pub struct Data {
    pub locals: Seq<u64>,
    pub extended: Seq<u64>,
}

/// `a + b` modulo 2^64.
pub open spec fn wrap_add(a: u64, b: u64) -> u64 {
    if a + b <= u64::MAX {
        (a + b) as u64
    } else {
        (a + b - 0x1_0000_0000_0000_0000) as u64
    }
}

/// `a - b` modulo 2^64.
pub open spec fn wrap_sub(a: u64, b: u64) -> u64 {
    if a >= b {
        (a - b) as u64
    } else {
        (a + 0x1_0000_0000_0000_0000 - b) as u64
    }
}

/// The new value of a target holding `a` when combined with `b`.
pub open spec fn apply_op(op: Op, a: u64, b: u64) -> u64 {
    match op {
        Op::Assign => b,
        Op::Add => wrap_add(a, b),
        Op::Sub => wrap_sub(a, b),
    }
}

/// The value of a field; a reference past the end reads as zero.
pub open spec fn read_field(d: Data, f: FieldRef) -> u64 {
    match f {
        FieldRef::Extended(i) => if i < d.extended.len() { d.extended[i as int] } else { 0 },
        FieldRef::Local(i) => if i < d.locals.len() { d.locals[i as int] } else { 0 },
    }
}

/// The value of an operand; a parameter past the end reads as zero.
pub open spec fn read_operand(d: Data, params: Seq<u64>, o: Operand) -> u64 {
    match o {
        Operand::Const(v) => v,
        Operand::Param(i) => if i < params.len() { params[i as int] } else { 0 },
        Operand::Field(f) => read_field(d, f),
    }
}

/// `d` with field `f` set to `v`; a reference past the end changes nothing.
pub open spec fn write_field(d: Data, f: FieldRef, v: u64) -> Data {
    match f {
        FieldRef::Extended(i) => if i < d.extended.len() {
            Data { extended: d.extended.update(i as int, v), ..d }
        } else {
            d
        },
        FieldRef::Local(i) => if i < d.locals.len() {
            Data { locals: d.locals.update(i as int, v), ..d }
        } else {
            d
        },
    }
}

/// The data after one statement.
pub open spec fn step(d: Data, params: Seq<u64>, s: Stmt) -> Data {
    write_field(
        d,
        s.target,
        apply_op(s.op, read_field(d, s.target), read_operand(d, params, s.operand)),
    )
}

/// The data after running the statements in order.
pub open spec fn run(d: Data, params: Seq<u64>, stmts: Seq<Stmt>) -> Data
    decreases stmts.len(),
{
    if stmts.len() == 0 {
        d
    } else {
        step(run(d, params, stmts.drop_last()), params, stmts.last())
    }
}

/// Running statements keeps the number of fields.
pub proof fn lemma_run_lengths(d: Data, params: Seq<u64>, stmts: Seq<Stmt>)
    ensures
        run(d, params, stmts).locals.len() == d.locals.len(),
        run(d, params, stmts).extended.len() == d.extended.len(),
    decreases stmts.len(),
{
    if stmts.len() > 0 {
        lemma_run_lengths(d, params, stmts.drop_last());
    }
}

fn add_mod(a: u64, b: u64) -> (r: u64)
    ensures
        r == wrap_add(a, b),
{
    if a <= u64::MAX - b {
        a + b
    } else {
        a - (u64::MAX - b) - 1
    }
}

fn sub_mod(a: u64, b: u64) -> (r: u64)
    ensures
        r == wrap_sub(a, b),
{
    if a >= b {
        a - b
    } else {
        u64::MAX - (b - a) + 1
    }
}

fn read_field_exec(locals: &Vec<u64>, extended: &Vec<u64>, f: FieldRef) -> (r: u64)
    ensures
        r == read_field(Data { locals: locals@, extended: extended@ }, f),
{
    match f {
        FieldRef::Extended(i) => if i < extended.len() { extended[i] } else { 0 },
        FieldRef::Local(i) => if i < locals.len() { locals[i] } else { 0 },
    }
}

/// Runs one statement on the given fields.
pub fn exec_stmt(locals: &mut Vec<u64>, extended: &mut Vec<u64>, params: &Vec<u64>, s: Stmt)
    ensures
        (Data { locals: final(locals)@, extended: final(extended)@ }) == step(
            Data { locals: old(locals)@, extended: old(extended)@ },
            params@,
            s,
        ),
{
    let cur = read_field_exec(locals, extended, s.target);
    let arg = match s.operand {
        Operand::Const(v) => v,
        Operand::Param(i) => if i < params.len() { params[i] } else { 0 },
        Operand::Field(f) => read_field_exec(locals, extended, f),
    };
    let v = match s.op {
        Op::Assign => arg,
        Op::Add => add_mod(cur, arg),
        Op::Sub => sub_mod(cur, arg),
    };
    match s.target {
        FieldRef::Extended(i) => if i < extended.len() {
            extended.set(i, v);
        },
        FieldRef::Local(i) => if i < locals.len() {
            locals.set(i, v);
        },
    }
}

/// Runs the statements in order on the given fields.
pub fn run_action(
    locals: &mut Vec<u64>,
    extended: &mut Vec<u64>,
    params: &Vec<u64>,
    stmts: &Vec<Stmt>,
)
    ensures
        (Data { locals: final(locals)@, extended: final(extended)@ }) == run(
            Data { locals: old(locals)@, extended: old(extended)@ },
            params@,
            stmts@,
        ),
{
    let ghost d0 = Data { locals: locals@, extended: extended@ };
    let mut i: usize = 0;
    while i < stmts.len()
        invariant
            i <= stmts@.len(),
            (Data { locals: locals@, extended: extended@ }) == run(
                d0,
                params@,
                stmts@.subrange(0, i as int),
            ),
        decreases stmts.len() - i,
    {
        exec_stmt(locals, extended, params, stmts[i]);
        i = i + 1;
        assert(stmts@.subrange(0, i as int).drop_last() =~= stmts@.subrange(0, i - 1));
    }
    assert(stmts@.subrange(0, stmts@.len() as int) =~= stmts@);
}

} // verus!

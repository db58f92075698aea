// The driver: pool interning, local declarations, multi-target
// assignment scheduling, and error propagation.

use luac_core::ast::AssignStat;
use luac_core::ast::Assignable;
use luac_core::ast::BinExpr;
use luac_core::ast::BinOp;
use luac_core::ast::Block;
use luac_core::ast::Expr;
use luac_core::ast::LocalStat;
use luac_core::ast::Stat;
use luac_core::compiler::Compiler;
use luac_core::consts::Const;
use luac_core::proto::Instruction;
use luac_core::proto::Proto;

fn name(s: &str) -> String {
    s.to_owned()
}

fn local(names: &[&str], exprs: Vec<Expr>) -> Stat {
    Stat::LocalStat(LocalStat { names: names.iter().map(|n| name(n)).collect(), exprs })
}

fn assign(left: &[&str], right: Vec<Expr>) -> Stat {
    Stat::AssignStat(AssignStat {
        left: left.iter().map(|n| Assignable::Name(name(n))).collect(),
        right,
    })
}

fn compile(stats: Vec<Stat>) -> Proto {
    let mut c = Compiler::new();
    match c.run(&Block { stats }) {
        Ok(p) => p,
        Err(e) => panic!("compile failed: {}", e.message()),
    }
}

fn compile_err(stats: Vec<Stat>) -> String {
    let mut c = Compiler::new();
    match c.run(&Block { stats }) {
        Ok(_) => panic!("expected a compile error"),
        Err(e) => e.message().to_owned(),
    }
}

#[test]
fn pool_dedupes_equal_constants() {
    let mut p = Proto::new();
    let a = p.add_const(Const::Int(7));
    let b = p.add_const(Const::Int(7));
    assert_eq!(a, b);
    let s1 = p.add_const(Const::Str(name("k")));
    let s2 = p.add_const(Const::Str(name("k")));
    assert_eq!(s1, s2);
    assert_eq!(p.consts.len(), 2);
}

#[test]
fn pool_keeps_the_two_zeroes_apart() {
    let mut p = Proto::new();
    let pos = p.add_const(Const::Float(0.0f64.to_bits()));
    let neg = p.add_const(Const::Float((-0.0f64).to_bits()));
    assert!(pos != neg);
    assert_eq!(p.consts.len(), 2);
}

#[test]
fn local_decl_nil_fills_surplus_names() {
    // local a, b, c = 1
    let p = compile(vec![local(&["a", "b", "c"], vec![Expr::Int(1)])]);
    assert_eq!(p.consts, vec![Const::Int(1)]);
    assert_eq!(
        p.code,
        vec![
            Instruction::LoadConst { dst: 0, k: 0 },
            Instruction::LoadNil { dst: 1, n: 2 },
        ]
    );
}

#[test]
fn local_decl_discards_surplus_values() {
    // local a = 1, 2, 3
    let p = compile(vec![local(&["a"], vec![Expr::Int(1), Expr::Int(2), Expr::Int(3)])]);
    assert_eq!(p.consts, vec![Const::Int(1), Const::Int(2), Const::Int(3)]);
    assert_eq!(
        p.code,
        vec![
            Instruction::LoadConst { dst: 0, k: 0 },
            Instruction::LoadConst { dst: 1, k: 1 },
            Instruction::LoadConst { dst: 2, k: 2 },
        ]
    );
}

#[test]
fn swap_of_two_locals() {
    // local a = 1  local b = 2  a, b = b, a
    let p = compile(vec![
        local(&["a"], vec![Expr::Int(1)]),
        local(&["b"], vec![Expr::Int(2)]),
        assign(&["a", "b"], vec![Expr::Name(name("b")), Expr::Name(name("a"))]),
    ]);
    assert_eq!(
        p.code,
        vec![
            Instruction::LoadConst { dst: 0, k: 0 },
            Instruction::LoadConst { dst: 1, k: 1 },
            // b into a temporary above the live registers...
            Instruction::Move { dst: 2, src: 1 },
            // ...a written over b only after b was drained...
            Instruction::Move { dst: 1, src: 0 },
            // ...and the temporary lands in a.
            Instruction::Move { dst: 0, src: 2 },
        ]
    );
}

#[test]
fn swap_of_two_locals_reversed_numbering() {
    // local b = 2  local a = 1  a, b = b, a  (a and b trade registers)
    let p = compile(vec![
        local(&["b"], vec![Expr::Int(2)]),
        local(&["a"], vec![Expr::Int(1)]),
        assign(&["a", "b"], vec![Expr::Name(name("b")), Expr::Name(name("a"))]),
    ]);
    assert_eq!(
        p.code,
        vec![
            Instruction::LoadConst { dst: 0, k: 0 },
            Instruction::LoadConst { dst: 1, k: 1 },
            Instruction::Move { dst: 2, src: 0 },
            Instruction::Move { dst: 0, src: 1 },
            Instruction::Move { dst: 1, src: 2 },
        ]
    );
}

#[test]
fn assign_evaluates_surplus_values_then_discards_them() {
    // local a = 9  a = 1, 2, 3
    let p = compile(vec![
        local(&["a"], vec![Expr::Int(9)]),
        assign(&["a"], vec![Expr::Int(1), Expr::Int(2), Expr::Int(3)]),
    ]);
    // All three values were evaluated: they all reached the pool and were
    // each loaded into a temporary; only the first was moved into a.
    assert_eq!(
        p.consts,
        vec![Const::Int(9), Const::Int(1), Const::Int(2), Const::Int(3)]
    );
    assert_eq!(
        p.code,
        vec![
            Instruction::LoadConst { dst: 0, k: 0 },
            Instruction::LoadConst { dst: 1, k: 1 },
            Instruction::LoadConst { dst: 2, k: 2 },
            Instruction::LoadConst { dst: 3, k: 3 },
            Instruction::Move { dst: 0, src: 1 },
        ]
    );
}

#[test]
fn assign_nil_fills_surplus_targets() {
    // local a = 1  local b = 2  a, b = 7
    let p = compile(vec![
        local(&["a"], vec![Expr::Int(1)]),
        local(&["b"], vec![Expr::Int(2)]),
        assign(&["a", "b"], vec![Expr::Int(7)]),
    ]);
    assert_eq!(
        p.code,
        vec![
            Instruction::LoadConst { dst: 0, k: 0 },
            Instruction::LoadConst { dst: 1, k: 1 },
            Instruction::LoadConst { dst: 2, k: 2 },
            Instruction::LoadNil { dst: 3, n: 1 },
            Instruction::Move { dst: 1, src: 3 },
            Instruction::Move { dst: 0, src: 2 },
        ]
    );
}

#[test]
fn folding_reaches_the_pool() {
    // local a = (2 + 3) * 4  — folded to one pooled constant 20.
    let e = Expr::BinExpr(Box::new(BinExpr {
        op: BinOp::Mul,
        left: Expr::ParenExpr(Box::new(Expr::BinExpr(Box::new(BinExpr {
            op: BinOp::Add,
            left: Expr::Int(2),
            right: Expr::Int(3),
        })))),
        right: Expr::Int(4),
    }));
    let p = compile(vec![local(&["a"], vec![e])]);
    assert_eq!(p.consts, vec![Const::Int(20)]);
    assert_eq!(p.code, vec![Instruction::LoadConst { dst: 0, k: 0 }]);
}

#[test]
fn nil_and_booleans_use_dedicated_instructions() {
    // local a, b, c = nil, true, false — nothing reaches the pool.
    let p = compile(vec![local(&["a", "b", "c"], vec![Expr::Nil, Expr::True, Expr::False])]);
    assert_eq!(p.consts, Vec::<Const>::new());
    assert_eq!(
        p.code,
        vec![
            Instruction::LoadNil { dst: 0, n: 1 },
            Instruction::LoadBool { dst: 1, b: true },
            Instruction::LoadBool { dst: 2, b: false },
        ]
    );
}

#[test]
fn string_literals_are_pooled_and_deduped() {
    // local a, b = "k", "k"
    let p = compile(vec![local(
        &["a", "b"],
        vec![Expr::Str(name("k")), Expr::Str(name("k"))],
    )]);
    assert_eq!(p.consts, vec![Const::Str(name("k"))]);
    assert_eq!(
        p.code,
        vec![
            Instruction::LoadConst { dst: 0, k: 0 },
            Instruction::LoadConst { dst: 1, k: 0 },
        ]
    );
}

#[test]
fn shadowing_rebinds_a_name() {
    // local a = 1  local a = 2  a = a — the inner a (register 1) wins.
    let p = compile(vec![
        local(&["a"], vec![Expr::Int(1)]),
        local(&["a"], vec![Expr::Int(2)]),
        assign(&["a"], vec![Expr::Name(name("a"))]),
    ]);
    assert_eq!(
        p.code,
        vec![
            Instruction::LoadConst { dst: 0, k: 0 },
            Instruction::LoadConst { dst: 1, k: 1 },
            Instruction::Move { dst: 1, src: 1 },
        ]
    );
}

#[test]
fn division_by_integer_zero_aborts_the_compile() {
    // local a = 1 // 0
    let e = Expr::BinExpr(Box::new(BinExpr {
        op: BinOp::IDiv,
        left: Expr::Int(1),
        right: Expr::Int(0),
    }));
    assert_eq!(compile_err(vec![local(&["a"], vec![e])]), "divide by zero");
}

#[test]
fn unbound_name_is_an_explicit_unsupported_error() {
    let msg = compile_err(vec![local(&["a"], vec![Expr::Name(name("x"))])]);
    assert_eq!(msg, "unsupported construct: name is not a bound local");
}

#[test]
fn unbound_assignment_target_is_an_explicit_unsupported_error() {
    let msg = compile_err(vec![assign(&["x"], vec![Expr::Int(1)])]);
    assert_eq!(msg, "unsupported construct: assignment target is not a local");
}

#[test]
fn unfoldable_expression_is_an_explicit_unsupported_error() {
    // local a = 1  local b = a + 1 — a name leaf defers, and runtime
    // code generation for binary expressions is outside this core.
    let e = Expr::BinExpr(Box::new(BinExpr {
        op: BinOp::Add,
        left: Expr::Name(name("a")),
        right: Expr::Int(1),
    }));
    let msg = compile_err(vec![local(&["a"], vec![Expr::Int(1)]), local(&["b"], vec![e])]);
    assert_eq!(msg, "unsupported construct: runtime expression code generation");
}

#[test]
fn error_aborts_before_later_statements() {
    // The failing statement is second of three; nothing is returned.
    let bad = Expr::BinExpr(Box::new(BinExpr {
        op: BinOp::Mod,
        left: Expr::Int(5),
        right: Expr::Int(0),
    }));
    let msg = compile_err(vec![
        local(&["a"], vec![Expr::Int(1)]),
        local(&["b"], vec![bad]),
        local(&["c"], vec![Expr::Int(3)]),
    ]);
    assert_eq!(msg, "divide by zero");
}

#[test]
fn compiler_can_run_twice() {
    let mut c = Compiler::new();
    let b1 = Block { stats: vec![local(&["a"], vec![Expr::Int(1)])] };
    let b2 = Block { stats: vec![local(&["z"], vec![Expr::Int(2)])] };
    let p1 = c.run(&b1).ok().unwrap();
    let p2 = c.run(&b2).ok().unwrap();
    assert_eq!(p1.consts, vec![Const::Int(1)]);
    assert_eq!(p2.consts, vec![Const::Int(2)]);
}

//! The compiler driver: walks a statement block and lowers it into a
//! bytecode prototype, or stops at the first error.
//!
//! Every executable step is specified against a value-level model: a
//! `CState` holds the constant pool, emitted code, scope table and
//! register top of the innermost function context, and spec functions
//! (`spec_fold`, `spec_expr`, `spec_local_stat`, `spec_assign_stat`,
//! `spec_run`) say exactly which state each construct produces, or which
//! error message stops the compile.

use vstd::prelude::*;
use crate::ast::BinOp;
use crate::ast::Expr;
use crate::ast::Assignable;
use crate::ast::LocalStat;
use crate::ast::AssignStat;
use crate::ast::Stat;
use crate::ast::Block;
use crate::consts::Const;
use crate::consts::ConstV;
use crate::consts::cview;
use crate::consts::spec_add;
use crate::consts::spec_sub;
use crate::consts::spec_mul;
use crate::consts::spec_div;
use crate::consts::spec_idiv;
use crate::consts::spec_rem;
use crate::consts::spec_band;
use crate::consts::spec_bor;
use crate::consts::spec_bxor;
use crate::consts::spec_shl;
use crate::consts::spec_shr;
use crate::proto::Instruction;
use crate::proto::Proto;
use crate::proto::ProtoContext;
use crate::proto::pool_view;
use crate::proto::lview;
use crate::proto::lookup_local;
use crate::proto::intern_pool;
use crate::proto::intern_slot;

verus! {

/// The single error type of the compiler: an opaque value carrying a
/// human-readable message. Its view is the message's character sequence.
pub struct CompileError {
    msg: String,
}

impl View for CompileError {
    type V = Seq<char>;

    closed spec fn view(&self) -> Seq<char> {
        self.msg@
    }
}

impl CompileError {
    /// Builds an error carrying the given message.
    pub fn new(msg: &str) -> (r: CompileError)
        ensures
            r@ == msg@,
    {
        CompileError { msg: msg.to_owned() }
    }

    /// The human-readable message.
    pub fn message(&self) -> (s: &str)
        ensures
            s@ == self@,
    {
        self.msg.as_str()
    }
}

/// Where one lowered expression lives: a constant-pool slot, a register,
/// or nowhere yet (nil and booleans are emitted by dedicated
/// instructions, not pooled).
#[derive(Debug, Clone, Copy, PartialEq, Eq, Structural)]
pub enum Index {
    ConstIndex(u32),
    RegIndex(u32),
    Unmaterialized,
}

/// The compile-time state of one function context, at the value level.
#[verifier::ext_equal]
pub struct CState {
    pub consts: Seq<ConstV>,
    pub code: Seq<Instruction>,
    pub locals: Seq<Seq<char>>,
    pub scopes: Seq<usize>,
    pub reg_top: int,
}

/// The state a compile context denotes.
pub open spec fn vctx(c: ProtoContext) -> CState {
    CState {
        consts: pool_view(c.proto.consts@),
        code: c.proto.code@,
        locals: lview(c.proto.locals@),
        scopes: c.proto.scopes@,
        reg_top: c.reg_top as int,
    }
}

/// The state after interning one constant.
pub open spec fn intern_state(s: CState, k: ConstV) -> CState {
    CState { consts: intern_pool(s.consts, k), ..s }
}

/// The outcome of a constant-folding attempt: a folded value, "defer to
/// runtime", or a hard compile-time error with its message.
pub enum FoldS {
    Val(ConstV),
    Defer,
    Fail(Seq<char>),
}

/// Lifts an optional folded value into a fold outcome.
pub open spec fn opt_fold(v: Option<ConstV>) -> FoldS {
    match v {
        Some(k) => FoldS::Val(k),
        None => FoldS::Defer,
    }
}

/// Lifts a fallible folded value into a fold outcome.
pub open spec fn res_fold(v: Result<Option<ConstV>, Seq<char>>) -> FoldS {
    match v {
        Ok(o) => opt_fold(o),
        Err(m) => FoldS::Fail(m),
    }
}

/// What applying one binary operator to two folded operands gives.
pub open spec fn spec_apply_bin_op(op: BinOp, l: ConstV, r: ConstV) -> FoldS {
    match op {
        BinOp::Add => opt_fold(spec_add(l, r)),
        BinOp::Minus => opt_fold(spec_sub(l, r)),
        BinOp::Mul => opt_fold(spec_mul(l, r)),
        BinOp::Div => opt_fold(spec_div(l, r)),
        BinOp::IDiv => res_fold(spec_idiv(l, r)),
        BinOp::Mod => res_fold(spec_rem(l, r)),
        BinOp::Pow => FoldS::Defer,
        BinOp::BAnd => opt_fold(spec_band(l, r)),
        BinOp::BOr => opt_fold(spec_bor(l, r)),
        BinOp::BXor => opt_fold(spec_bxor(l, r)),
        BinOp::Shl => opt_fold(spec_shl(l, r)),
        BinOp::Shr => opt_fold(spec_shr(l, r)),
    }
}

/// What folding a whole subtree gives. Integer and double literals fold
/// to themselves; a binary node folds when both children fold, the
/// left child's failure taking precedence; parentheses are transparent;
/// every other leaf (names, strings, nil, booleans) defers to runtime.
pub open spec fn spec_fold(e: Expr) -> FoldS
    decreases e,
{
    match e {
        Expr::Int(i) => FoldS::Val(ConstV::Int(i)),
        Expr::Float(f) => FoldS::Val(ConstV::Float(f)),
        Expr::BinExpr(b) => match (spec_fold(b.left), spec_fold(b.right)) {
            (FoldS::Fail(m), _) => FoldS::Fail(m),
            (_, FoldS::Fail(m)) => FoldS::Fail(m),
            (FoldS::Val(l), FoldS::Val(r)) => spec_apply_bin_op(b.op, l, r),
            _ => FoldS::Defer,
        },
        Expr::ParenExpr(inner) => spec_fold(*inner),
        _ => FoldS::Defer,
    }
}

/// A double that could not sit in the constant pool: NaN, infinite, or
/// exactly zero. Sign-of-zero and NaN payloads are runtime phenomena and
/// are never baked into a pooled constant.
pub open spec fn special_double(k: ConstV) -> bool {
    match k {
        ConstV::Float(f) => crate::fbits::f64_is_nan(f) || crate::fbits::f64_is_inf(f)
            || crate::fbits::f64_is_zero(f),
        _ => false,
    }
}

/// The suppression law, one operator: no binary operator ever folds to a
/// NaN, infinite, or zero double — such a result is withdrawn and left
/// to runtime evaluation.
pub proof fn lemma_no_special_double_op(op: BinOp, l: ConstV, r: ConstV)
    ensures
        spec_apply_bin_op(op, l, r) matches FoldS::Val(k) ==> !special_double(k),
{
}

/// The suppression law, unary minus: negation never folds to a zero (or
/// NaN, or infinite) double.
pub proof fn lemma_no_special_double_minus(c: ConstV)
    ensures
        crate::consts::spec_minus(c) matches Some(k) ==> !special_double(k),
{
}

/// The suppression law, whole subtrees: a binary subtree never folds to
/// a NaN, infinite, or zero double. (A literal double leaf folds to its
/// own bit pattern — a source literal `0.0` is pooled as written; only
/// computed specials are withdrawn.)
pub proof fn lemma_no_special_double_fold(e: Expr)
    ensures
        match spec_fold(e) {
            FoldS::Val(k) => (e matches Expr::BinExpr(_)) ==> !special_double(k),
            _ => true,
        },
{
    match e {
        Expr::BinExpr(b) => {
            match (spec_fold(b.left), spec_fold(b.right)) {
                (FoldS::Val(l), FoldS::Val(r)) => {
                    lemma_no_special_double_op(b.op, l, r);
                },
                _ => {},
            }
        },
        _ => {},
    }
}

/// Ties an executable fold result to its specified outcome.
pub open spec fn fold_matches(r: Result<Option<Const>, CompileError>, f: FoldS) -> bool {
    match f {
        FoldS::Val(k) => r matches Ok(Some(c)) && cview(c) == k,
        FoldS::Defer => r matches Ok(v) && v is None,
        FoldS::Fail(m) => r matches Err(e) && e@ == m,
    }
}

/// What lowering one expression gives: the successor state (the constant
/// pool may grow by the interned value) and where the value lives — or
/// the message of the error that stops the compile. Unbound names and
/// expressions that would need runtime code generation are explicit
/// unsupported-construct errors.
pub open spec fn spec_expr(s: CState, e: Expr) -> Result<(CState, Index), Seq<char>> {
    match e {
        Expr::Int(i) => Ok(
            (
                intern_state(s, ConstV::Int(i)),
                Index::ConstIndex(intern_slot(s.consts, ConstV::Int(i)) as u32),
            ),
        ),
        Expr::Float(f) => Ok(
            (
                intern_state(s, ConstV::Float(f)),
                Index::ConstIndex(intern_slot(s.consts, ConstV::Float(f)) as u32),
            ),
        ),
        Expr::Str(st) => Ok(
            (
                intern_state(s, ConstV::Str(st@)),
                Index::ConstIndex(intern_slot(s.consts, ConstV::Str(st@)) as u32),
            ),
        ),
        Expr::Nil => Ok((s, Index::Unmaterialized)),
        Expr::True => Ok((s, Index::Unmaterialized)),
        Expr::False => Ok((s, Index::Unmaterialized)),
        Expr::Name(n) => match lookup_local(s.locals, n@) {
            Some(i) => Ok((s, Index::RegIndex(i as u32))),
            None => Err("unsupported construct: name is not a bound local"@),
        },
        Expr::BinExpr(_) => spec_compile_expr(s, e),
        Expr::ParenExpr(_) => Err("unsupported construct: runtime expression code generation"@),
    }
}

/// What compiling a binary expression gives: its folded constant,
/// interned — or an error, since runtime code generation for unfoldable
/// expressions is outside this core.
pub open spec fn spec_compile_expr(s: CState, e: Expr) -> Result<(CState, Index), Seq<char>> {
    match spec_fold(e) {
        FoldS::Val(k) => Ok((intern_state(s, k), Index::ConstIndex(intern_slot(s.consts, k) as u32))),
        FoldS::Defer => Err("unsupported construct: runtime expression code generation"@),
        FoldS::Fail(m) => Err(m),
    }
}

/// What materializing one expression into register `dst` gives: the
/// lowering of the expression, followed by exactly one emitted
/// instruction — a constant load, a register move, a one-register
/// nil-fill, or a boolean load.
pub open spec fn spec_expr_save(s: CState, e: Expr, dst: u32) -> Result<CState, Seq<char>> {
    match spec_expr(s, e) {
        Err(m) => Err(m),
        Ok((s2, Index::ConstIndex(k))) => Ok(
            CState { code: s2.code.push(Instruction::LoadConst { dst, k }), ..s2 },
        ),
        Ok((s2, Index::RegIndex(src))) => Ok(
            CState { code: s2.code.push(Instruction::Move { dst, src }), ..s2 },
        ),
        Ok((s2, Index::Unmaterialized)) => match e {
            Expr::Nil => Ok(CState { code: s2.code.push(Instruction::LoadNil { dst, n: 1u32 }), ..s2 }),
            Expr::True => Ok(
                CState { code: s2.code.push(Instruction::LoadBool { dst, b: true }), ..s2 },
            ),
            Expr::False => Ok(
                CState { code: s2.code.push(Instruction::LoadBool { dst, b: false }), ..s2 },
            ),
            _ => Err("unsupported construct: runtime expression code generation"@),
        },
    }
}

/// Lowering an expression never touches code, locals, scopes or the
/// register top, and grows the pool by at most one slot.
pub proof fn lemma_expr_frame(s: CState, e: Expr)
    ensures
        spec_expr(s, e) matches Ok(p) ==> {
            &&& p.0.code == s.code
            &&& p.0.locals == s.locals
            &&& p.0.scopes == s.scopes
            &&& p.0.reg_top == s.reg_top
            &&& s.consts.len() <= p.0.consts.len() <= s.consts.len() + 1
        },
{
}

/// Materializing an expression emits exactly one instruction, leaves
/// locals, scopes and the register top alone, and grows the pool by at
/// most one slot.
pub proof fn lemma_expr_save_frame(s: CState, e: Expr, dst: u32)
    ensures
        spec_expr_save(s, e, dst) matches Ok(s2) ==> {
            &&& s2.locals == s.locals
            &&& s2.scopes == s.scopes
            &&& s2.reg_top == s.reg_top
            &&& s.consts.len() <= s2.consts.len() <= s.consts.len() + 1
            &&& s2.code.len() == s.code.len() + 1
        },
{
    lemma_expr_frame(s, e);
}

/// The larger of two integers.
pub open spec fn max2(a: int, b: int) -> int {
    if a >= b {
        a
    } else {
        b
    }
}

/// The register slot an assignment target names, or the message of the
/// unsupported-construct error when the target is not a bound local.
pub open spec fn spec_target(s: CState, a: Assignable) -> Result<u32, Seq<char>> {
    match a {
        Assignable::Name(n) => match lookup_local(s.locals, n@) {
            Some(i) => Ok(i as u32),
            None => Err("unsupported construct: assignment target is not a local"@),
        },
    }
}

/// What materializing the expressions `exprs[i..]` gives, each into one
/// freshly reserved register at the stack top.
pub open spec fn spec_save_list(s: CState, exprs: Seq<Expr>, i: int) -> Result<CState, Seq<char>>
    decreases exprs.len() - i,
{
    if i < 0 || i >= exprs.len() {
        Ok(s)
    } else {
        let dst = s.reg_top as u32;
        let s1 = CState { reg_top: s.reg_top + 1, ..s };
        match spec_expr_save(s1, exprs[i], dst) {
            Err(m) => Err(m),
            Ok(s2) => spec_save_list(s2, exprs, i + 1),
        }
    }
}

/// Materializing a list reserves one register per expression, leaves
/// locals and scopes alone, and grows the pool by at most one slot per
/// expression.
pub proof fn lemma_save_list_frame(s: CState, exprs: Seq<Expr>, i: int)
    requires
        0 <= i <= exprs.len(),
    ensures
        spec_save_list(s, exprs, i) matches Ok(s2) ==> {
            &&& s2.locals == s.locals
            &&& s2.scopes == s.scopes
            &&& s2.reg_top == s.reg_top + (exprs.len() - i)
            &&& s.consts.len() <= s2.consts.len() <= s.consts.len() + (exprs.len() - i)
        },
    decreases exprs.len() - i,
{
    if i < exprs.len() {
        let dst = s.reg_top as u32;
        let s1 = CState { reg_top: s.reg_top + 1, ..s };
        lemma_expr_save_frame(s1, exprs[i], dst);
        match spec_expr_save(s1, exprs[i], dst) {
            Err(_) => {},
            Ok(s2) => {
                lemma_save_list_frame(s2, exprs, i + 1);
            },
        }
    }
}

/// The nil-fill step of count adjustment: when there are more targets
/// than values, the missing values' registers are reserved in one block
/// and filled with nil by a single instruction.
pub open spec fn spec_adjust(s: CState, num_left: int, num_exprs: int) -> CState {
    if num_left > num_exprs {
        let extra = num_left - num_exprs;
        CState {
            code: s.code.push(
                Instruction::LoadNil { dst: s.reg_top as u32, n: extra as u32 },
            ),
            reg_top: s.reg_top + extra,
            ..s
        }
    } else {
        s
    }
}

/// The statement is small enough for 32-bit register, local and pool
/// slots; a larger one stops the compile.
pub open spec fn local_guard(s: CState, st: LocalStat) -> bool {
    &&& st.names@.len() <= u32::MAX as int
    &&& st.exprs@.len() <= u32::MAX as int
    &&& s.locals.len() + st.names@.len() <= u32::MAX as int
    &&& s.reg_top + max2(st.names@.len() as int, st.exprs@.len() as int) <= u32::MAX as int
    &&& s.consts.len() + st.exprs@.len() <= u32::MAX as int
}

/// What one local-declaration statement gives: every name bound to a
/// fresh register slot, every initializer materialized in order, surplus
/// names nil-filled, surplus values evaluated and then discarded.
pub open spec fn spec_local_stat(s: CState, st: LocalStat) -> Result<CState, Seq<char>> {
    if !local_guard(s, st) {
        Err("function too complex"@)
    } else {
        let s1 = CState { locals: s.locals + lview(st.names@), ..s };
        match spec_save_list(s1, st.exprs@, 0) {
            Err(m) => Err(m),
            Ok(s2) => {
                let n = st.names@.len() as int;
                let m = st.exprs@.len() as int;
                let s3 = spec_adjust(s2, n, m);
                if n < m {
                    Ok(CState { reg_top: s3.reg_top - (m - n), ..s3 })
                } else {
                    Ok(s3)
                }
            },
        }
    }
}

/// The statement is small enough for 32-bit register and pool slots.
pub open spec fn assign_guard(s: CState, st: AssignStat) -> bool {
    &&& st.left@.len() <= u32::MAX as int
    &&& st.right@.len() <= u32::MAX as int
    &&& s.locals.len() <= u32::MAX as int
    &&& s.reg_top + max2(st.left@.len() as int, st.right@.len() as int) <= u32::MAX as int
    &&& s.consts.len() + st.right@.len() <= u32::MAX as int
}

/// The right-hand pass of a multi-target assignment, from position `i`
/// on: every value except a direct-written last one (used only when the
/// counts match) goes into a fresh temporary register, and a deferred
/// `(target, temporary)` move is recorded whenever a target exists at
/// that position.
pub open spec fn spec_assign_rhs(
    s: CState,
    left: Seq<Assignable>,
    right: Seq<Expr>,
    i: int,
    moves: Seq<(u32, u32)>,
) -> Result<(CState, Seq<(u32, u32)>), Seq<char>>
    decreases right.len() - i,
{
    if i < 0 || i >= right.len() {
        Ok((s, moves))
    } else if i + 1 != right.len() || left.len() != right.len() {
        let reg = s.reg_top as u32;
        let s1 = CState { reg_top: s.reg_top + 1, ..s };
        match spec_expr_save(s1, right[i], reg) {
            Err(m) => Err(m),
            Ok(s2) => if i < left.len() {
                match spec_target(s2, left[i]) {
                    Err(m) => Err(m),
                    Ok(t) => spec_assign_rhs(s2, left, right, i + 1, moves.push((t, reg))),
                }
            } else {
                spec_assign_rhs(s2, left, right, i + 1, moves)
            },
        }
    } else {
        match spec_target(s, left[i]) {
            Err(m) => Err(m),
            Ok(t) => match spec_expr_save(s, right[i], t) {
                Err(m) => Err(m),
                Ok(s2) => spec_assign_rhs(s2, left, right, i + 1, moves),
            },
        }
    }
}

/// How many temporaries the right-hand pass reserves from position `i`
/// on, for `n` targets and `m` values.
pub open spec fn temps_from(n: int, m: int, i: int) -> int {
    if i >= m {
        0
    } else if n == m {
        m - 1 - i
    } else {
        m - i
    }
}

/// How many deferred moves the right-hand pass records from position `i`
/// on, for `n` targets and `m` values.
pub open spec fn moves_from(n: int, m: int, i: int) -> int {
    if i >= m {
        0
    } else if n == m {
        m - 1 - i
    } else if n < m {
        if i < n {
            n - i
        } else {
            0
        }
    } else {
        m - i
    }
}

/// The right-hand pass reserves exactly its temporaries, records exactly
/// its moves, and touches neither locals nor scopes.
pub proof fn lemma_assign_rhs_frame(
    s: CState,
    left: Seq<Assignable>,
    right: Seq<Expr>,
    i: int,
    moves: Seq<(u32, u32)>,
)
    requires
        0 <= i <= right.len(),
    ensures
        spec_assign_rhs(s, left, right, i, moves) matches Ok(p) ==> {
            &&& p.0.locals == s.locals
            &&& p.0.scopes == s.scopes
            &&& p.0.reg_top == s.reg_top + temps_from(left.len() as int, right.len() as int, i)
            &&& p.1.len() == moves.len() + moves_from(left.len() as int, right.len() as int, i)
            &&& p.0.consts.len() <= s.consts.len() + (right.len() - i)
        },
    decreases right.len() - i,
{
    let n = left.len() as int;
    let m = right.len() as int;
    if i < m {
        if i + 1 != m || n != m {
            let reg = s.reg_top as u32;
            let s1 = CState { reg_top: s.reg_top + 1, ..s };
            lemma_expr_save_frame(s1, right[i], reg);
            match spec_expr_save(s1, right[i], reg) {
                Err(_) => {},
                Ok(s2) => {
                    if i < n {
                        match spec_target(s2, left[i]) {
                            Err(_) => {},
                            Ok(t) => {
                                lemma_assign_rhs_frame(s2, left, right, i + 1, moves.push((t, reg)));
                            },
                        }
                    } else {
                        lemma_assign_rhs_frame(s2, left, right, i + 1, moves);
                    }
                },
            }
        } else {
            match spec_target(s, left[i]) {
                Err(_) => {},
                Ok(t) => {
                    lemma_expr_save_frame(s, right[i], t);
                    match spec_expr_save(s, right[i], t) {
                        Err(_) => {},
                        Ok(s2) => {
                            lemma_assign_rhs_frame(s2, left, right, i + 1, moves);
                        },
                    }
                },
            }
        }
    }
}

/// The deferred moves for nil-filled surplus targets: target `j` of the
/// last `extra` targets is moved from the `j`-th nil-filled register.
/// Only lookups happen; the state does not change.
pub open spec fn spec_extra_moves(
    s: CState,
    left: Seq<Assignable>,
    reg: int,
    j: int,
    extra: int,
    moves: Seq<(u32, u32)>,
) -> Result<Seq<(u32, u32)>, Seq<char>>
    decreases extra - j,
{
    if j < 0 || j >= extra {
        Ok(moves)
    } else {
        match spec_target(s, left[left.len() - extra + j]) {
            Err(m) => Err(m),
            Ok(t) => spec_extra_moves(s, left, reg, j + 1, extra, moves.push((t, (reg + j) as u32))),
        }
    }
}

/// The surplus-target pass records exactly one move per surplus target.
pub proof fn lemma_extra_moves_len(
    s: CState,
    left: Seq<Assignable>,
    reg: int,
    j: int,
    extra: int,
    moves: Seq<(u32, u32)>,
)
    requires
        0 <= j <= extra,
    ensures
        spec_extra_moves(s, left, reg, j, extra, moves) matches Ok(m2) ==> m2.len() == moves.len()
            + (extra - j),
    decreases extra - j,
{
    if j < extra {
        match spec_target(s, left[left.len() - extra + j]) {
            Err(_) => {},
            Ok(t) => {
                lemma_extra_moves_len(s, left, reg, j + 1, extra, moves.push((t, (reg + j) as u32)));
            },
        }
    }
}

/// Applying the deferred moves, most recently recorded first: each move
/// emits one instruction and releases the one temporary register it
/// drained.
pub open spec fn apply_moves(s: CState, moves: Seq<(u32, u32)>) -> CState
    decreases moves.len(),
{
    if moves.len() == 0 {
        s
    } else {
        let p = moves.last();
        apply_moves(
            CState {
                code: s.code.push(Instruction::Move { dst: p.0, src: p.1 }),
                reg_top: s.reg_top - 1,
                ..s
            },
            moves.drop_last(),
        )
    }
}

/// Applying moves releases exactly one register per move and touches
/// nothing but the code stream and the register top.
pub proof fn lemma_apply_moves_frame(s: CState, moves: Seq<(u32, u32)>)
    ensures
        apply_moves(s, moves).locals == s.locals,
        apply_moves(s, moves).scopes == s.scopes,
        apply_moves(s, moves).consts == s.consts,
        apply_moves(s, moves).reg_top == s.reg_top - moves.len(),
    decreases moves.len(),
{
    if moves.len() > 0 {
        let p = moves.last();
        lemma_apply_moves_frame(
            CState {
                code: s.code.push(Instruction::Move { dst: p.0, src: p.1 }),
                reg_top: s.reg_top - 1,
                ..s
            },
            moves.drop_last(),
        );
    }
}

/// What one multi-target assignment gives: all right-hand values
/// evaluated in order (the last one written directly when the counts
/// match), surplus targets nil-filled, the deferred moves applied in
/// reverse order of recording, and surplus values' registers released.
pub open spec fn spec_assign_stat(s: CState, st: AssignStat) -> Result<CState, Seq<char>> {
    if !assign_guard(s, st) {
        Err("function too complex"@)
    } else {
        let n = st.left@.len() as int;
        let m = st.right@.len() as int;
        match spec_assign_rhs(s, st.left@, st.right@, 0, Seq::empty()) {
            Err(ms) => Err(ms),
            Ok(p) => {
                let reg = p.0.reg_top;
                let s3 = spec_adjust(p.0, n, m);
                match spec_extra_moves(s3, st.left@, reg, 0, n - m, p.1) {
                    Err(ms) => Err(ms),
                    Ok(moves2) => {
                        let s4 = apply_moves(s3, moves2);
                        if n < m {
                            Ok(CState { reg_top: s4.reg_top - (m - n), ..s4 })
                        } else {
                            Ok(s4)
                        }
                    },
                }
            },
        }
    }
}

/// What one statement gives.
pub open spec fn step_stat(s: CState, st: Stat) -> Result<CState, Seq<char>> {
    match st {
        Stat::LocalStat(ls) => spec_local_stat(s, ls),
        Stat::AssignStat(a) => spec_assign_stat(s, a),
    }
}

/// What the statements `stats[i..]` give, run in order, stopping at the
/// first error.
pub open spec fn run_stats(s: CState, stats: Seq<Stat>, i: int) -> Result<CState, Seq<char>>
    decreases stats.len() - i,
{
    if i < 0 || i >= stats.len() {
        Ok(s)
    } else {
        match step_stat(s, stats[i]) {
            Err(m) => Err(m),
            Ok(s2) => run_stats(s2, stats, i + 1),
        }
    }
}

/// No statement opens or closes a scope.
pub proof fn lemma_step_scopes(s: CState, st: Stat)
    ensures
        step_stat(s, st) matches Ok(s2) ==> s2.scopes == s.scopes,
{
    match st {
        Stat::LocalStat(ls) => {
            if local_guard(s, ls) {
                let s1 = CState { locals: s.locals + lview(ls.names@), ..s };
                lemma_save_list_frame(s1, ls.exprs@, 0);
            }
        },
        Stat::AssignStat(a) => {
            if assign_guard(s, a) {
                match spec_assign_rhs(s, a.left@, a.right@, 0, Seq::empty()) {
                    Err(_) => {},
                    Ok(p) => {
                        lemma_assign_rhs_frame(s, a.left@, a.right@, 0, Seq::empty());
                        let n = a.left@.len() as int;
                        let m = a.right@.len() as int;
                        let s3 = spec_adjust(p.0, n, m);
                        match spec_extra_moves(s3, a.left@, p.0.reg_top, 0, n - m, p.1) {
                            Err(_) => {},
                            Ok(moves2) => {
                                lemma_apply_moves_frame(s3, moves2);
                            },
                        }
                    },
                }
            }
        },
    }
}

/// Statements never open or close scopes, so a whole walk keeps them.
pub proof fn lemma_run_scopes(s: CState, stats: Seq<Stat>, i: int)
    requires
        0 <= i <= stats.len(),
    ensures
        run_stats(s, stats, i) matches Ok(s2) ==> s2.scopes == s.scopes,
    decreases stats.len() - i,
{
    if i < stats.len() {
        lemma_step_scopes(s, stats[i]);
        match step_stat(s, stats[i]) {
            Err(_) => {},
            Ok(s2) => {
                lemma_run_scopes(s2, stats, i + 1);
            },
        }
    }
}

/// The register-balance law: a statement that compiles leaves the
/// register stack balanced. An assignment statement releases every
/// register it reserved, restoring the register top it started with; a
/// local declaration raises the top by exactly the number of names it
/// binds — the registers that now hold those locals — and nothing else.
pub proof fn lemma_register_balance(s: CState, st: Stat)
    ensures
        step_stat(s, st) matches Ok(s2) ==> match st {
            Stat::LocalStat(ls) => s2.reg_top == s.reg_top + ls.names@.len(),
            Stat::AssignStat(a) => s2.reg_top == s.reg_top,
        },
{
    match st {
        Stat::LocalStat(ls) => {
            if local_guard(s, ls) {
                let s1 = CState { locals: s.locals + lview(ls.names@), ..s };
                lemma_save_list_frame(s1, ls.exprs@, 0);
            }
        },
        Stat::AssignStat(a) => {
            if assign_guard(s, a) {
                match spec_assign_rhs(s, a.left@, a.right@, 0, Seq::empty()) {
                    Err(_) => {},
                    Ok(p) => {
                        lemma_assign_rhs_frame(s, a.left@, a.right@, 0, Seq::empty());
                        let n = a.left@.len() as int;
                        let m = a.right@.len() as int;
                        let s3 = spec_adjust(p.0, n, m);
                        match spec_extra_moves(s3, a.left@, p.0.reg_top, 0, n - m, p.1) {
                            Err(_) => {},
                            Ok(moves2) => {
                                if n - m > 0 {
                                    lemma_extra_moves_len(s3, a.left@, p.0.reg_top, 0, n - m, p.1);
                                }
                                lemma_apply_moves_frame(s3, moves2);
                            },
                        }
                    },
                }
            }
        },
    }
}

/// The register file after one move instruction: the destination slot
/// takes the source slot's value.
pub open spec fn regs_after_move<V>(regs: Map<u32, V>, dst: u32, src: u32) -> Map<u32, V> {
    if regs.dom().contains(src) {
        regs.insert(dst, regs[src])
    } else {
        regs
    }
}

/// The swap law, scheduling half: assigning `a, b = b, a` for two bound
/// locals compiles — whatever registers `ra` and `rb` the two names
/// occupy — to exactly three moves: `b` is drained into a fresh
/// temporary above every live register, only then is `b` overwritten
/// with `a`, and the temporary lands in `a`. The register top is
/// restored and nothing reaches the constant pool.
pub proof fn lemma_swap_schedule(
    s: CState,
    st: AssignStat,
    na: Seq<char>,
    nb: Seq<char>,
    ra: u32,
    rb: u32,
)
    requires
        st.left@.len() == 2,
        st.right@.len() == 2,
        st.left@[0] matches Assignable::Name(x) && x@ == na,
        st.left@[1] matches Assignable::Name(x) && x@ == nb,
        st.right@[0] matches Expr::Name(x) && x@ == nb,
        st.right@[1] matches Expr::Name(x) && x@ == na,
        lookup_local(s.locals, na) == Some(ra as int),
        lookup_local(s.locals, nb) == Some(rb as int),
        s.locals.len() <= u32::MAX as int,
        s.reg_top + 2 <= u32::MAX as int,
        s.consts.len() + 2 <= u32::MAX as int,
    ensures
        spec_assign_stat(s, st) matches Ok(s2) && s2 == (CState {
            code: s.code + seq![
                Instruction::Move { dst: (s.reg_top as u32), src: rb },
                Instruction::Move { dst: rb, src: ra },
                Instruction::Move { dst: ra, src: (s.reg_top as u32) },
            ],
            ..s
        }),
{
    let left = st.left@;
    let right = st.right@;
    let t = s.reg_top as u32;
    let s1 = CState { reg_top: s.reg_top + 1, ..s };
    let s2 = CState { code: s1.code.push(Instruction::Move { dst: t, src: rb }), ..s1 };
    assert(spec_expr(s1, right[0]) == Result::<(CState, Index), Seq<char>>::Ok(
        (s1, Index::RegIndex(rb)),
    ));
    assert(spec_expr_save(s1, right[0], t) == Result::<CState, Seq<char>>::Ok(s2));
    assert(spec_target(s2, left[0]) == Result::<u32, Seq<char>>::Ok(ra));
    let s3 = CState { code: s2.code.push(Instruction::Move { dst: rb, src: ra }), ..s2 };
    assert(spec_expr(s2, right[1]) == Result::<(CState, Index), Seq<char>>::Ok(
        (s2, Index::RegIndex(ra)),
    ));
    assert(spec_expr_save(s2, right[1], rb) == Result::<CState, Seq<char>>::Ok(s3));
    assert(spec_target(s2, left[1]) == Result::<u32, Seq<char>>::Ok(rb));
    let mv: Seq<(u32, u32)> = Seq::empty().push((ra, t));
    assert(spec_assign_rhs(s3, left, right, 2, mv) == Result::<
        (CState, Seq<(u32, u32)>),
        Seq<char>,
    >::Ok((s3, mv)));
    assert(spec_assign_rhs(s2, left, right, 1, mv) == Result::<
        (CState, Seq<(u32, u32)>),
        Seq<char>,
    >::Ok((s3, mv)));
    assert(spec_assign_rhs(s, left, right, 0, Seq::empty()) == Result::<
        (CState, Seq<(u32, u32)>),
        Seq<char>,
    >::Ok((s3, mv)));
    assert(spec_adjust(s3, 2, 2) == s3);
    assert(spec_extra_moves(s3, left, s3.reg_top, 0, 0, mv) == Result::<
        Seq<(u32, u32)>,
        Seq<char>,
    >::Ok(mv));
    let s4 = CState {
        code: s3.code.push(Instruction::Move { dst: ra, src: t }),
        reg_top: s3.reg_top - 1,
        ..s3
    };
    assert(mv.drop_last() =~= Seq::<(u32, u32)>::empty());
    assert(apply_moves(s4, Seq::<(u32, u32)>::empty()) == s4);
    assert(apply_moves(s3, mv) == s4);
    assert(spec_assign_stat(s, st) == Result::<CState, Seq<char>>::Ok(s4));
    assert(s4 =~= (CState {
        code: s.code + seq![
            Instruction::Move { dst: t, src: rb },
            Instruction::Move { dst: rb, src: ra },
            Instruction::Move { dst: ra, src: t },
        ],
        ..s
    }));
}

/// The swap law, semantic half: running the three scheduled moves on any
/// register file in which the temporary slot differs from both live
/// slots leaves the two locals' registers with each other's values — the
/// source of the pending move is never freed before it is drained.
pub proof fn lemma_swap_semantics<V>(regs: Map<u32, V>, ra: u32, rb: u32, t: u32)
    requires
        ra != rb,
        t != ra,
        t != rb,
        regs.dom().contains(ra),
        regs.dom().contains(rb),
    ensures
        ({
            let r1 = regs_after_move(regs, t, rb);
            let r2 = regs_after_move(r1, rb, ra);
            let r3 = regs_after_move(r2, ra, t);
            &&& r3[ra] == regs[rb]
            &&& r3[rb] == regs[ra]
        }),
{
}

/// The state a fresh top-level function context starts in: everything
/// empty, one open scope.
pub open spec fn init_state() -> CState {
    CState {
        consts: Seq::<ConstV>::empty(),
        code: Seq::<Instruction>::empty(),
        locals: Seq::<Seq<char>>::empty(),
        scopes: seq![0usize],
        reg_top: 0,
    }
}

/// Closing the top-level scope: its locals are discarded from the scope
/// table, the scope popped.
pub open spec fn close_state(s: CState) -> CState {
    CState { locals: s.locals.take(s.scopes.last() as int), scopes: s.scopes.drop_last(), ..s }
}

/// What compiling one block gives: the final state of the top-level
/// function context, or the message of the first error.
pub open spec fn spec_run(block: Block) -> Result<CState, Seq<char>> {
    match run_stats(init_state(), block.stats@, 0) {
        Err(m) => Err(m),
        Ok(s) => Ok(close_state(s)),
    }
}

/// The compiler: a debug flag and the stack of per-function compile
/// contexts, the innermost last. The stack's depth always equals the
/// function-nesting depth of the walk.
pub struct Compiler {
    debug: bool,
    proto_contexts: Vec<ProtoContext>,
}

impl Compiler {
    /// How many function contexts are open.
    pub closed spec fn context_depth(&self) -> int {
        self.proto_contexts@.len() as int
    }

    /// Whether diagnostic tracing was requested.
    pub closed spec fn debug_flag(&self) -> bool {
        self.debug
    }

    /// A fresh compiler: no context open, tracing off.
    pub fn new() -> (r: Compiler)
        ensures
            r.context_depth() == 0,
            !r.debug_flag(),
    {
        Compiler { debug: false, proto_contexts: Vec::new() }
    }

    /// Requests or silences diagnostic tracing.
    pub fn set_debug(&mut self, on: bool)
        ensures
            final(self).debug_flag() == on,
            final(self).context_depth() == old(self).context_depth(),
    {
        self.debug = on;
    }

    /// Opens a fresh function context on the stack.
    fn push_proto(&mut self)
        ensures
            final(self).proto_contexts@.len() == old(self).proto_contexts@.len() + 1,
            final(self).proto_contexts@.drop_last() == old(self).proto_contexts@,
            vctx(final(self).proto_contexts@.last()) == (CState {
                consts: Seq::<ConstV>::empty(),
                code: Seq::<Instruction>::empty(),
                locals: Seq::<Seq<char>>::empty(),
                scopes: Seq::<usize>::empty(),
                reg_top: 0,
            }),
            final(self).debug == old(self).debug,
    {
        self.proto_contexts.push(ProtoContext::new());
        proof {
            assert(final(self).proto_contexts@.drop_last() =~= old(self).proto_contexts@);
            assert(vctx(final(self).proto_contexts@.last()) =~= (CState {
                consts: Seq::<ConstV>::empty(),
                code: Seq::<Instruction>::empty(),
                locals: Seq::<Seq<char>>::empty(),
                scopes: Seq::<usize>::empty(),
                reg_top: 0,
            }));
        }
    }

    /// Discards the innermost context and hands its prototype out.
    fn pop_proto(&mut self) -> (p: Proto)
        requires
            old(self).proto_contexts@.len() > 0,
        ensures
            final(self).proto_contexts@ == old(self).proto_contexts@.drop_last(),
            p == old(self).proto_contexts@.last().proto,
            final(self).debug == old(self).debug,
    {
        match self.proto_contexts.pop() {
            Some(context) => context.proto,
            None => Proto::new(),
        }
    }

    /// The innermost compile context.
    fn context(&mut self) -> (r: &mut ProtoContext)
        requires
            old(self).proto_contexts@.len() > 0,
        ensures
            *r == old(self).proto_contexts@.last(),
            final(self).proto_contexts@ == old(self).proto_contexts@.update(
                old(self).proto_contexts@.len() - 1,
                *final(r),
            ),
            final(self).debug == old(self).debug,
    {
        let i = self.proto_contexts.len() - 1;
        &mut self.proto_contexts[i]
    }

    /// The innermost in-progress prototype.
    fn proto(&mut self) -> (r: &mut Proto)
        requires
            old(self).proto_contexts@.len() > 0,
        ensures
            *r == old(self).proto_contexts@.last().proto,
            final(self).proto_contexts@ == old(self).proto_contexts@.update(
                old(self).proto_contexts@.len() - 1,
                (ProtoContext {
                    proto: *final(r),
                    reg_top: old(self).proto_contexts@.last().reg_top,
                }),
            ),
            final(self).debug == old(self).debug,
    {
        let i = self.proto_contexts.len() - 1;
        &mut self.proto_contexts[i].proto
    }

    /// Tries to reduce a whole subtree to one constant. `Ok(Some(_))` is
    /// the folded value, `Ok(None)` means "not foldable, defer", and
    /// `Err(_)` is a hard compile-time arithmetic error.
    pub fn try_const_folding(e: &Expr) -> (r: Result<Option<Const>, CompileError>)
        ensures
            fold_matches(r, spec_fold(*e)),
        decreases *e,
    {
        match e {
            Expr::Int(i) => Ok(Some(Const::Int(*i))),
            Expr::Float(f) => Ok(Some(Const::Float(*f))),
            Expr::BinExpr(b) => {
                let l = Self::try_const_folding(&b.left)?;
                let r2 = Self::try_const_folding(&b.right)?;
                match (l, r2) {
                    (Some(lc), Some(rc)) => Self::apply_bin_op(b.op, lc, rc),
                    _ => Ok(None),
                }
            },
            Expr::ParenExpr(inner) => Self::try_const_folding(inner),
            _ => Ok(None),
        }
    }

    /// Applies one binary operator to two folded constants.
    pub fn apply_bin_op(op: BinOp, l: Const, r: Const) -> (res: Result<Option<Const>, CompileError>)
        ensures
            fold_matches(res, spec_apply_bin_op(op, cview(l), cview(r))),
    {
        match op {
            BinOp::Add => l.add(r),
            BinOp::Minus => l.sub(r),
            BinOp::Mul => l.mul(r),
            BinOp::Div => l.div(r),
            BinOp::IDiv => l.idiv(r),
            BinOp::Mod => l.rem(r),
            BinOp::Pow => l.pow(r),
            BinOp::BAnd => l.band(r),
            BinOp::BOr => l.bor(r),
            BinOp::BXor => l.bxor(r),
            BinOp::Shl => l.shl(r),
            BinOp::Shr => l.shr(r),
        }
    }

    /// Lowers one expression to a constant-pool slot, a register, or
    /// "not materialized yet". The state changes exactly as `spec_expr`
    /// says; on an error the context is untouched.
    fn expr(ctx: &mut ProtoContext, e: &Expr) -> (r: Result<Index, CompileError>)
        requires
            vctx(*old(ctx)).consts.len() < u32::MAX as int,
            vctx(*old(ctx)).locals.len() <= u32::MAX as int,
        ensures
            match spec_expr(vctx(*old(ctx)), *e) {
                Ok(p) => r matches Ok(i) && i == p.1 && vctx(*final(ctx)) == p.0,
                Err(m) => r matches Err(er) && er@ == m && *final(ctx) == *old(ctx),
            },
    {
        match e {
            Expr::Int(i) => {
                let k = ctx.proto.add_const(Const::Int(*i));
                proof {
                    assert(vctx(*ctx) =~= intern_state(vctx(*old(ctx)), ConstV::Int(*i)));
                }
                Ok(Index::ConstIndex(k))
            },
            Expr::Float(f) => {
                let k = ctx.proto.add_const(Const::Float(*f));
                proof {
                    assert(vctx(*ctx) =~= intern_state(vctx(*old(ctx)), ConstV::Float(*f)));
                }
                Ok(Index::ConstIndex(k))
            },
            Expr::Str(s) => {
                let k = ctx.proto.add_const(Const::Str(s.clone()));
                proof {
                    assert(vctx(*ctx) =~= intern_state(vctx(*old(ctx)), ConstV::Str(s@)));
                }
                Ok(Index::ConstIndex(k))
            },
            Expr::Nil => Ok(Index::Unmaterialized),
            Expr::True => Ok(Index::Unmaterialized),
            Expr::False => Ok(Index::Unmaterialized),
            Expr::Name(name) => match ctx.proto.get_local_var(name) {
                Some(src) => Ok(Index::RegIndex(src)),
                None => Err(CompileError::new("unsupported construct: name is not a bound local")),
            },
            Expr::BinExpr(_) => Self::compile_expr(ctx, e),
            Expr::ParenExpr(_) => Err(
                CompileError::new("unsupported construct: runtime expression code generation"),
            ),
        }
    }

    /// Compiles a binary expression: folds it to a constant and interns
    /// the result; an unfoldable expression is an explicit
    /// unsupported-construct error, since runtime code generation is
    /// outside this core.
    fn compile_expr(ctx: &mut ProtoContext, e: &Expr) -> (r: Result<Index, CompileError>)
        requires
            vctx(*old(ctx)).consts.len() < u32::MAX as int,
        ensures
            match spec_compile_expr(vctx(*old(ctx)), *e) {
                Ok(p) => r matches Ok(i) && i == p.1 && vctx(*final(ctx)) == p.0,
                Err(m) => r matches Err(er) && er@ == m && *final(ctx) == *old(ctx),
            },
    {
        match Self::try_const_folding(e) {
            Err(er) => Err(er),
            Ok(None) => Err(
                CompileError::new("unsupported construct: runtime expression code generation"),
            ),
            Ok(Some(k)) => {
                let ghost kv = cview(k);
                let slot = ctx.proto.add_const(k);
                proof {
                    assert(vctx(*ctx) =~= intern_state(vctx(*old(ctx)), kv));
                }
                Ok(Index::ConstIndex(slot))
            },
        }
    }

    /// Materializes one expression's value into the given register,
    /// emitting exactly one instruction.
    fn expr_and_save(ctx: &mut ProtoContext, e: &Expr, reg: u32) -> (r: Result<(), CompileError>)
        requires
            vctx(*old(ctx)).consts.len() < u32::MAX as int,
            vctx(*old(ctx)).locals.len() <= u32::MAX as int,
        ensures
            match spec_expr_save(vctx(*old(ctx)), *e, reg) {
                Ok(s2) => r matches Ok(u) && vctx(*final(ctx)) == s2,
                Err(m) => r matches Err(er) && er@ == m && *final(ctx) == *old(ctx),
            },
    {
        let index = Self::expr(ctx, e)?;
        match index {
            Index::ConstIndex(k) => {
                ctx.proto.code_const(reg, k);
                proof {
                    assert(spec_expr_save(vctx(*old(ctx)), *e, reg) matches Ok(s2) && vctx(*ctx)
                        =~= s2);
                }
            },
            Index::RegIndex(src) => {
                ctx.proto.code_move(reg, src);
                proof {
                    assert(spec_expr_save(vctx(*old(ctx)), *e, reg) matches Ok(s2) && vctx(*ctx)
                        =~= s2);
                }
            },
            Index::Unmaterialized => match e {
                Expr::Nil => {
                    ctx.proto.code_nil(reg, 1);
                    proof {
                        assert(spec_expr_save(vctx(*old(ctx)), *e, reg) matches Ok(s2) && vctx(*ctx)
                            =~= s2);
                    }
                },
                Expr::True => {
                    ctx.proto.code_bool(reg, true);
                    proof {
                        assert(spec_expr_save(vctx(*old(ctx)), *e, reg) matches Ok(s2) && vctx(*ctx)
                            =~= s2);
                    }
                },
                Expr::False => {
                    ctx.proto.code_bool(reg, false);
                    proof {
                        assert(spec_expr_save(vctx(*old(ctx)), *e, reg) matches Ok(s2) && vctx(*ctx)
                            =~= s2);
                    }
                },
                _ => {
                    return Err(
                        CompileError::new(
                            "unsupported construct: runtime expression code generation",
                        ),
                    );
                },
            },
        }
        Ok(())
    }

    /// Balances target and value counts: reserves and nil-fills the
    /// registers of surplus targets, and reports the (possibly negative)
    /// surplus.
    fn adjust_assign(ctx: &mut ProtoContext, num_left: usize, num_exprs: usize) -> (extra: i64)
        requires
            num_left <= u32::MAX as usize,
            num_exprs <= u32::MAX as usize,
            num_left > num_exprs ==> vctx(*old(ctx)).reg_top + (num_left - num_exprs)
                <= u32::MAX as int,
        ensures
            extra == num_left - num_exprs,
            vctx(*final(ctx)) == spec_adjust(vctx(*old(ctx)), num_left as int, num_exprs as int),
    {
        let extra: i64 = num_left as i64 - num_exprs as i64;
        if extra > 0 {
            let from = ctx.get_reg_top();
            let _ = ctx.reserve_regs(extra as u32);
            ctx.proto.code_nil(from, extra as u32);
            proof {
                assert(vctx(*ctx) =~= spec_adjust(
                    vctx(*old(ctx)),
                    num_left as int,
                    num_exprs as int,
                ));
            }
        } else {
            proof {
                assert(vctx(*ctx) =~= spec_adjust(
                    vctx(*old(ctx)),
                    num_left as int,
                    num_exprs as int,
                ));
            }
        }
        extra
    }

    /// The register slot an assignment target names; a target that is not
    /// a bound local is an explicit unsupported-construct error.
    fn get_assinable_reg(ctx: &ProtoContext, assignable: &Assignable) -> (r: Result<
        u32,
        CompileError,
    >)
        requires
            vctx(*ctx).locals.len() <= u32::MAX as int,
        ensures
            match spec_target(vctx(*ctx), *assignable) {
                Ok(t) => r matches Ok(x) && x == t,
                Err(m) => r matches Err(e) && e@ == m,
            },
    {
        match assignable {
            Assignable::Name(name) => match ctx.proto.get_local_var(name) {
                Some(reg) => Ok(reg),
                None => Err(
                    CompileError::new("unsupported construct: assignment target is not a local"),
                ),
            },
        }
    }

    /// Compiles one local-declaration statement: binds every name to a
    /// fresh register slot, materializes every initializer in order,
    /// nil-fills surplus names, and releases the registers of surplus
    /// values after evaluating them.
    #[verifier::loop_isolation(false)]
    fn local_stat(ctx: &mut ProtoContext, stat: &LocalStat) -> (r: Result<(), CompileError>)
        ensures
            match spec_local_stat(vctx(*old(ctx)), *stat) {
                Ok(s2) => r matches Ok(u) && vctx(*final(ctx)) == s2,
                Err(m) => r matches Err(e) && e@ == m,
            },
    {
        let n = stat.names.len();
        let m = stat.exprs.len();
        let mx = if n >= m {
            n
        } else {
            m
        };
        let top = ctx.get_reg_top() as usize;
        let lc = ctx.proto.locals.len();
        let cc = ctx.proto.consts.len();
        let lim = u32::MAX as usize;
        if n > lim || m > lim || lc > lim - n || top > lim - mx || cc > lim - m {
            proof {
                assert(!local_guard(vctx(*old(ctx)), *stat));
            }
            return Err(CompileError::new("function too complex"));
        }
        proof {
            assert(local_guard(vctx(*old(ctx)), *stat));
        }
        let ghost s0 = vctx(*old(ctx));
        let ghost s1 = CState { locals: s0.locals + lview(stat.names@), ..s0 };

        let mut i: usize = 0;
        proof {
            assert(s0.locals + lview(stat.names@.take(0)) =~= s0.locals);
            assert(vctx(*ctx) =~= (CState {
                locals: s0.locals + lview(stat.names@.take(0)),
                ..s0
            }));
        }
        while i < n
            invariant
                i <= n,
                vctx(*ctx) == (CState { locals: s0.locals + lview(stat.names@.take(i as int)), ..s0 }),
            decreases n - i,
        {
            proof {
                assert(lview(stat.names@.take(i as int)).len() == i as int);
                assert(ctx.proto.locals@.len() == lview(ctx.proto.locals@).len());
                assert(ctx.proto.locals@.len() == s0.locals.len() + i);
                assert(s0.locals.len() + n <= u32::MAX as int);
            }
            let _ = ctx.proto.add_local_var(&stat.names[i]);
            proof {
                assert(lview(stat.names@.take(i + 1 as int)) =~= lview(
                    stat.names@.take(i as int),
                ).push(stat.names@[i as int]@));
                assert(s0.locals + lview(stat.names@.take(i + 1 as int)) =~= (s0.locals + lview(
                    stat.names@.take(i as int),
                )).push(stat.names@[i as int]@));
                assert(vctx(*ctx) =~= (CState {
                    locals: s0.locals + lview(stat.names@.take(i + 1 as int)),
                    ..s0
                }));
            }
            i += 1;
        }
        proof {
            assert(stat.names@.take(n as int) =~= stat.names@);
            assert(vctx(*ctx) =~= s1);
        }

        let mut j: usize = 0;
        while j < m
            invariant
                j <= m,
                spec_save_list(s1, stat.exprs@, 0) == spec_save_list(vctx(*ctx), stat.exprs@, j as int),
                vctx(*ctx).locals == s1.locals,
                vctx(*ctx).scopes == s1.scopes,
                vctx(*ctx).reg_top == s1.reg_top + j,
                vctx(*ctx).consts.len() <= s1.consts.len() + j,
            decreases m - j,
        {
            let ghost s_head = vctx(*ctx);
            let reg = ctx.reserve_regs(1);
            let ghost s_res = vctx(*ctx);
            proof {
                assert(s_res =~= (CState { reg_top: s_head.reg_top + 1, ..s_head }));
            }
            match Self::expr_and_save(ctx, &stat.exprs[j], reg) {
                Ok(u) => {},
                Err(e) => {
                    return Err(e);
                },
            }
            proof {
                lemma_expr_save_frame(s_res, stat.exprs@[j as int], reg);
            }
            j += 1;
        }

        let extra = Self::adjust_assign(ctx, n, m);
        if extra < 0 {
            ctx.free_reg((-extra) as u32);
        }
        proof {
            match spec_local_stat(s0, *stat) {
                Ok(s2) => {
                    assert(vctx(*ctx) =~= s2);
                },
                Err(_) => {
                    assert(false);
                },
            }
        }
        Ok(())
    }

    /// Compiles one multi-target assignment statement: evaluates every
    /// right-hand value (into a temporary unless it is the last of a
    /// count-matched pair, which is written directly), nil-fills surplus
    /// targets, applies the deferred moves most recently recorded first —
    /// so aliasing sources are drained before their registers are freed —
    /// and releases surplus values' registers.
    #[verifier::loop_isolation(false)]
    fn assign_stat(ctx: &mut ProtoContext, stat: &AssignStat) -> (r: Result<(), CompileError>)
        ensures
            match spec_assign_stat(vctx(*old(ctx)), *stat) {
                Ok(s2) => r matches Ok(u) && vctx(*final(ctx)) == s2,
                Err(m) => r matches Err(e) && e@ == m,
            },
    {
        let n = stat.left.len();
        let m = stat.right.len();
        let mx = if n >= m {
            n
        } else {
            m
        };
        let top = ctx.get_reg_top() as usize;
        let lc = ctx.proto.locals.len();
        let cc = ctx.proto.consts.len();
        let lim = u32::MAX as usize;
        if n > lim || m > lim || lc > lim || top > lim - mx || cc > lim - m {
            proof {
                assert(!assign_guard(vctx(*old(ctx)), *stat));
            }
            return Err(CompileError::new("function too complex"));
        }
        proof {
            assert(assign_guard(vctx(*old(ctx)), *stat));
        }
        let ghost s0 = vctx(*old(ctx));
        let ghost nn = n as int;
        let ghost mm = m as int;

        let mut to_move: Vec<(u32, u32)> = Vec::new();
        let mut i: usize = 0;
        while i < m
            invariant
                i <= m,
                spec_assign_rhs(s0, stat.left@, stat.right@, 0, Seq::empty())
                    == spec_assign_rhs(vctx(*ctx), stat.left@, stat.right@, i as int, to_move@),
                vctx(*ctx).locals == s0.locals,
                vctx(*ctx).scopes == s0.scopes,
                vctx(*ctx).reg_top == s0.reg_top + (temps_from(nn, mm, 0) - temps_from(nn, mm, i as int)),
                vctx(*ctx).consts.len() <= s0.consts.len() + i,
                to_move@.len() == moves_from(nn, mm, 0) - moves_from(nn, mm, i as int),
            decreases m - i,
        {
            let e = &stat.right[i];
            if i + 1 != m || n != m {
                let ghost s_head = vctx(*ctx);
                let reg = ctx.reserve_regs(1);
                proof {
                    assert(vctx(*ctx) =~= (CState { reg_top: s_head.reg_top + 1, ..s_head }));
                }
                match Self::expr_and_save(ctx, e, reg) {
                    Ok(u) => {},
                    Err(er) => {
                        return Err(er);
                    },
                }
                proof {
                    lemma_expr_save_frame(
                        CState { reg_top: s_head.reg_top + 1, ..s_head },
                        stat.right@[i as int],
                        reg,
                    );
                }
                if i < n {
                    let target = match Self::get_assinable_reg(ctx, &stat.left[i]) {
                        Ok(t) => t,
                        Err(er) => {
                            return Err(er);
                        },
                    };
                    to_move.push((target, reg));
                }
            } else {
                let reg = match Self::get_assinable_reg(ctx, &stat.left[i]) {
                    Ok(t) => t,
                    Err(er) => {
                        return Err(er);
                    },
                };
                let ghost s_head = vctx(*ctx);
                match Self::expr_and_save(ctx, e, reg) {
                    Ok(u) => {},
                    Err(er) => {
                        return Err(er);
                    },
                }
                proof {
                    lemma_expr_save_frame(s_head, stat.right@[i as int], reg);
                }
            }
            i += 1;
        }
        let ghost rhs = spec_assign_rhs(s0, stat.left@, stat.right@, 0, Seq::empty());
        proof {
            assert(rhs == Result::<(CState, Seq<(u32, u32)>), Seq<char>>::Ok((vctx(*ctx), to_move@)));
        }

        let reg = ctx.get_reg_top();
        let ghost s2 = vctx(*ctx);
        let extra = Self::adjust_assign(ctx, n, m);
        let ghost s3 = vctx(*ctx);
        let ghost rhs_moves = to_move@;

        if extra > 0 {
            let extra_us = extra as usize;
            let left_start = n - extra_us;
            let mut j: usize = 0;
            while j < extra_us
                invariant
                    j <= extra_us,
                    spec_extra_moves(s3, stat.left@, s2.reg_top, 0, extra as int, rhs_moves)
                        == spec_extra_moves(s3, stat.left@, s2.reg_top, j as int, extra as int, to_move@),
                    to_move@.len() == rhs_moves.len() + j,
                    vctx(*ctx) == s3,
                decreases extra_us - j,
            {
                let target = match Self::get_assinable_reg(ctx, &stat.left[left_start + j]) {
                    Ok(t) => t,
                    Err(er) => {
                        return Err(er);
                    },
                };
                let src = reg + j as u32;
                to_move.push((target, src));
                j += 1;
            }
        }
        proof {
            assert(spec_extra_moves(s3, stat.left@, s2.reg_top, 0, nn - mm, rhs_moves)
                == Result::<Seq<(u32, u32)>, Seq<char>>::Ok(to_move@));
            lemma_assign_rhs_frame(s0, stat.left@, stat.right@, 0, Seq::empty());
            if nn - mm > 0 {
                lemma_extra_moves_len(s3, stat.left@, s2.reg_top, 0, nn - mm, rhs_moves);
            }
            assert(to_move@.len() <= s3.reg_top - s0.reg_top);
        }

        let total = to_move.len();
        let ghost all_moves = to_move@;
        let mut idx: usize = total;
        proof {
            assert(all_moves.take(idx as int) =~= all_moves);
            lemma_apply_moves_frame(s3, all_moves);
        }
        while idx > 0
            invariant
                idx <= all_moves.len(),
                all_moves == to_move@,
                apply_moves(s3, all_moves) == apply_moves(vctx(*ctx), all_moves.take(idx as int)),
                vctx(*ctx).locals == s3.locals,
                vctx(*ctx).scopes == s3.scopes,
                vctx(*ctx).consts == s3.consts,
                vctx(*ctx).reg_top == s3.reg_top - (all_moves.len() - idx),
            decreases idx,
        {
            idx -= 1;
            let mv = to_move[idx];
            let ghost s_head = vctx(*ctx);
            ctx.proto.code_move(mv.0, mv.1);
            ctx.free_reg(1);
            proof {
                assert(all_moves.take(idx + 1 as int).last() == all_moves[idx as int]);
                assert(all_moves.take(idx + 1 as int).drop_last() =~= all_moves.take(idx as int));
                assert(vctx(*ctx) =~= (CState {
                    code: s_head.code.push(
                        Instruction::Move { dst: all_moves[idx as int].0, src: all_moves[idx as int].1 },
                    ),
                    reg_top: s_head.reg_top - 1,
                    ..s_head
                }));
            }
        }
        proof {
            assert(all_moves.take(0) =~= Seq::<(u32, u32)>::empty());
            assert(apply_moves(s3, all_moves) == vctx(*ctx));
        }

        if extra < 0 {
            ctx.free_reg((-extra) as u32);
        }
        proof {
            match spec_assign_stat(s0, *stat) {
                Ok(sf) => {
                    assert(vctx(*ctx) =~= sf);
                },
                Err(_) => {
                    assert(false);
                },
            }
        }
        Ok(())
    }

    /// Walks one statement block in order, stopping at the first error.
    #[verifier::loop_isolation(false)]
    fn walk_block(ctx: &mut ProtoContext, block: &Block) -> (r: Result<(), CompileError>)
        ensures
            match run_stats(vctx(*old(ctx)), block.stats@, 0) {
                Ok(s2) => r matches Ok(u) && vctx(*final(ctx)) == s2,
                Err(m) => r matches Err(e) && e@ == m,
            },
    {
        let ghost s0 = vctx(*ctx);
        let nstats = block.stats.len();
        let mut i: usize = 0;
        while i < nstats
            invariant
                i <= nstats,
                run_stats(s0, block.stats@, 0) == run_stats(vctx(*ctx), block.stats@, i as int),
            decreases nstats - i,
        {
            let res = match &block.stats[i] {
                Stat::LocalStat(ls) => Self::local_stat(ctx, ls),
                Stat::AssignStat(a) => Self::assign_stat(ctx, a),
            };
            match res {
                Ok(u) => {},
                Err(e) => {
                    return Err(e);
                },
            }
            i += 1;
        }
        Ok(())
    }

    /// Compiles one block as the top-level function body: opens a fresh
    /// context and scope, walks the block, closes them, and hands the
    /// finished prototype out — or discards everything at the first
    /// error.
    fn main_func(&mut self, block: &Block) -> (r: Result<Proto, CompileError>)
        ensures
            final(self).proto_contexts@ == old(self).proto_contexts@,
            final(self).debug == old(self).debug,
            match spec_run(*block) {
                Ok(s) => r matches Ok(p) && pool_view(p.consts@) == s.consts && p.code@ == s.code
                    && lview(p.locals@) == s.locals && p.scopes@ == s.scopes,
                Err(m) => r matches Err(e) && e@ == m,
            },
    {
        self.push_proto();
        let p = self.proto();
        p.open();
        let ctx = self.context();
        proof {
            assert(vctx(*ctx) =~= init_state());
        }
        let wres = Self::walk_block(ctx, block);
        match wres {
            Err(e) => {
                let _ = self.pop_proto();
                proof {
                    assert(final(self).proto_contexts@ =~= old(self).proto_contexts@);
                }
                Err(e)
            },
            Ok(u) => {
                proof {
                    lemma_run_scopes(init_state(), block.stats@, 0);
                }
                let p2 = self.proto();
                p2.close();
                let finished = self.pop_proto();
                proof {
                    assert(final(self).proto_contexts@ =~= old(self).proto_contexts@);
                    match spec_run(*block) {
                        Ok(s) => {
                            assert(pool_view(finished.consts@) == s.consts);
                            assert(lview(finished.locals@) =~= s.locals);
                            assert(finished.scopes@ =~= s.scopes);
                        },
                        Err(_) => {
                            assert(false);
                        },
                    }
                }
                Ok(finished)
            },
        }
    }

    /// Compiles one block into a finished prototype, or reports the first
    /// error. The context stack is exactly as deep afterwards as before:
    /// one context was opened and one closed.
    pub fn run(&mut self, block: &Block) -> (r: Result<Proto, CompileError>)
        ensures
            final(self).context_depth() == old(self).context_depth(),
            final(self).debug_flag() == old(self).debug_flag(),
            match spec_run(*block) {
                Ok(s) => r matches Ok(p) && pool_view(p.consts@) == s.consts && p.code@ == s.code
                    && lview(p.locals@) == s.locals && p.scopes@ == s.scopes,
                Err(m) => r matches Err(e) && e@ == m,
            },
    {
        self.main_func(block)
    }
}

} // verus!

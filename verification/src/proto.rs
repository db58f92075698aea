//! The in-progress bytecode function unit: deduplicated constant pool,
//! local-variable scope table, emitted instruction stream, and the LIFO
//! register stack of the surrounding compile context.

use vstd::prelude::*;
use crate::consts::Const;
use crate::consts::ConstV;
use crate::consts::cview;

verus! {

/// One emitted instruction. `dst`, `src` are register slots, `k` a
/// constant-pool slot.
#[derive(Debug, Clone, Copy, PartialEq, Eq, Structural)]
pub enum Instruction {
    LoadConst { dst: u32, k: u32 },
    Move { dst: u32, src: u32 },
    LoadNil { dst: u32, n: u32 },
    LoadBool { dst: u32, b: bool },
}

/// The constant pool at the value level.
pub open spec fn pool_view(s: Seq<Const>) -> Seq<ConstV> {
    s.map(|i: int, c: Const| cview(c))
}

/// The scope table at the value level: the name of each local slot.
pub open spec fn lview(s: Seq<String>) -> Seq<Seq<char>> {
    s.map(|i: int, nm: String| nm@)
}

/// The first pool slot holding the given value, if any.
pub open spec fn pool_find(pool: Seq<ConstV>, k: ConstV) -> Option<int>
    decreases pool.len(),
{
    if pool.len() == 0 {
        None
    } else if pool[0] == k {
        Some(0)
    } else {
        match pool_find(pool.drop_first(), k) {
            Some(i) => Some(i + 1),
            None => None,
        }
    }
}

/// The pool after interning a value: unchanged if the value is already
/// pooled, otherwise extended by one slot.
pub open spec fn intern_pool(pool: Seq<ConstV>, k: ConstV) -> Seq<ConstV> {
    if pool_find(pool, k) is Some {
        pool
    } else {
        pool.push(k)
    }
}

/// The slot interning a value returns: the existing slot if the value is
/// already pooled, otherwise the fresh one.
pub open spec fn intern_slot(pool: Seq<ConstV>, k: ConstV) -> int {
    match pool_find(pool, k) {
        Some(i) => i,
        None => pool.len() as int,
    }
}

/// What `pool_find` returns is the first matching slot: a match below it
/// is impossible, and a `None` means no slot matches at all.
pub proof fn lemma_pool_find_spec(pool: Seq<ConstV>, k: ConstV)
    ensures
        match pool_find(pool, k) {
            Some(i) => 0 <= i < pool.len() && pool[i] == k && (forall|j: int|
                0 <= j < i ==> pool[j] != k),
            None => forall|j: int| 0 <= j < pool.len() ==> pool[j] != k,
        },
    decreases pool.len(),
{
    if pool.len() > 0 && pool[0] != k {
        lemma_pool_find_spec(pool.drop_first(), k);
        assert forall|j: int| 1 <= j < pool.len() implies pool[j] == pool.drop_first()[j - 1] by {}
    }
}

/// Interning is idempotent: interning a value into a pool that has just
/// interned it returns the same slot both times and leaves the pool
/// unchanged. This is the deduplication law of the constant pool.
pub proof fn lemma_intern_twice(pool: Seq<ConstV>, k: ConstV)
    ensures
        intern_slot(intern_pool(pool, k), k) == intern_slot(pool, k),
        intern_pool(intern_pool(pool, k), k) == intern_pool(pool, k),
{
    lemma_pool_find_spec(pool, k);
    if pool_find(pool, k) is None {
        lemma_pool_find_spec(pool.push(k), k);
        assert(pool.push(k)[pool.len() as int] == k);
    }
}

/// The slot of the innermost (most recently bound) local with the given
/// name, if any: later bindings shadow earlier ones.
pub open spec fn lookup_local(locals: Seq<Seq<char>>, n: Seq<char>) -> Option<int>
    decreases locals.len(),
{
    if locals.len() == 0 {
        None
    } else if locals.last() == n {
        Some(locals.len() - 1)
    } else {
        lookup_local(locals.drop_last(), n)
    }
}

/// The in-progress prototype: constant pool, instruction stream, local
/// scope table, and the stack of open scopes (each entry the number of
/// locals when the scope opened).
#[derive(Debug, Clone)]
pub struct Proto {
    pub consts: Vec<Const>,
    pub code: Vec<Instruction>,
    pub locals: Vec<String>,
    pub scopes: Vec<usize>,
}

impl Proto {
    /// A fresh, empty prototype.
    pub fn new() -> (r: Proto)
        ensures
            r.consts@ == Seq::<Const>::empty(),
            r.code@ == Seq::<Instruction>::empty(),
            r.locals@ == Seq::<String>::empty(),
            r.scopes@ == Seq::<usize>::empty(),
    {
        Proto { consts: Vec::new(), code: Vec::new(), locals: Vec::new(), scopes: Vec::new() }
    }

    /// Opens a lexical scope: remembers the current number of locals.
    pub fn open(&mut self)
        ensures
            final(self).scopes@ == old(self).scopes@.push(old(self).locals@.len() as usize),
            final(self).consts == old(self).consts,
            final(self).code == old(self).code,
            final(self).locals == old(self).locals,
    {
        let n = self.locals.len();
        self.scopes.push(n);
    }

    /// Closes the innermost scope: discards the locals bound since it
    /// opened.
    #[verifier::loop_isolation(false)]
    pub fn close(&mut self)
        requires
            old(self).scopes@.len() > 0,
            old(self).scopes@.last() <= old(self).locals@.len(),
        ensures
            final(self).scopes@ == old(self).scopes@.drop_last(),
            final(self).locals@ == old(self).locals@.take(old(self).scopes@.last() as int),
            final(self).consts == old(self).consts,
            final(self).code == old(self).code,
    {
        let n = match self.scopes.pop() {
            Some(n) => n,
            None => 0,
        };
        proof {
            assert(self.locals@ =~= old(self).locals@.take(self.locals@.len() as int));
        }
        while self.locals.len() > n
            invariant
                n <= self.locals@.len(),
                self.locals@.len() <= old(self).locals@.len(),
                self.locals@ == old(self).locals@.take(self.locals@.len() as int),
                self.consts == old(self).consts,
                self.code == old(self).code,
                self.scopes@ == old(self).scopes@.drop_last(),
            decreases self.locals@.len(),
        {
            let _ = self.locals.pop();
            proof {
                assert(self.locals@ =~= old(self).locals@.take(self.locals@.len() as int));
            }
        }
    }

    /// Interns a constant: returns the slot of the first pooled value
    /// equal to it, adding a fresh slot only if none exists.
    #[verifier::loop_isolation(false)]
    pub fn add_const(&mut self, k: Const) -> (slot: u32)
        requires
            old(self).consts@.len() < u32::MAX as usize,
        ensures
            pool_view(final(self).consts@) == intern_pool(pool_view(old(self).consts@), cview(k)),
            slot as int == intern_slot(pool_view(old(self).consts@), cview(k)),
            final(self).code == old(self).code,
            final(self).locals == old(self).locals,
            final(self).scopes == old(self).scopes,
    {
        let n = self.consts.len();
        let ghost pool = pool_view(self.consts@);
        let mut i: usize = 0;
        while i < n
            invariant
                i <= n,
                n == self.consts@.len(),
                *self == *old(self),
                pool == pool_view(self.consts@),
                n < u32::MAX as usize,
                forall|j: int| 0 <= j < i ==> pool[j] != cview(k),
            decreases n - i,
        {
            if self.consts[i].eq(&k) {
                proof {
                    lemma_pool_find_spec(pool, cview(k));
                    assert(pool[i as int] == cview(k));
                }
                return i as u32;
            }
            i += 1;
        }
        proof {
            lemma_pool_find_spec(pool, cview(k));
            assert(pool_find(pool, cview(k)) is None);
        }
        self.consts.push(k);
        proof {
            assert(pool_view(self.consts@) =~= pool.push(cview(k)));
        }
        n as u32
    }

    /// Binds a fresh local with the given name; its slot is the next
    /// register index.
    pub fn add_local_var(&mut self, name: &String) -> (slot: u32)
        requires
            old(self).locals@.len() < u32::MAX as usize,
        ensures
            final(self).locals@ == old(self).locals@.push(*name),
            slot as int == old(self).locals@.len(),
            final(self).consts == old(self).consts,
            final(self).code == old(self).code,
            final(self).scopes == old(self).scopes,
    {
        let slot = self.locals.len();
        self.locals.push(name.clone());
        slot as u32
    }

    /// Looks a name up in the scope table: the innermost local with that
    /// name, or nothing if it is not bound as a local.
    #[verifier::loop_isolation(false)]
    pub fn get_local_var(&self, name: &String) -> (r: Option<u32>)
        requires
            self.locals@.len() <= u32::MAX as usize,
        ensures
            match r {
                Some(s) => lookup_local(lview(self.locals@), name@) == Some(s as int),
                None => lookup_local(lview(self.locals@), name@) is None,
            },
    {
        let ghost all = lview(self.locals@);
        let mut i = self.locals.len();
        proof {
            assert(all.take(i as int) =~= all);
        }
        while i > 0
            invariant
                i <= self.locals@.len(),
                all == lview(self.locals@),
                lookup_local(all, name@) == lookup_local(all.take(i as int), name@),
            decreases i,
        {
            i -= 1;
            if self.locals[i].eq(name) {
                proof {
                    assert(all.take(i + 1 as int).last() == name@);
                }
                return Some(i as u32);
            }
            proof {
                assert(all.take(i + 1 as int).last() == all[i as int]);
                assert(all.take(i + 1 as int).drop_last() =~= all.take(i as int));
            }
        }
        None
    }

    /// Emits "load constant-pool slot `k` into register `dst`".
    pub fn code_const(&mut self, dst: u32, k: u32)
        ensures
            final(self).code@ == old(self).code@.push(Instruction::LoadConst { dst, k }),
            final(self).consts == old(self).consts,
            final(self).locals == old(self).locals,
            final(self).scopes == old(self).scopes,
    {
        self.code.push(Instruction::LoadConst { dst, k });
    }

    /// Emits "copy register `src` into register `dst`".
    pub fn code_move(&mut self, dst: u32, src: u32)
        ensures
            final(self).code@ == old(self).code@.push(Instruction::Move { dst, src }),
            final(self).consts == old(self).consts,
            final(self).locals == old(self).locals,
            final(self).scopes == old(self).scopes,
    {
        self.code.push(Instruction::Move { dst, src });
    }

    /// Emits "write nil into `n` registers starting at `dst`".
    pub fn code_nil(&mut self, dst: u32, n: u32)
        ensures
            final(self).code@ == old(self).code@.push(Instruction::LoadNil { dst, n }),
            final(self).consts == old(self).consts,
            final(self).locals == old(self).locals,
            final(self).scopes == old(self).scopes,
    {
        self.code.push(Instruction::LoadNil { dst, n });
    }

    /// Emits "write boolean `b` into register `dst`".
    pub fn code_bool(&mut self, dst: u32, b: bool)
        ensures
            final(self).code@ == old(self).code@.push(Instruction::LoadBool { dst, b }),
            final(self).consts == old(self).consts,
            final(self).locals == old(self).locals,
            final(self).scopes == old(self).scopes,
    {
        self.code.push(Instruction::LoadBool { dst, b });
    }
}

/// Per-function compile-time state: the prototype being filled and the
/// register high-water mark. Registers form a strict LIFO stack: slots
/// below `reg_top` are live, slots at or above it are free.
#[derive(Debug, Clone)]
pub struct ProtoContext {
    pub proto: Proto,
    pub reg_top: u32,
}

impl ProtoContext {
    /// A fresh context: empty prototype, empty register stack.
    pub fn new() -> (r: ProtoContext)
        ensures
            r.proto.consts@ == Seq::<Const>::empty(),
            r.proto.code@ == Seq::<Instruction>::empty(),
            r.proto.locals@ == Seq::<String>::empty(),
            r.proto.scopes@ == Seq::<usize>::empty(),
            r.reg_top == 0u32,
    {
        ProtoContext { proto: Proto::new(), reg_top: 0 }
    }

    /// The current register-stack top: the lowest free register slot.
    pub fn get_reg_top(&self) -> (r: u32)
        ensures
            r == self.reg_top,
    {
        self.reg_top
    }

    /// Reserves `n` registers at the stack top, returning the first slot
    /// reserved.
    pub fn reserve_regs(&mut self, n: u32) -> (first: u32)
        requires
            old(self).reg_top + n <= u32::MAX,
        ensures
            first == old(self).reg_top,
            final(self).reg_top == old(self).reg_top + n,
            final(self).proto == old(self).proto,
    {
        let first = self.reg_top;
        self.reg_top = self.reg_top + n;
        first
    }

    /// Releases the topmost `n` registers.
    pub fn free_reg(&mut self, n: u32)
        requires
            n <= old(self).reg_top,
        ensures
            final(self).reg_top == old(self).reg_top - n,
            final(self).proto == old(self).proto,
    {
        self.reg_top = self.reg_top - n;
    }
}

} // verus!

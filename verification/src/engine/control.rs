//! Blocks, branches and the stack discipline around them.

use crate::debugger::ProgramCounter;
use crate::engine::numeric::FloatUnit;
use crate::engine::stack::{label_of, Label, StackContent};
use crate::engine::{only_stack, EResult, Engine, InstructionOutcome};
use crate::parser::ast::BlockType;
use crate::value::Value;
use vstd::prelude::*;

verus! {

/// The number of values on top of the stack, above its topmost entry that is not
/// a value.
pub open spec fn trailing_values(s: Seq<StackContent>) -> nat
    decreases s.len(),
{
    if s.len() > 0 && s.last() is Value {
        trailing_values(s.drop_last()) + 1
    } else {
        0
    }
}

/// The label `n` labels down from the top of the stack, counting from zero.
pub open spec fn nth_label(s: Seq<StackContent>, n: nat) -> Option<Label>
    decreases s.len(),
{
    if s.len() == 0 {
        None
    } else {
        match s.last() {
            StackContent::Label(l) => if n == 0 {
                Some(l)
            } else {
                nth_label(s.drop_last(), (n - 1) as nat)
            },
            _ => nth_label(s.drop_last(), n),
        }
    }
}

/// The stack after leaving `n` blocks: each time the values on top are dropped,
/// and then the label below them. `None` where an entry below the values is not
/// a label.
pub open spec fn drop_blocks(s: Seq<StackContent>, n: nat) -> Option<Seq<StackContent>>
    decreases n,
{
    if n == 0 {
        Some(s)
    } else {
        let m = s.len() - trailing_values(s);
        if m > 0 && s[m - 1] is Label {
            drop_blocks(s.subrange(0, m - 1), (n - 1) as nat)
        } else {
            None
        }
    }
}

/// The stack after a branch to the label `idx` labels down: the label's arity of
/// entries are taken off the top, the blocks up to and including the label's are
/// left, and the entries taken are put back.
pub open spec fn spec_br(s: Seq<StackContent>, idx: nat) -> Option<Seq<StackContent>> {
    match nth_label(s, idx) {
        Some(l) => {
            let a = l.spec_arity() as int;
            if a <= s.len() {
                match drop_blocks(s.subrange(0, s.len() - a), idx + 1) {
                    Some(t) => Some(t + s.subrange(s.len() - a, s.len() as int)),
                    None => None,
                }
            } else {
                None
            }
        },
        None => None,
    }
}

/// Values pushed above an entry that is not a value are exactly the trailing
/// values.
proof fn lemma_trailing_over_values(p: Seq<StackContent>, vals: Seq<StackContent>)
    requires
        p.len() == 0 || !(p.last() is Value),
        forall|i: int| 0 <= i < vals.len() ==> #[trigger] vals[i] is Value,
    ensures
        trailing_values(p + vals) == vals.len(),
    decreases vals.len(),
{
    if vals.len() > 0 {
        assert((p + vals).drop_last() =~= p + vals.drop_last());
        lemma_trailing_over_values(p, vals.drop_last());
    } else {
        assert(p + vals =~= p);
    }
}

/// Values pushed on the stack do not change which label lies `n` labels down.
proof fn lemma_nth_label_over_values(p: Seq<StackContent>, vals: Seq<StackContent>, n: nat)
    requires
        forall|i: int| 0 <= i < vals.len() ==> #[trigger] vals[i] is Value,
    ensures
        nth_label(p + vals, n) == nth_label(p, n),
    decreases vals.len(),
{
    if vals.len() > 0 {
        assert((p + vals).drop_last() =~= p + vals.drop_last());
        assert((p + vals).last() == vals.last());
        lemma_nth_label_over_values(p, vals.drop_last(), n);
    } else {
        assert(p + vals =~= p);
    }
}

/// A branch to the innermost label, with the values `vals` above it: the label
/// and everything above it go, and the last of the values, as many as the
/// label's arity, are put back in their order.
pub proof fn lemma_br_innermost(base: Seq<StackContent>, l: Label, vals: Seq<StackContent>)
    requires
        forall|i: int| 0 <= i < vals.len() ==> #[trigger] vals[i] is Value,
        l.spec_arity() <= vals.len(),
    ensures
        spec_br(base.push(StackContent::Label(l)) + vals, 0) == Some(
            base + vals.subrange(vals.len() - l.spec_arity(), vals.len() as int),
        ),
{
    let p = base.push(StackContent::Label(l));
    let s = p + vals;
    let a = l.spec_arity() as int;
    lemma_nth_label_over_values(p, vals, 0);
    assert(p.drop_last() =~= base);
    let lower = vals.subrange(0, vals.len() - a);
    assert(s.subrange(0, s.len() - a) =~= p + lower);
    lemma_trailing_over_values(p, lower);
    let t = p + lower;
    let mm = t.len() - trailing_values(t);
    assert(mm == base.len() + 1);
    assert(t[mm - 1] == StackContent::Label(l));
    assert(t.subrange(0, mm - 1) =~= base);
    assert(drop_blocks(t.subrange(0, mm - 1), 0) == Some(base));
    assert(s.subrange(s.len() - a, s.len() as int) =~= vals.subrange(vals.len() - a, vals.len() as int));
}

/// The stack after leaving a block normally: the values on top stay, the label
/// below them goes, and where the label's arity is not zero only that many of
/// the values, the last ones, stay.
pub open spec fn spec_exit_block(s: Seq<StackContent>) -> Option<Seq<StackContent>> {
    let k = trailing_values(s) as int;
    let n = s.len() as int;
    if n > k {
        match s[n - k - 1] {
            StackContent::Label(l) => {
                let vals = s.subrange(n - k, n);
                let a = l.spec_arity() as int;
                let kept = if a != 0 && a < k {
                    vals.subrange(k - a, k)
                } else {
                    vals
                };
                Some(s.subrange(0, n - k - 1) + kept)
            },
            _ => None,
        }
    } else {
        None
    }
}

/// Leaving a block normally, with the values `vals` above its label: the label
/// goes, and of the values the last ones stay, as many as the label's arity
/// where that is not zero; a block of arity zero keeps all of them.
pub proof fn lemma_exit_innermost(base: Seq<StackContent>, l: Label, vals: Seq<StackContent>)
    requires
        forall|i: int| 0 <= i < vals.len() ==> #[trigger] vals[i] is Value,
        l.spec_arity() <= vals.len(),
    ensures
        l.spec_arity() > 0 ==> spec_exit_block(base.push(StackContent::Label(l)) + vals) == Some(
            base + vals.subrange(vals.len() - l.spec_arity(), vals.len() as int),
        ),
        l.spec_arity() == 0 ==> spec_exit_block(base.push(StackContent::Label(l)) + vals) == Some(base + vals),
{
    let p = base.push(StackContent::Label(l));
    let s = p + vals;
    lemma_trailing_over_values(p, vals);
    let k = vals.len() as int;
    let n = s.len() as int;
    assert(s[n - k - 1] == StackContent::Label(l));
    assert(s.subrange(n - k, n) =~= vals);
    assert(s.subrange(0, n - k - 1) =~= base);
    assert(vals.subrange(0, k) =~= vals);
}

/// The values on top are values, and the entry below them is not.
pub proof fn lemma_trailing_values(s: Seq<StackContent>)
    ensures
        trailing_values(s) <= s.len(),
        forall|i: int| s.len() - trailing_values(s) <= i < s.len() ==> #[trigger] s[i] is Value,
        trailing_values(s) < s.len() ==> !(s[s.len() - trailing_values(s) - 1] is Value),
    decreases s.len(),
{
    if s.len() > 0 && s.last() is Value {
        lemma_trailing_values(s.drop_last());
        assert forall|i: int| s.len() - trailing_values(s) <= i < s.len() implies #[trigger] s[i] is Value by {
            if i < s.len() - 1 {
                assert(s[i] == s.drop_last()[i]);
            }
        }
        if trailing_values(s) < s.len() {
            assert(s[s.len() - trailing_values(s) - 1] == s.drop_last()[s.drop_last().len() - trailing_values(s.drop_last()) - 1]);
        }
    }
}

/// The values on top of a stack are those of the stack without its top, and one
/// more where the top is a value.
proof fn lemma_trailing_prefix(s: Seq<StackContent>, m: int)
    requires
        0 <= m <= s.len(),
        forall|i: int| m <= i < s.len() ==> #[trigger] s[i] is Value,
    ensures
        trailing_values(s) == trailing_values(s.subrange(0, m)) + (s.len() - m),
    decreases s.len() - m,
{
    if m < s.len() {
        assert(s.drop_last().subrange(0, m) =~= s.subrange(0, m));
        assert forall|i: int| m <= i < s.drop_last().len() implies #[trigger] s.drop_last()[i] is Value by {
            assert(s.drop_last()[i] == s[i]);
        }
        lemma_trailing_prefix(s.drop_last(), m);
    } else {
        assert(s.subrange(0, m) =~= s);
    }
}

impl<P: ProgramCounter, F: FloatUnit> Engine<P, F> {
    /// The number of parameters of a block of type `block_ty`.
    pub fn get_param_count_block(&self, block_ty: &BlockType) -> (r: EResult<u32>)
        ensures
            match *block_ty {
                BlockType::FuncTy(t) => if 0 <= t < self.module.spec_fn_types().len() {
                    r == Ok::<u32, &'static str>(self.module.spec_fn_types()[t as int].param_types@.len() as u32)
                } else {
                    r is Err
                },
                _ => r == Ok::<u32, &'static str>(0),
            },
    {
        match block_ty {
            BlockType::Empty => Ok(0),
            BlockType::ValueType(_) => Ok(0),
            BlockType::FuncTy(t) => {
                let types = self.module.get_fn_types();
                if *t < 0 || (*t as u64) >= (types.len() as u64) {
                    return Err("Cannot find func type");
                }
                let k = *t as usize;
                Ok(types[k].param_types.len() as u32)
            },
        }
    }

    /// The number of parameters of a block of type `block_ty`, through a mutable
    /// borrow of the engine, which it leaves as it is.
    pub fn get_mut_param_count_block(&mut self, block_ty: &BlockType) -> (r: EResult<u32>)
        ensures
            *final(self) == *old(self),
            match *block_ty {
                BlockType::FuncTy(t) => if 0 <= t < old(self).module.spec_fn_types().len() {
                    r == Ok::<u32, &'static str>(old(self).module.spec_fn_types()[t as int].param_types@.len() as u32)
                } else {
                    r is Err
                },
                _ => r == Ok::<u32, &'static str>(0),
            },
    {
        self.get_param_count_block(block_ty)
    }

    /// The number of results of a block of type `block_ty`.
    pub fn get_return_count_block(&self, block_ty: &BlockType) -> (r: EResult<u32>)
        ensures
            match *block_ty {
                BlockType::Empty => r == Ok::<u32, &'static str>(0),
                BlockType::ValueType(_) => r == Ok::<u32, &'static str>(1),
                BlockType::FuncTy(t) => if 0 <= t < self.module.spec_fn_types().len() {
                    r == Ok::<u32, &'static str>(self.module.spec_fn_types()[t as int].return_types@.len() as u32)
                } else {
                    r is Err
                },
            },
    {
        match block_ty {
            BlockType::Empty => Ok(0),
            BlockType::ValueType(_) => Ok(1),
            BlockType::FuncTy(t) => {
                let types = self.module.get_fn_types();
                if *t < 0 || (*t as u64) >= (types.len() as u64) {
                    return Err("Cannot find func type");
                }
                let k = *t as usize;
                Ok(types[k].return_types.len() as u32)
            },
        }
    }

    /// Enters a block: its parameters are taken off the stack, a label with the
    /// given arity and the id of the block is pushed, and the parameters are put
    /// back above it.
    pub fn setup_stack_for_entering_block(&mut self, ty: &BlockType, block_id: usize, arity: u32) -> (r: EResult<()>)
        ensures
            final(self).module == old(self).module,
            final(self).debugger == old(self).debugger,
            only_stack(old(self).store, final(self).store),
            match old(self).get_param_count_spec(*ty) {
                Some(p) => if p <= old(self).store.stack@.len() {
                    let s = old(self).store.stack@;
                    r is Ok && final(self).store.stack@ == s.subrange(0, s.len() - p).push(
                        StackContent::Label(label_of(arity, block_id)),
                    ) + s.subrange(s.len() - p, s.len() as int)
                } else {
                    r is Err
                },
                None => r is Err,
            },
    {
        let param_count = match self.get_param_count_block(ty) {
            Ok(p) => p as usize,
            Err(e) => {
                return Err(e);
            },
        };
        if param_count > self.store.stack.len() {
            return Err("Not enough values for the parameters of the block");
        }
        let at = self.store.stack.len() - param_count;
        let mut block_args = self.store.stack.split_off(at);
        self.store.stack.push(StackContent::Label(Label::new(arity, block_id)));
        self.store.stack.append(&mut block_args);
        Ok(())
    }

    /// The number of parameters of a block of type `ty`, where its type exists.
    pub open spec fn get_param_count_spec(&self, ty: BlockType) -> Option<int> {
        match ty {
            BlockType::FuncTy(t) => if 0 <= t < self.module.spec_fn_types().len() {
                Some((self.module.spec_fn_types()[t as int].param_types@.len() as u32) as int)
            } else {
                None
            },
            _ => Some(0),
        }
    }

    /// Pops the values on top of the stack and returns them in their order.
    fn pop_trailing_values(&mut self) -> (r: Vec<StackContent>)
        ensures
            final(self).module == old(self).module,
            final(self).debugger == old(self).debugger,
            only_stack(old(self).store, final(self).store),
            ({
                let s = old(self).store.stack@;
                let k = trailing_values(s) as int;
                final(self).store.stack@ == s.subrange(0, s.len() - k) && r@ == s.subrange(s.len() - k, s.len() as int)
            }),
    {
        let ghost s = self.store.stack@;
        proof {
            lemma_trailing_values(s);
        }
        let mut m = self.store.stack.len();
        let mut done = false;
        while m > 0 && !done
            invariant
                m <= s.len(),
                self.store.stack@ == s,
                forall|i: int| m <= i < s.len() ==> #[trigger] s[i] is Value,
                done ==> m > 0 && !(s[m - 1] is Value),
            decreases m, if done { 0int } else { 1int },
        {
            match &self.store.stack[m - 1] {
                StackContent::Value(_) => {
                    m = m - 1;
                },
                _ => {
                    done = true;
                },
            }
        }
        proof {
            lemma_trailing_prefix(s, m as int);
            if m > 0 {
                assert(s.subrange(0, m as int).last() == s[m - 1]);
            }
        }
        self.store.stack.split_off(m)
    }

    /// Leaves a block normally, as `spec_exit_block` says.
    pub fn exit_block(&mut self) -> (r: EResult<()>)
        ensures
            final(self).module == old(self).module,
            final(self).debugger == old(self).debugger,
            only_stack(old(self).store, final(self).store),
            match spec_exit_block(old(self).store.stack@) {
                Some(t) => r is Ok && final(self).store.stack@ == t,
                None => r is Err,
            },
    {
        let ghost s = self.store.stack@;
        proof {
            lemma_trailing_values(s);
        }
        let mut vals = self.pop_trailing_values();
        let lb = match self.store.stack.pop() {
            Some(StackContent::Label(lb)) => lb,
            _ => {
                return Err("Expected label, but it's not a label");
            },
        };
        let a = lb.get_arity() as usize;
        if a != 0 && a < vals.len() {
            let at = vals.len() - a;
            vals = vals.split_off(at);
        }
        self.store.stack.append(&mut vals);
        proof {
            let k = trailing_values(s) as int;
            let n = s.len() as int;
            assert(s.subrange(0, n - k).drop_last() =~= s.subrange(0, n - k - 1));
            assert(s.subrange(0, n - k).last() == s[n - k - 1]);
            let full = s.subrange(n - k, n);
            if a != 0 && a < k {
                assert(full.subrange(k - a, k) =~= s.subrange(n - a, n));
            }
        }
        Ok(())
    }

    /// The label `n` labels down from the top of the stack.
    fn find_label(&self, n: u32) -> (r: Option<Label>)
        ensures
            r == nth_label(self.store.stack@, n as nat),
    {
        let ghost s = self.store.stack@;
        let mut i = self.store.stack.len();
        let mut left: u32 = n;
        proof {
            assert(s.subrange(0, i as int) =~= s);
        }
        while i > 0
            invariant
                i <= s.len(),
                s == self.store.stack@,
                nth_label(s, n as nat) == nth_label(s.subrange(0, i as int), left as nat),
            decreases i,
        {
            proof {
                assert(s.subrange(0, i as int).drop_last() =~= s.subrange(0, i - 1));
                assert(s.subrange(0, i as int).last() == s[i - 1]);
            }
            match &self.store.stack[i - 1] {
                StackContent::Label(l) => {
                    if left == 0 {
                        return Some(*l);
                    }
                    left = left - 1;
                },
                _ => {},
            }
            i = i - 1;
        }
        None
    }

    /// Leaves one block: the values on top and then the label below them.
    fn drop_block(&mut self) -> (r: EResult<()>)
        ensures
            final(self).module == old(self).module,
            final(self).debugger == old(self).debugger,
            only_stack(old(self).store, final(self).store),
            match drop_blocks(old(self).store.stack@, 1) {
                Some(t) => r is Ok && final(self).store.stack@ == t,
                None => r is Err,
            },
    {
        let ghost s = self.store.stack@;
        let _ = self.pop_trailing_values();
        proof {
            lemma_trailing_values(s);
            let m = s.len() - trailing_values(s);
            if m > 0 {
                assert(s.subrange(0, m).drop_last() =~= s.subrange(0, m - 1));
                assert(s.subrange(0, m).last() == s[m - 1]);
                assert(drop_blocks(s.subrange(0, m - 1), 0) == Some(s.subrange(0, m - 1)));
            }
        }
        match self.store.stack.pop() {
            Some(StackContent::Label(_)) => Ok(()),
            _ => Err("Popping off label failed"),
        }
    }

    /// `br`: branches to the label `label_idx` labels down, as `spec_br` says.
    #[verifier::loop_isolation(false)]
    pub fn br(&mut self, label_idx: u32) -> (r: EResult<InstructionOutcome>)
        ensures
            final(self).module == old(self).module,
            final(self).debugger == old(self).debugger,
            only_stack(old(self).store, final(self).store),
            match spec_br(old(self).store.stack@, label_idx as nat) {
                Some(t) => r == Ok::<InstructionOutcome, &'static str>(InstructionOutcome::BRANCH(label_idx))
                    && final(self).store.stack@ == t,
                None => r is Err,
            },
    {
        let ghost s = self.store.stack@;
        let lb = match self.find_label(label_idx) {
            Some(l) => l,
            None => {
                return Err("Label not found");
            },
        };
        let arity = lb.get_arity() as usize;
        let mut return_elements = match self.store.pop_off_stack(arity) {
            Ok(v) => v,
            Err(e) => {
                return Err(e);
            },
        };
        let ghost base = self.store.stack@;
        let mut j: u64 = 0;
        let total: u64 = label_idx as u64 + 1;
        while j < total
            invariant
                j <= total,
                total == label_idx + 1,
                self.module == old(self).module,
                self.debugger == old(self).debugger,
                only_stack(old(self).store, self.store),
                drop_blocks(base, total as nat) == drop_blocks(self.store.stack@, (total - j) as nat),
            decreases total - j,
        {
            let ghost cur = self.store.stack@;
            match self.drop_block() {
                Ok(()) => {},
                Err(e) => {
                    proof {
                        lemma_drop_blocks_fail(cur, (total - j) as nat);
                    }
                    return Err(e);
                },
            }
            proof {
                lemma_drop_blocks_split(cur, (total - j) as nat, self.store.stack@);
            }
            j = j + 1;
        }
        self.store.stack.append(&mut return_elements);
        Ok(InstructionOutcome::BRANCH(label_idx))
    }
}

/// Leaving `j + 1` blocks is leaving `j` and then one more.
proof fn lemma_drop_blocks_step(base: Seq<StackContent>, j: nat, cur: Seq<StackContent>, next: Seq<StackContent>)
    requires
        drop_blocks(base, j) == Some(cur),
        drop_blocks(cur, 1) == Some(next),
    ensures
        drop_blocks(base, j + 1) == Some(next),
    decreases j,
{
    if j > 0 {
        let m = base.len() - trailing_values(base);
        lemma_drop_blocks_step(base.subrange(0, m - 1), (j - 1) as nat, cur, next);
    } else {
        let m = cur.len() - trailing_values(cur);
        assert(drop_blocks(cur.subrange(0, m - 1), 0) == Some(cur.subrange(0, m - 1)));
    }
}

/// Leaving `n > 0` blocks is leaving one and then `n - 1`.
proof fn lemma_drop_blocks_split(cur: Seq<StackContent>, n: nat, next: Seq<StackContent>)
    requires
        n > 0,
        drop_blocks(cur, 1) == Some(next),
    ensures
        drop_blocks(cur, n) == drop_blocks(next, (n - 1) as nat),
{
    let m = cur.len() - trailing_values(cur);
    if m > 0 && cur[m - 1] is Label {
        assert(drop_blocks(cur.subrange(0, m - 1), 0) == Some(cur.subrange(0, m - 1)));
    }
}

/// Where one block cannot be left, neither can `n > 0`.
proof fn lemma_drop_blocks_fail(cur: Seq<StackContent>, n: nat)
    requires
        n > 0,
        drop_blocks(cur, 1) is None,
    ensures
        drop_blocks(cur, n) is None,
{
    let m = cur.len() - trailing_values(cur);
    if m > 0 && cur[m - 1] is Label {
        assert(drop_blocks(cur.subrange(0, m - 1), 0) == Some(cur.subrange(0, m - 1)));
    }
}

} // verus!

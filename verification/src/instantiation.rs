//! Instantiation of an allocated module: the element segments are written into
//! the tables, the data segments into the memory, and the start function is
//! looked up.

use crate::allocation::{const_value, get_expr_const_ty_global, memory_views, table_views};
use crate::engine::memory::write_bytes;
use crate::engine::module::ModuleInstance;
use crate::engine::stack::{Frame, StackContent};
use crate::engine::store::{GlobalInstance, Store, TableInstance};
use crate::engine::EResult;
use crate::parser::ast::{DataSegment, ElementSegment, FuncAddr, GlobalAddr, MemoryAddr, TableAddr};
use crate::parser::Module;
use crate::validation::extract::{
    data_of, deref_all, elements_of, flat_map, get_data, get_elements, get_start, starts_of,
};
use crate::value::Value;
use vstd::prelude::*;

verus! {

/// How a step of instantiation ends: with the new state, with an error, or where
/// it cannot go on (an offset that is not an `i32`, an index out of bounds, an
/// overflow), which instantiation reports as an error too.
pub enum Outcome<T> {
    Done(T),
    Error,
    Stuck,
}

/// What the tables hold: the elements and the maximum of each.
pub type TableViews = Seq<(Seq<Option<FuncAddr>>, Option<u32>)>;

/// What the memories hold: the bytes and the maximum of each.
pub type MemoryViews = Seq<(Seq<u8>, Option<u32>)>;

/// Writes the addresses of the functions `init` into `elem`, the `j`-th at
/// `eo + j`, in order. A function index that names no function is an error; a
/// place outside the table is stuck.
pub open spec fn write_elems(init: Seq<u32>, func_addrs: Seq<FuncAddr>, eo: int, elem: Seq<Option<FuncAddr>>) -> Outcome<
    Seq<Option<FuncAddr>>,
>
    decreases init.len(),
{
    if init.len() == 0 {
        Outcome::Done(elem)
    } else {
        match write_elems(init.drop_last(), func_addrs, eo, elem) {
            Outcome::Done(el) => {
                let j = init.len() - 1;
                let fi = init.last() as int;
                if fi >= func_addrs.len() {
                    Outcome::Error
                } else if eo < 0 || eo + j >= el.len() {
                    Outcome::Stuck
                } else {
                    Outcome::Done(el.update(eo + j, Some(func_addrs[fi])))
                }
            },
            o => o,
        }
    }
}

/// Writing within the table never gets stuck, and keeps the table's length.
proof fn lemma_write_elems_in_bounds(init: Seq<u32>, func_addrs: Seq<FuncAddr>, eo: int, elem: Seq<Option<FuncAddr>>)
    requires
        0 <= eo,
        eo + init.len() <= elem.len(),
    ensures
        !(write_elems(init, func_addrs, eo, elem) is Stuck),
        write_elems(init, func_addrs, eo, elem) matches Outcome::Done(el) ==> el.len() == elem.len(),
    decreases init.len(),
{
    if init.len() > 0 {
        lemma_write_elems_in_bounds(init.drop_last(), func_addrs, eo, elem);
    }
}

/// Writing the functions of an element segment from `eo` on puts the address
/// of the `j`-th function at `eo + j`, leaves every other entry as it was, and
/// keeps the length of the table.
pub proof fn lemma_write_elems_places(init: Seq<u32>, func_addrs: Seq<FuncAddr>, eo: int, elem: Seq<Option<FuncAddr>>)
    ensures
        write_elems(init, func_addrs, eo, elem) matches Outcome::Done(el) ==> {
            &&& el.len() == elem.len()
            &&& forall|k: int| eo <= k < eo + init.len() ==> #[trigger] el[k] == Some(func_addrs[init[k - eo] as int])
            &&& forall|k: int| 0 <= k < elem.len() && !(eo <= k < eo + init.len()) ==> #[trigger] el[k] == elem[k]
        },
    decreases init.len(),
{
    if init.len() > 0 {
        lemma_write_elems_in_range(init.drop_last(), func_addrs, eo, elem);
        lemma_write_elems_places(init.drop_last(), func_addrs, eo, elem);
        if let Outcome::Done(el) = write_elems(init, func_addrs, eo, elem) {
            let el0 = write_elems(init.drop_last(), func_addrs, eo, elem)->Done_0;
            let j = init.len() - 1;
            assert forall|k: int| eo <= k < eo + init.len() implies #[trigger] el[k] == Some(func_addrs[init[k - eo] as int]) by {
                if k < eo + j {
                    assert(init.drop_last()[k - eo] == init[k - eo]);
                }
            }
        }
    }
}

/// A write of an element segment that ends normally stays within the table.
proof fn lemma_write_elems_in_range(init: Seq<u32>, func_addrs: Seq<FuncAddr>, eo: int, elem: Seq<Option<FuncAddr>>)
    ensures
        write_elems(init, func_addrs, eo, elem) matches Outcome::Done(el) ==> el.len() == elem.len() && (init.len()
            > 0 ==> 0 <= eo && eo + init.len() <= elem.len()),
    decreases init.len(),
{
    if init.len() > 0 {
        lemma_write_elems_in_range(init.drop_last(), func_addrs, eo, elem);
    }
}

/// Instantiates one element segment. Its offset must be an `i32` constant; the
/// segment's table index must name a table; the offset must not be negative
/// and the table must hold the offset plus the number of functions; then the
/// functions are written from the offset on.
pub open spec fn element_outcome(
    e: ElementSegment,
    table_addrs: Seq<TableAddr>,
    func_addrs: Seq<FuncAddr>,
    global_addrs: Seq<GlobalAddr>,
    globals: Seq<GlobalInstance>,
    tables: TableViews,
) -> Outcome<TableViews> {
    match const_value(e.offset@, global_addrs, globals) {
        None => Outcome::Error,
        Some(Value::I32(eo)) => {
            let ti = e.table as int;
            if ti >= 0x8000_0000 || ti >= table_addrs.len() {
                Outcome::Error
            } else if table_addrs[ti].0 as int >= tables.len() {
                Outcome::Error
            } else {
                let ta = table_addrs[ti].0 as int;
                let eend = eo + e.init@.len();
                if e.init@.len() > i32::MAX || eo < 0 || eend > i32::MAX || eend > tables[ta].0.len() {
                    Outcome::Error
                } else {
                    match write_elems(e.init@, func_addrs, eo as int, tables[ta].0) {
                        Outcome::Done(el) => Outcome::Done(tables.update(ta, (el, tables[ta].1))),
                        Outcome::Error => Outcome::Error,
                        Outcome::Stuck => Outcome::Stuck,
                    }
                }
            }
        },
        Some(_) => Outcome::Stuck,
    }
}

/// An element segment whose offset is the `i32` `eo`, where it is written,
/// puts the addresses of its functions into the table its index names, from
/// `eo` on, and leaves every other entry and every other table as it was.
pub proof fn lemma_element_segment_placed(
    e: ElementSegment,
    table_addrs: Seq<TableAddr>,
    func_addrs: Seq<FuncAddr>,
    global_addrs: Seq<GlobalAddr>,
    globals: Seq<GlobalInstance>,
    tables: TableViews,
    eo: i32,
)
    requires
        const_value(e.offset@, global_addrs, globals) == Some(Value::I32(eo)),
    ensures
        element_outcome(e, table_addrs, func_addrs, global_addrs, globals, tables) matches Outcome::Done(t2) ==> {
            let ta = table_addrs[e.table as int].0 as int;
            &&& 0 <= e.table < table_addrs.len() && 0 <= ta < tables.len()
            &&& t2.len() == tables.len()
            &&& forall|i: int| 0 <= i < tables.len() && i != ta ==> #[trigger] t2[i] == tables[i]
            &&& t2[ta].1 == tables[ta].1 && t2[ta].0.len() == tables[ta].0.len()
            &&& forall|k: int| eo <= k < eo + e.init@.len() ==> #[trigger] t2[ta].0[k] == Some(func_addrs[e.init@[k - eo] as int])
            &&& forall|k: int|
                0 <= k < tables[ta].0.len() && !(eo <= k < eo + e.init@.len()) ==> #[trigger] t2[ta].0[k] == tables[ta].0[k]
        },
{
    if 0 <= e.table < table_addrs.len() && (table_addrs[e.table as int].0 as int) < tables.len() {
        let ta = table_addrs[e.table as int].0 as int;
        lemma_write_elems_places(e.init@, func_addrs, eo as int, tables[ta].0);
    }
}

/// Instantiates the element segments `es` in order.
pub open spec fn elements_outcome(
    es: Seq<ElementSegment>,
    table_addrs: Seq<TableAddr>,
    func_addrs: Seq<FuncAddr>,
    global_addrs: Seq<GlobalAddr>,
    globals: Seq<GlobalInstance>,
    tables: TableViews,
) -> Outcome<TableViews>
    decreases es.len(),
{
    if es.len() == 0 {
        Outcome::Done(tables)
    } else {
        match elements_outcome(es.drop_last(), table_addrs, func_addrs, global_addrs, globals, tables) {
            Outcome::Done(t) => element_outcome(es.last(), table_addrs, func_addrs, global_addrs, globals, t),
            o => o,
        }
    }
}

/// Instantiates one data segment. Where its offset is an `i32` constant, the
/// module must have a memory, the memory must hold the offset plus the number of
/// bytes, and the bytes are written from the offset on. An offset of another
/// type leaves the memory as it is.
pub open spec fn data_outcome(
    d: DataSegment,
    mem_addrs: Seq<MemoryAddr>,
    global_addrs: Seq<GlobalAddr>,
    globals: Seq<GlobalInstance>,
    mems: MemoryViews,
) -> Outcome<MemoryViews> {
    match const_value(d.offset@, global_addrs, globals) {
        None => Outcome::Error,
        Some(Value::I32(off)) => {
            if mem_addrs.len() == 0 || mem_addrs[0].0 as int >= mems.len() {
                Outcome::Error
            } else {
                let ma = mem_addrs[0].0 as int;
                let dend = off + (d.init@.len() as i32);
                if dend > i32::MAX || dend < i32::MIN {
                    Outcome::Stuck
                } else if dend > (mems[ma].0.len() as i32) {
                    Outcome::Error
                } else if d.init@.len() == 0 {
                    Outcome::Done(mems)
                } else if off < 0 || off + d.init@.len() > mems[ma].0.len() {
                    Outcome::Stuck
                } else {
                    Outcome::Done(mems.update(ma, (write_bytes(mems[ma].0, off as int, d.init@), mems[ma].1)))
                }
            }
        },
        Some(_) => Outcome::Done(mems),
    }
}

/// A data segment whose offset is the `i32` `off`, where it is written, puts
/// its bytes into the first memory of the module from `off` on, and leaves every
/// other byte and every other memory as it was; an empty one changes nothing.
pub proof fn lemma_data_segment_placed(
    d: DataSegment,
    mem_addrs: Seq<MemoryAddr>,
    global_addrs: Seq<GlobalAddr>,
    globals: Seq<GlobalInstance>,
    mems: MemoryViews,
    off: i32,
)
    requires
        const_value(d.offset@, global_addrs, globals) == Some(Value::I32(off)),
    ensures
        data_outcome(d, mem_addrs, global_addrs, globals, mems) matches Outcome::Done(m2) ==> {
            let ma = mem_addrs[0].0 as int;
            &&& d.init@.len() == 0 ==> m2 == mems
            &&& d.init@.len() > 0 ==> {
                &&& mem_addrs.len() > 0 && 0 <= ma < mems.len()
                &&& m2.len() == mems.len()
                &&& forall|i: int| 0 <= i < mems.len() && i != ma ==> #[trigger] m2[i] == mems[i]
                &&& m2[ma].1 == mems[ma].1 && m2[ma].0.len() == mems[ma].0.len()
                &&& forall|k: int| off <= k < off + d.init@.len() ==> #[trigger] m2[ma].0[k] == d.init@[k - off]
                &&& forall|k: int|
                    0 <= k < mems[ma].0.len() && !(off <= k < off + d.init@.len()) ==> #[trigger] m2[ma].0[k] == mems[ma].0[k]
            }
        },
{
    if let Outcome::Done(m2) = data_outcome(d, mem_addrs, global_addrs, globals, mems) {
        if d.init@.len() > 0 {
            let ma = mem_addrs[0].0 as int;
            let data = mems[ma].0;
            assert forall|k: int| off <= k < off + d.init@.len() implies #[trigger] m2[ma].0[k] == d.init@[k - off] by {
                crate::engine::memory::write_puts_bytes(data, off as int, d.init@, k - off);
            }
            assert forall|k: int|
                0 <= k < data.len() && !(off <= k < off + d.init@.len()) implies #[trigger] m2[ma].0[k] == data[k] by {
                crate::engine::memory::write_keeps_other_bytes(data, off as int, d.init@, k);
            }
        }
    }
}

/// Instantiates the data segments `ds` in order.
pub open spec fn datas_outcome(
    ds: Seq<DataSegment>,
    mem_addrs: Seq<MemoryAddr>,
    global_addrs: Seq<GlobalAddr>,
    globals: Seq<GlobalInstance>,
    mems: MemoryViews,
) -> Outcome<MemoryViews>
    decreases ds.len(),
{
    if ds.len() == 0 {
        Outcome::Done(mems)
    } else {
        match datas_outcome(ds.drop_last(), mem_addrs, global_addrs, globals, mems) {
            Outcome::Done(t) => data_outcome(ds.last(), mem_addrs, global_addrs, globals, t),
            o => o,
        }
    }
}

/// Where a prefix of the writes does not end normally, neither do all of them.
proof fn lemma_write_elems_prefix(init: Seq<u32>, j: int, fa: Seq<FuncAddr>, eo: int, elem: Seq<Option<FuncAddr>>)
    requires
        0 <= j < init.len(),
        !(write_elems(init.subrange(0, j + 1), fa, eo, elem) is Done),
    ensures
        write_elems(init, fa, eo, elem) == write_elems(init.subrange(0, j + 1), fa, eo, elem),
    decreases init.len() - j,
{
    if j + 1 < init.len() {
        assert(init.subrange(0, j + 2).drop_last() =~= init.subrange(0, j + 1));
        lemma_write_elems_prefix(init, j + 1, fa, eo, elem);
    } else {
        assert(init.subrange(0, j + 1) =~= init);
    }
}

/// Where a prefix of the segments does not end normally, neither do all of them.
proof fn lemma_elements_prefix(
    es: Seq<ElementSegment>,
    j: int,
    ta: Seq<TableAddr>,
    fa: Seq<FuncAddr>,
    ga: Seq<GlobalAddr>,
    g: Seq<GlobalInstance>,
    t: TableViews,
)
    requires
        0 <= j < es.len(),
        !(elements_outcome(es.subrange(0, j + 1), ta, fa, ga, g, t) is Done),
    ensures
        elements_outcome(es, ta, fa, ga, g, t) == elements_outcome(es.subrange(0, j + 1), ta, fa, ga, g, t),
    decreases es.len() - j,
{
    if j + 1 < es.len() {
        assert(es.subrange(0, j + 2).drop_last() =~= es.subrange(0, j + 1));
        lemma_elements_prefix(es, j + 1, ta, fa, ga, g, t);
    } else {
        assert(es.subrange(0, j + 1) =~= es);
    }
}

/// Where a prefix of the segments does not end normally, neither do all of them.
proof fn lemma_datas_prefix(
    ds: Seq<DataSegment>,
    j: int,
    ma: Seq<MemoryAddr>,
    ga: Seq<GlobalAddr>,
    g: Seq<GlobalInstance>,
    mems: MemoryViews,
)
    requires
        0 <= j < ds.len(),
        !(datas_outcome(ds.subrange(0, j + 1), ma, ga, g, mems) is Done),
    ensures
        datas_outcome(ds, ma, ga, g, mems) == datas_outcome(ds.subrange(0, j + 1), ma, ga, g, mems),
    decreases ds.len() - j,
{
    if j + 1 < ds.len() {
        assert(ds.subrange(0, j + 2).drop_last() =~= ds.subrange(0, j + 1));
        lemma_datas_prefix(ds, j + 1, ma, ga, g, mems);
    } else {
        assert(ds.subrange(0, j + 1) =~= ds);
    }
}

/// Writes the addresses of the functions `init` into the table, the `j`-th at
/// `eo + j`.
fn write_elements(instance: &mut TableInstance, init: &[u32], mod_instance: &ModuleInstance, eo: i32) -> (r: EResult<()>)
    requires
        !(write_elems(init@, mod_instance.spec_func_addrs(), eo as int, old(instance).elem@) is Stuck),
    ensures
        match write_elems(init@, mod_instance.spec_func_addrs(), eo as int, old(instance).elem@) {
            Outcome::Done(el) => r is Ok && final(instance).elem@ == el,
            _ => r is Err,
        },
        final(instance).max == old(instance).max,
{
    let ghost fa = mod_instance.spec_func_addrs();
    let ghost el0 = instance.elem@;
    let mut j: usize = 0;
    while j < init.len()
        invariant
            j <= init@.len(),
            fa == mod_instance.spec_func_addrs(),
            el0 == old(instance).elem@,
            !(write_elems(init@, fa, eo as int, el0) is Stuck),
            write_elems(init@.subrange(0, j as int), fa, eo as int, el0) == Outcome::Done(instance.elem@),
            instance.max == old(instance).max,
        decreases init@.len() - j,
    {
        let fi = init[j];
        proof {
            assert(init@.subrange(0, j + 1).drop_last() =~= init@.subrange(0, j as int));
            assert(init@.subrange(0, j + 1).last() == fi);
            if !(write_elems(init@.subrange(0, j + 1), fa, eo as int, el0) is Done) {
                lemma_write_elems_prefix(init@, j as int, fa, eo as int, el0);
            }
        }
        let faddr = match mod_instance.lookup_function_addr(&fi) {
            Some(a) => FuncAddr(a.0),
            None => {
                return Err("No function with funcindex");
            },
        };
        proof {
            assert(!(write_elems(init@.subrange(0, j + 1), fa, eo as int, el0) is Stuck));
            assert(0 <= eo && eo + j < instance.elem@.len());
        }
        let start = eo as usize;
        proof {
            assert(start == eo as int);
            assert(start + j < instance.elem.len());
        }
        instance.elem.set(start + j, Some(faddr));
        j = j + 1;
    }
    proof {
        assert(init@.subrange(0, j as int) =~= init@);
    }
    Ok(())
}

/// Writes the element segments of the module into the tables, in order.
fn instantiate_elements(m: &Module, mod_instance: &ModuleInstance, store: &mut Store) -> (r: EResult<()>)
    ensures
        match elements_outcome(
            flat_map(m.sections@, elements_of()),
            mod_instance.spec_table_addrs(),
            mod_instance.spec_func_addrs(),
            mod_instance.spec_global_addrs(),
            old(store).globals@,
            table_views(old(store).tables@),
        ) {
            Outcome::Done(t) => r is Ok && table_views(final(store).tables@) == t,
            _ => r is Err,
        },
        final(store).funcs@ == old(store).funcs@,
        final(store).memory@ == old(store).memory@,
        final(store).globals@ == old(store).globals@,
        final(store).stack@ == old(store).stack@,
{
    let ty = get_elements(m);
    let ghost es = deref_all(ty@);
    let ghost ta = mod_instance.spec_table_addrs();
    let ghost fa = mod_instance.spec_func_addrs();
    let ghost ga = mod_instance.spec_global_addrs();
    let ghost g = store.globals@;
    let ghost t0 = table_views(store.tables@);
    let mut k: usize = 0;
    while k < ty.len()
        invariant
            es == deref_all(ty@),
            es == flat_map(m.sections@, elements_of()),
            ta == mod_instance.spec_table_addrs(),
            fa == mod_instance.spec_func_addrs(),
            ga == mod_instance.spec_global_addrs(),
            g == old(store).globals@,
            t0 == table_views(old(store).tables@),
            k <= es.len(),
            elements_outcome(es.subrange(0, k as int), ta, fa, ga, g, t0) == Outcome::Done(
                table_views(store.tables@),
            ),
            store.funcs@ == old(store).funcs@,
            store.memory@ == old(store).memory@,
            store.globals@ == old(store).globals@,
            store.stack@ == old(store).stack@,
        decreases es.len() - k,
    {
        let e = ty[k];
        let ghost tk = table_views(store.tables@);
        proof {
            assert(es.subrange(0, k + 1).drop_last() =~= es.subrange(0, k as int));
            assert(es.subrange(0, k + 1).last() == *e);
            assert(elements_outcome(es.subrange(0, k + 1), ta, fa, ga, g, t0) == element_outcome(
                *e,
                ta,
                fa,
                ga,
                g,
                tk,
            ));
            if !(element_outcome(*e, ta, fa, ga, g, tk) is Done) {
                lemma_elements_prefix(es, k as int, ta, fa, ga, g, t0);
            }
        }
        let eoval = match get_expr_const_ty_global(e.offset.as_slice(), mod_instance, store) {
            Ok(v) => v,
            Err(_) => {
                return Err("Fetching const expr failed");
            },
        };
        let eo = match eoval {
            Value::I32(eo) => eo,
            _ => {
                return Err("Element's offset is not I32");
            },
        };
        if e.table >= 0x8000_0000 {
            return Err("Table index does not exists");
        }
        let table_addr = match mod_instance.lookup_table_addr(&e.table) {
            Some(a) => a.0,
            None => {
                return Err("Table index does not exists");
            },
        };
        if table_addr >= store.tables.len() {
            return Err("Table addr does not exists");
        }
        if e.init.len() > i32::MAX as usize {
            return Err("end overflows");
        }
        let n = e.init.len() as i32;
        if eo < 0 {
            return Err("Element's offset is negative");
        }
        let eend = match eo.checked_add(n) {
            Some(x) => x,
            None => {
                return Err("end overflows");
            },
        };
        if eend as usize > store.tables[table_addr].elem.len() {
            return Err("end is larger than table_inst.elem");
        }
        proof {
            lemma_write_elems_in_bounds(e.init@, mod_instance.spec_func_addrs(), eo as int, store.tables@[table_addr as int].elem@);
        }
        let ghost el0 = store.tables@[table_addr as int].elem@;
        let mut instance = store.tables.remove(table_addr);
        let res = write_elements(&mut instance, e.init.as_slice(), mod_instance, eo);
        store.tables.insert(table_addr, instance);
        proof {
            assert(table_views(store.tables@) =~= tk.update(
                table_addr as int,
                (instance.elem@, tk[table_addr as int].1),
            ));
        }
        match res {
            Ok(()) => {},
            Err(e) => {
                return Err(e);
            },
        }
        k = k + 1;
    }
    proof {
        assert(es.subrange(0, k as int) =~= es);
    }
    Ok(())
}

/// Writes the data segments of the module into the memory, in order.
fn instantiate_data(m: &Module, mod_instance: &ModuleInstance, store: &mut Store) -> (r: EResult<()>)
    ensures
        match datas_outcome(
            flat_map(m.sections@, data_of()),
            mod_instance.spec_mem_addrs(),
            mod_instance.spec_global_addrs(),
            old(store).globals@,
            memory_views(old(store).memory@),
        ) {
            Outcome::Done(t) => r is Ok && memory_views(final(store).memory@) == t,
            _ => r is Err,
        },
        final(store).funcs@ == old(store).funcs@,
        final(store).tables@ == old(store).tables@,
        final(store).globals@ == old(store).globals@,
        final(store).stack@ == old(store).stack@,
{
    let ty = get_data(m);
    let ghost ds = deref_all(ty@);
    let ghost ma = mod_instance.spec_mem_addrs();
    let ghost ga = mod_instance.spec_global_addrs();
    let ghost g = store.globals@;
    let ghost m0 = memory_views(store.memory@);
    let mut k: usize = 0;
    while k < ty.len()
        invariant
            ds == deref_all(ty@),
            ds == flat_map(m.sections@, data_of()),
            ma == mod_instance.spec_mem_addrs(),
            ga == mod_instance.spec_global_addrs(),
            g == old(store).globals@,
            m0 == memory_views(old(store).memory@),
            k <= ds.len(),
            datas_outcome(ds.subrange(0, k as int), ma, ga, g, m0) == Outcome::Done(memory_views(store.memory@)),
            store.funcs@ == old(store).funcs@,
            store.tables@ == old(store).tables@,
            store.globals@ == old(store).globals@,
            store.stack@ == old(store).stack@,
        decreases ds.len() - k,
    {
        let data = ty[k];
        let ghost mk = memory_views(store.memory@);
        proof {
            assert(ds.subrange(0, k + 1).drop_last() =~= ds.subrange(0, k as int));
            assert(ds.subrange(0, k + 1).last() == *data);
            assert(datas_outcome(ds.subrange(0, k + 1), ma, ga, g, m0) == data_outcome(*data, ma, ga, g, mk));
            if !(data_outcome(*data, ma, ga, g, mk) is Done) {
                lemma_datas_prefix(ds, k as int, ma, ga, g, m0);
            }
        }
        let doval = match get_expr_const_ty_global(data.offset.as_slice(), mod_instance, store) {
            Ok(v) => v,
            Err(_) => {
                return Err("Fetching const expr failed");
            },
        };
        if let Value::I32(mem_idx) = doval {
            let mem_addr = match mod_instance.get_mem_addrs().first() {
                Some(a) => a.0,
                None => {
                    return Err("Memory index does not exists");
                },
            };
            if mem_addr >= store.memory.len() {
                return Err("Memory addr does not exists");
            }
            let n = data.init.len() as i32;
            let dend = match mem_idx.checked_add(n) {
                Some(x) => x,
                None => {
                    return Err("end overflows");
                },
            };
            if dend > store.memory[mem_addr].data.len() as i32 {
                return Err("dend is larger than mem_inst.data");
            }
            proof {
                assert(mem_addr == ma[0].0);
                assert(mk[mem_addr as int].0 == store.memory@[mem_addr as int].data@);
            }
            if data.init.len() > 0 {
                if mem_idx < 0 {
                    return Err("Data's offset is negative");
                }
                let start = mem_idx as usize;
                if start > store.memory[mem_addr].data.len() || data.init.len() > store.memory[mem_addr].data.len() - start {
                    return Err("Data does not fit into the memory");
                }
                let mut instance = store.memory.remove(mem_addr);
                let ok = instance.write(mem_idx as usize, data.init.as_slice());
                store.memory.insert(mem_addr, instance);
                proof {
                    assert(ok);
                    assert(memory_views(store.memory@) =~= mk.update(
                        mem_addr as int,
                        (write_bytes(mk[mem_addr as int].0, mem_idx as int, data.init@), mk[mem_addr as int].1),
                    ));
                }
            }
        }
        k = k + 1;
    }
    proof {
        assert(ds.subrange(0, k as int) =~= ds);
    }
    Ok(())
}

/// The start function of the module: where it names one, its address, which
/// must be that of a function of the store; `None` inside where it names none;
/// `None` outside where the address is missing.
pub open spec fn start_outcome(m: Module, func_addrs: Seq<FuncAddr>, nfuncs: nat) -> Option<Option<FuncAddr>> {
    let ss = flat_map(m.sections@, starts_of());
    if ss.len() == 0 {
        Some(None)
    } else {
        let idx = ss[0].index as int;
        if idx < func_addrs.len() && (func_addrs[idx].0 as int) < nfuncs {
            Some(Some(func_addrs[idx]))
        } else {
            None
        }
    }
}

/// A module names its start function by its first start section: a module
/// with a start section is never taken for one without, a module without one
/// has none, and where the section's index names a function of the store,
/// the start function is that function.
pub proof fn lemma_start_section_named(m: Module, func_addrs: Seq<FuncAddr>, nfuncs: nat)
    ensures
        flat_map(m.sections@, starts_of()).len() > 0 ==> start_outcome(m, func_addrs, nfuncs) != Some(None::<FuncAddr>),
        flat_map(m.sections@, starts_of()).len() == 0 ==> start_outcome(m, func_addrs, nfuncs) == Some(None::<FuncAddr>),
        forall|j: int|
            j == flat_map(m.sections@, starts_of())[0].index && flat_map(m.sections@, starts_of()).len() > 0 && 0 <= j
                < func_addrs.len() && (#[trigger] func_addrs[j]).0 < nfuncs ==> start_outcome(m, func_addrs, nfuncs)
                == Some(Some(func_addrs[j])),
{
}

/// Looks up the start function of the module.
fn instantiate_start(m: &Module, mod_instance: &ModuleInstance, store: &Store) -> (r: EResult<Option<FuncAddr>>)
    ensures
        match start_outcome(*m, mod_instance.spec_func_addrs(), store.funcs@.len()) {
            Some(s) => r == Ok::<Option<FuncAddr>, &'static str>(s),
            None => r is Err,
        },
{
    let starts = get_start(m);
    if starts.len() > 0 {
        let start_section = starts[0];
        let func_addr = match mod_instance.lookup_function_addr(&start_section.index) {
            Some(a) => FuncAddr(a.0),
            None => {
                return Err("Start function addr was not found");
            },
        };
        match store.get_func_instance(&func_addr) {
            Ok(_) => {},
            Err(e) => {
                return Err(e);
            },
        }
        return Ok(Some(func_addr));
    }
    Ok(None)
}

/// Instantiates an allocated module: writes its element segments into the
/// tables and its data segments into the memory, and returns the address of its
/// start function, if it has one. A frame is pushed on the stack while the
/// segments are written and popped again.
pub fn instantiation(m: &Module, mod_instance: &ModuleInstance, store: &mut Store) -> (r: EResult<Option<FuncAddr>>)
    ensures
        ({
            let tables = elements_outcome(
                flat_map(m.sections@, elements_of()),
                mod_instance.spec_table_addrs(),
                mod_instance.spec_func_addrs(),
                mod_instance.spec_global_addrs(),
                old(store).globals@,
                table_views(old(store).tables@),
            );
            let mems = datas_outcome(
                flat_map(m.sections@, data_of()),
                mod_instance.spec_mem_addrs(),
                mod_instance.spec_global_addrs(),
                old(store).globals@,
                memory_views(old(store).memory@),
            );
            let start = start_outcome(*m, mod_instance.spec_func_addrs(), old(store).funcs@.len());
            &&& r is Ok <==> (tables is Done && mems is Done && start is Some)
            &&& r is Ok ==> {
                &&& tables matches Outcome::Done(t) && table_views(final(store).tables@) == t
                &&& mems matches Outcome::Done(d) && memory_views(final(store).memory@) == d
                &&& r == Ok::<Option<FuncAddr>, &'static str>(start.unwrap())
                &&& final(store).stack@ == old(store).stack@
            }
        }),
        final(store).funcs@ == old(store).funcs@,
        final(store).globals@ == old(store).globals@,
{
    let ghost s0 = store.stack@;
    store.stack.push(StackContent::Frame(Frame { locals: Vec::new(), arity: 0 }));
    match instantiate_elements(m, mod_instance, store) {
        Ok(()) => {},
        Err(e) => {
            return Err(e);
        },
    }
    match instantiate_data(m, mod_instance, store) {
        Ok(()) => {},
        Err(e) => {
            return Err(e);
        },
    }
    match store.stack.pop() {
        Some(StackContent::Frame(_)) => {},
        _ => {
            return Err("No frame on the stack");
        },
    }
    proof {
        assert(store.stack@ =~= s0);
    }
    instantiate_start(m, mod_instance, store)
}

} // verus!

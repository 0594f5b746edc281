use vstd::prelude::*;

verus! {

#[verifier::external_type_specification]
#[verifier::external_body]
pub struct ExCellValueError(ic_stable_structures::cell::ValueError);

#[verifier::external_type_specification]
#[verifier::external_body]
pub struct ExCellInitError(ic_stable_structures::cell::InitError);

/// The identifier counter: a `u64` in a stable-memory cell, on the first
/// virtual memory of the canister's stable memory. The cell type's bounds
/// are traits of its crate, which Verus does not take in a type declaration,
/// so the cell sits in this opaque struct.
#[verifier::external_body]
pub struct IdCell {
    cell: ic_stable_structures::Cell<
        u64,
        ic_stable_structures::memory_manager::VirtualMemory<ic_stable_structures::DefaultMemoryImpl>,
    >,
}

/// The number that a counter cell holds.
pub uninterp spec fn cell_value(c: IdCell) -> u64;

/// Relies on ic_stable_structures::Cell::init on the first virtual memory of
/// a memory manager: it reads back a counter stored there before, or writes 0
/// into an empty memory. What it holds, and whether the stored layout is
/// accepted, depends on what the memory already holds, so nothing is promised.
#[verifier::external_body]
pub(crate) fn open_id_cell() -> (r: Result<IdCell, ic_stable_structures::cell::InitError>) {
    let memory = ic_stable_structures::memory_manager::MemoryManager::init(
        ic_stable_structures::DefaultMemoryImpl::default(),
    ).get(ic_stable_structures::memory_manager::MemoryId::new(0));
    ic_stable_structures::Cell::init(memory, 0).map(|cell| IdCell { cell })
}

/// Relies on ic_stable_structures::Cell::get: the value the cell holds.
#[verifier::external_body]
pub(crate) fn id_cell_get(c: &IdCell) -> (r: u64)
    ensures
        r == cell_value(*c),
{
    *c.cell.get()
}

/// Relies on ic_stable_structures::Cell::set: it stores the new value and
/// hands back the old one. A `u64` takes eight bytes, which the page written
/// at creation already holds, so the write never needs to grow memory.
#[verifier::external_body]
pub(crate) fn id_cell_set(c: &mut IdCell, v: u64) -> (r: Result<u64, ic_stable_structures::cell::ValueError>)
    ensures
        r is Ok,
        r->Ok_0 == cell_value(*old(c)),
        cell_value(*final(c)) == v,
{
    c.cell.set(v)
}

} // verus!

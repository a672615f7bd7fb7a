use vstd::prelude::*;
use crate::bricks::{BrickMap, Brickmap};
use crate::gpu_types::{BMAlloc, Comando, OBJECT_POOL_MAX_SIZE};
use crate::world::CellsResponse;

verus! {

/// The CPU's record of the GPU brick pool: the placements made, and the
/// slot the next brick goes to.
pub struct ObjectPool {
    pub data: Vec<BMAlloc>,
    pub indice: u32,
}

/// The instructions for the allocator shader this frame.
pub struct CommandBuffer {
    pub comandos: Vec<Comando>,
}

/// A pool record never reaches the pool's size, and its cursor is a slot.
pub open spec fn pool_wf(data: Seq<BMAlloc>, indice: u32) -> bool {
    data.len() < OBJECT_POOL_MAX_SIZE && indice < OBJECT_POOL_MAX_SIZE
}

impl ObjectPool {
    /// The record of an unused pool.
    pub fn new() -> (r: ObjectPool)
        ensures
            r.data@.len() == 0,
            r.indice == 0,
            pool_wf(r.data@, r.indice),
    {
        ObjectPool { data: Vec::new(), indice: 0 }
    }
}

impl CommandBuffer {
    /// No instructions.
    pub fn new() -> (r: CommandBuffer)
        ensures
            r.comandos@.len() == 0,
    {
        CommandBuffer { comandos: Vec::new() }
    }
}

/// The pool record and the instructions produced so far.
pub struct PoolTrace {
    pub data: Seq<BMAlloc>,
    pub indice: u32,
    pub comandos: Seq<Comando>,
}

/// The sixteen zero words of an empty brick.
pub open spec fn zero_words() -> [u32; 16] {
    vstd::array::spec_array_fill_for_copy_type::<u32, 16>(0u32)
}

/// The cursor after a brick has been placed: the next slot, back to 0
/// after the last one.
pub open spec fn next_slot(indice: u32) -> u32 {
    if indice < OBJECT_POOL_MAX_SIZE - 1 {
        (indice + 1) as u32
    } else {
        0
    }
}

/// Handling one answered cell. An empty cell (`None`) gets an instruction
/// that marks it empty and leaves the pool alone. A brick goes to the slot
/// under the cursor: while the pool is not full its placement is appended
/// to the record; once the record holds all but one slot, the placement
/// replaces the one at the cursor, whose cell is freed (when the cursor is
/// past the record's end nothing is recorded and nothing freed). The cursor
/// then moves on by one slot.
pub open spec fn pool_step(t: PoolTrace, item: (Option<BrickMap>, u32)) -> PoolTrace {
    let id = item.1;
    match item.0 {
        None => PoolTrace {
            data: t.data,
            indice: t.indice,
            comandos: t.comandos.push(
                Comando {
                    allocar: BMAlloc { bm_idx: id, bm_buffer_idx: 0 },
                    deallocar: id,
                    datos: Brickmap { datos: zero_words() },
                    com: 0,
                },
            ),
        },
        Some(b) => {
            let ind = t.indice;
            let placed = BMAlloc { bm_idx: id, bm_buffer_idx: ind };
            let full = t.data.len() + 1 == OBJECT_POOL_MAX_SIZE;
            let freed = if full && ind < t.data.len() {
                t.data[ind as int].bm_idx
            } else {
                id
            };
            let data = if !full {
                t.data.push(placed)
            } else if ind < t.data.len() {
                t.data.update(ind as int, placed)
            } else {
                t.data
            };
            PoolTrace {
                data,
                indice: next_slot(ind),
                comandos: t.comandos.push(
                    Comando {
                        allocar: placed,
                        deallocar: freed,
                        datos: Brickmap { datos: b.datos },
                        com: 1,
                    },
                ),
            }
        },
    }
}

/// Handling the cells of one response, in order.
pub open spec fn pool_cells(t: PoolTrace, items: Seq<(Option<BrickMap>, u32)>) -> PoolTrace
    decreases items.len(),
{
    if items.len() == 0 {
        t
    } else {
        pool_step(pool_cells(t, items.drop_last()), items.last())
    }
}

/// Handling a frame's responses, in order.
pub open spec fn pool_responses(t: PoolTrace, resps: Seq<CellsResponse>) -> PoolTrace
    decreases resps.len(),
{
    if resps.len() == 0 {
        t
    } else {
        pool_cells(pool_responses(t, resps.drop_last()), resps.last().0@)
    }
}

/// Handles the bricks answered this frame: each answered cell gets one
/// instruction for the allocator shader, bricks are placed in the pool as
/// `pool_step` says, and the frame's instructions replace those of the last
/// frame.
pub fn cell_receiver_allocator(
    responses: &Vec<CellsResponse>,
    command_buffer: &mut CommandBuffer,
    object_pool: &mut ObjectPool,
)
    requires
        pool_wf(old(object_pool).data@, old(object_pool).indice),
    ensures
        ({
            let t = pool_responses(
                PoolTrace {
                    data: old(object_pool).data@,
                    indice: old(object_pool).indice,
                    comandos: Seq::empty(),
                },
                responses@,
            );
            &&& final(object_pool).data@ == t.data
            &&& final(object_pool).indice == t.indice
            &&& final(command_buffer).comandos@ == t.comandos
        }),
        pool_wf(final(object_pool).data@, final(object_pool).indice),
        empty_cells_free_nothing(final(command_buffer).comandos@),
{
    let ghost t0 = PoolTrace {
        data: object_pool.data@,
        indice: object_pool.indice,
        comandos: Seq::empty(),
    };
    let mut comandos: Vec<Comando> = Vec::new();
    let mut i: usize = 0;
    while i < responses.len()
        invariant
            i <= responses.len(),
            pool_wf(object_pool.data@, object_pool.indice),
            ({
                let t = pool_responses(t0, responses@.take(i as int));
                &&& object_pool.data@ == t.data
                &&& object_pool.indice == t.indice
                &&& comandos@ == t.comandos
            }),
        decreases responses.len() - i,
    {
        let items = &responses[i].0;
        let ghost tr = pool_responses(t0, responses@.take(i as int));
        let mut j: usize = 0;
        while j < items.len()
            invariant
                j <= items.len(),
                pool_wf(object_pool.data@, object_pool.indice),
                ({
                    let t = pool_cells(tr, items@.take(j as int));
                    &&& object_pool.data@ == t.data
                    &&& object_pool.indice == t.indice
                    &&& comandos@ == t.comandos
                }),
            decreases items.len() - j,
        {
            let item = &items[j];
            proof {
                assert(items@.take(j + 1).drop_last() =~= items@.take(j as int));
            }
            let id = item.1;
            match item.0 {
                None => {
                    let empty = BrickMap::default();
                    let datos = Brickmap::cpu_to_gpu(empty);
                    assert(datos.datos =~= zero_words());
                    comandos.push(
                        Comando {
                            allocar: BMAlloc { bm_idx: id, bm_buffer_idx: 0 },
                            deallocar: id,
                            datos,
                            com: 0,
                        },
                    );
                },
                Some(brick) => {
                    let indice = object_pool.indice;
                    let placed = BMAlloc { bm_idx: id, bm_buffer_idx: indice };
                    if object_pool.data.len() + 1 == OBJECT_POOL_MAX_SIZE {
                        let ghost before = object_pool.data@;
                        object_pool.data.push(placed);
                        let removido = object_pool.data.swap_remove(indice as usize);
                        proof {
                            if (indice as int) < before.len() {
                                assert(object_pool.data@ =~= before.update(indice as int, placed));
                            } else {
                                assert(object_pool.data@ =~= before);
                            }
                        }
                        comandos.push(
                            Comando {
                                allocar: placed,
                                deallocar: removido.bm_idx,
                                datos: Brickmap::cpu_to_gpu(brick),
                                com: 1,
                            },
                        );
                    } else {
                        object_pool.data.push(placed);
                        comandos.push(
                            Comando {
                                allocar: placed,
                                deallocar: id,
                                datos: Brickmap::cpu_to_gpu(brick),
                                com: 1,
                            },
                        );
                    }
                    if object_pool.indice < (OBJECT_POOL_MAX_SIZE - 1) as u32 {
                        object_pool.indice = object_pool.indice + 1;
                    } else {
                        object_pool.indice = 0;
                    }
                },
            }
            j = j + 1;
        }
        proof {
            assert(items@.take(items.len() as int) =~= items@);
            assert(responses@.take(i + 1).drop_last() =~= responses@.take(i as int));
        }
        i = i + 1;
    }
    proof {
        assert(responses@.take(responses.len() as int) =~= responses@);
        law_responses_empty_free_nothing(t0, responses@);
    }
    command_buffer.comandos = comandos;
}

} // verus!

verus! {

/// How many of `items` carry a brick.
pub open spec fn count_bricks(items: Seq<(Option<BrickMap>, u32)>) -> nat
    decreases items.len(),
{
    if items.len() == 0 {
        0
    } else {
        count_bricks(items.drop_last()) + if items.last().0 is Some {
            1nat
        } else {
            0nat
        }
    }
}

/// Handling answered cells keeps the pool record within the pool and its
/// cursor on a slot; the record never shrinks, and once it holds all but
/// one slot it keeps that size.
pub proof fn law_pool_stays_bounded(t: PoolTrace, items: Seq<(Option<BrickMap>, u32)>)
    requires
        pool_wf(t.data, t.indice),
    ensures
        pool_wf(pool_cells(t, items).data, pool_cells(t, items).indice),
        pool_cells(t, items).data.len() >= t.data.len(),
        t.data.len() == OBJECT_POOL_MAX_SIZE - 1 ==> pool_cells(t, items).data.len()
            == OBJECT_POOL_MAX_SIZE - 1,
    decreases items.len(),
{
    if items.len() > 0 {
        law_pool_stays_bounded(t, items.drop_last());
    }
}

/// Each answered cell gets exactly one instruction, in order: it places
/// that cell, it is marked as carrying data exactly when the cell has a
/// brick, and then it carries that brick's words.
pub proof fn law_pool_one_command_per_cell(t: PoolTrace, items: Seq<(Option<BrickMap>, u32)>)
    ensures
        ({
            let r = pool_cells(t, items);
            &&& r.comandos.len() == t.comandos.len() + items.len()
            &&& forall|i: int| 0 <= i < t.comandos.len() ==> r.comandos[i] == t.comandos[i]
            &&& forall|i: int|
                0 <= i < items.len() ==> {
                    let c = #[trigger] r.comandos[t.comandos.len() + i];
                    &&& c.allocar.bm_idx == items[i].1
                    &&& (c.com == 1) == (items[i].0 is Some)
                    &&& (c.com == 0) == (items[i].0 is None)
                    &&& (items[i].0 is Some ==> c.datos.datos == items[i].0.unwrap().datos)
                    &&& (items[i].0 is None ==> c.deallocar == items[i].1 && c.allocar.bm_buffer_idx == 0
                        && c.datos.datos@ == Seq::new(16, |w: int| 0u32))
                }
        }),
    decreases items.len(),
{
    if items.len() > 0 {
        let pre = items.drop_last();
        law_pool_one_command_per_cell(t, pre);
        let r = pool_cells(t, items);
        let rp = pool_cells(t, pre);
        if items.last().0 is None {
            assert(zero_words()@ =~= Seq::new(16, |w: int| 0u32));
        }
        assert forall|i: int| 0 <= i < items.len() implies {
            let c = #[trigger] r.comandos[t.comandos.len() + i];
            &&& c.allocar.bm_idx == items[i].1
            &&& (c.com == 1) == (items[i].0 is Some)
            &&& (c.com == 0) == (items[i].0 is None)
            &&& (items[i].0 is Some ==> c.datos.datos == items[i].0.unwrap().datos)
            &&& (items[i].0 is None ==> c.deallocar == items[i].1 && c.allocar.bm_buffer_idx == 0
                && c.datos.datos@ == Seq::new(16, |w: int| 0u32))
        } by {
            if i < items.len() - 1 {
                assert(pre[i] == items[i]);
                assert(r.comandos[t.comandos.len() + i] == rp.comandos[t.comandos.len() + i]);
            }
        }
    }
}

/// Bricks take the pool's slots in turn: the `n`-th brick handled goes to
/// the slot `n` places after the cursor's start, counted round the pool,
/// and the cursor ends that many places on.
pub proof fn law_pool_round_robin(t: PoolTrace, items: Seq<(Option<BrickMap>, u32)>)
    requires
        pool_wf(t.data, t.indice),
    ensures
        ({
            let r = pool_cells(t, items);
            &&& r.indice == (t.indice + count_bricks(items)) % (OBJECT_POOL_MAX_SIZE as int)
            &&& forall|i: int|
                0 <= i < items.len() && items[i].0 is Some ==> (#[trigger] r.comandos[t.comandos.len()
                    + i]).allocar.bm_buffer_idx == (t.indice + count_bricks(items.take(i))) % (
                OBJECT_POOL_MAX_SIZE as int)
        }),
    decreases items.len(),
{
    if items.len() > 0 {
        let pre = items.drop_last();
        law_pool_round_robin(t, pre);
        law_pool_stays_bounded(t, pre);
        law_pool_one_command_per_cell(t, pre);
        let r = pool_cells(t, items);
        let rp = pool_cells(t, pre);
        let m = OBJECT_POOL_MAX_SIZE as int;
        assert(rp.indice == (t.indice + count_bricks(pre)) % m);
        if items.last().0 is Some {
            assert(r.indice == next_slot(rp.indice));
            assert(r.indice == (rp.indice + 1) % m);
            assert((t.indice + count_bricks(pre)) % m + 1 == (t.indice + count_bricks(pre) + 1) % m
                || ((t.indice + count_bricks(pre)) % m + 1 == m && (t.indice + count_bricks(pre)
                + 1) % m == 0)) by {
                vstd::arithmetic::div_mod::lemma_add_mod_noop(t.indice + count_bricks(pre), 1, m);
            }
        }
        assert forall|i: int|
            0 <= i < items.len() && items[i].0 is Some implies (#[trigger] r.comandos[t.comandos.len()
            + i]).allocar.bm_buffer_idx == (t.indice + count_bricks(items.take(i))) % m by {
            if i < items.len() - 1 {
                assert(pre[i] == items[i]);
                assert(pre.take(i) =~= items.take(i));
                assert(r.comandos[t.comandos.len() + i] == rp.comandos[t.comandos.len() + i]);
            } else {
                assert(items.take(i) =~= pre);
                assert(rp.comandos.len() == t.comandos.len() + pre.len());
            }
        }
    }
}

} // verus!

verus! {

/// The instructions as uploaded to the allocator shader.
pub struct CommandUpload {
    /// The shader's instruction buffer: the frame's instructions, last
    /// first, then blank ones up to the buffer's length.
    pub commands_pool: Vec<Comando>,
    /// How many instructions the frame has.
    pub command_buffer_size: u32,
    /// Whether the frame has more instructions than a frame is expected to.
    pub too_many: bool,
}

/// Length of the shader's instruction buffer.
pub const COMMANDS_POOL_SIZE: usize = 512;

/// Lays the frame's instructions out for the allocator shader: the buffer
/// holds them from the last to the first, then blank instructions; the
/// count is passed along, and more than 254 instructions are flagged.
pub fn resource_to_buffer(command_buffer: &CommandBuffer) -> (r: CommandUpload)
    requires
        command_buffer.comandos@.len() <= COMMANDS_POOL_SIZE,
    ensures
        ({
            let c = command_buffer.comandos@;
            let n = c.len();
            &&& r.commands_pool@.len() == COMMANDS_POOL_SIZE
            &&& forall|i: int| 0 <= i < n ==> #[trigger] r.commands_pool@[i] == c[n - 1 - i]
            &&& forall|i: int| n <= i < COMMANDS_POOL_SIZE ==> (#[trigger] r.commands_pool@[i]).is_blank()
            &&& r.command_buffer_size == n
            &&& r.too_many == (n >= 255)
        }),
{
    let comandos = &command_buffer.comandos;
    let com_len = comandos.len();
    let mut aux: Vec<Comando> = Vec::new();
    let mut i: usize = 0;
    while i < COMMANDS_POOL_SIZE
        invariant
            i <= COMMANDS_POOL_SIZE,
            com_len == comandos@.len(),
            com_len <= COMMANDS_POOL_SIZE,
            aux@.len() == i,
            forall|j: int| 0 <= j < i && j < com_len ==> #[trigger] aux@[j] == comandos@[com_len - 1 - j],
            forall|j: int| com_len <= j < i ==> (#[trigger] aux@[j]).is_blank(),
        decreases COMMANDS_POOL_SIZE - i,
    {
        if i < com_len {
            aux.push(comandos[com_len - 1 - i]);
        } else {
            aux.push(Comando::default());
        }
        i = i + 1;
    }
    CommandUpload {
        commands_pool: aux,
        command_buffer_size: com_len as u32,
        too_many: com_len >= 255,
    }
}

/// Every instruction that carries no data frees nothing: the cell it frees
/// is the cell it places, in slot 0.
pub open spec fn empty_cells_free_nothing(cmds: Seq<Comando>) -> bool {
    forall|i: int|
        0 <= i < cmds.len() && (#[trigger] cmds[i]).com == 0 ==> cmds[i].deallocar
            == cmds[i].allocar.bm_idx && cmds[i].allocar.bm_buffer_idx == 0
}

/// An empty cell leaves the pool record and its cursor as they were, whatever
/// they hold, and its instruction places the cell itself in slot 0, frees
/// nothing and carries zero words.
pub proof fn law_empty_cell_frees_nothing(t: PoolTrace, id: u32)
    ensures
        ({
            let r = pool_step(t, (None::<BrickMap>, id));
            let c = r.comandos.last();
            &&& r.data == t.data
            &&& r.indice == t.indice
            &&& r.comandos.len() == t.comandos.len() + 1
            &&& r.comandos.drop_last() == t.comandos
            &&& c.allocar.bm_idx == id
            &&& c.allocar.bm_buffer_idx == 0
            &&& c.deallocar == id
            &&& c.com == 0
            &&& c.datos.datos@ == Seq::new(16, |w: int| 0u32)
        }),
{
    let r = pool_step(t, (None::<BrickMap>, id));
    assert(zero_words()@ =~= Seq::new(16, |w: int| 0u32));
    assert(r.comandos.drop_last() =~= t.comandos);
}

/// Handling answered cells only ever adds instructions that free nothing
/// for empty cells.
pub proof fn law_cells_empty_free_nothing(t: PoolTrace, items: Seq<(Option<BrickMap>, u32)>)
    requires
        empty_cells_free_nothing(t.comandos),
    ensures
        empty_cells_free_nothing(pool_cells(t, items).comandos),
    decreases items.len(),
{
    if items.len() > 0 {
        law_cells_empty_free_nothing(t, items.drop_last());
        let rp = pool_cells(t, items.drop_last());
        let r = pool_cells(t, items);
        assert forall|i: int|
            0 <= i < r.comandos.len() && (#[trigger] r.comandos[i]).com == 0 implies r.comandos[i].deallocar
            == r.comandos[i].allocar.bm_idx && r.comandos[i].allocar.bm_buffer_idx == 0 by {
            if i < rp.comandos.len() {
                assert(r.comandos[i] == rp.comandos[i]);
            }
        }
    }
}

/// Handling a frame's responses only ever adds instructions that free
/// nothing for empty cells.
pub proof fn law_responses_empty_free_nothing(t: PoolTrace, resps: Seq<CellsResponse>)
    requires
        empty_cells_free_nothing(t.comandos),
    ensures
        empty_cells_free_nothing(pool_responses(t, resps).comandos),
    decreases resps.len(),
{
    if resps.len() > 0 {
        law_responses_empty_free_nothing(t, resps.drop_last());
        law_cells_empty_free_nothing(pool_responses(t, resps.drop_last()), resps.last().0@);
    }
}

/// Placing a brick for cell `id`: it goes to the slot under the cursor and
/// the cursor moves to the next slot, round the pool. While the record
/// holds fewer than 99,999 placements the placement is appended and nothing
/// is freed; once it holds 99,999, the placement at the cursor is replaced
/// and its cell freed (past the record's end nothing is recorded or freed).
pub proof fn law_brick_placement(t: PoolTrace, b: BrickMap, id: u32)
    requires
        pool_wf(t.data, t.indice),
    ensures
        ({
            let r = pool_step(t, (Some(b), id));
            let c = r.comandos.last();
            let placed = BMAlloc { bm_idx: id, bm_buffer_idx: t.indice };
            &&& c.allocar == placed
            &&& c.com == 1
            &&& c.datos.datos == b.datos
            &&& r.comandos.drop_last() == t.comandos
            &&& r.indice as int == (t.indice + 1) % 100000
            &&& (t.data.len() < 99999 ==> r.data == t.data.push(placed) && c.deallocar == id)
            &&& (t.data.len() == 99999 && t.indice < 99999 ==> r.data == t.data.update(
                t.indice as int,
                placed,
            ) && c.deallocar == t.data[t.indice as int].bm_idx)
            &&& (t.data.len() == 99999 && t.indice == 99999 ==> r.data == t.data && c.deallocar == id)
        }),
{
    let r = pool_step(t, (Some(b), id));
    assert(r.comandos.drop_last() =~= t.comandos);
}

} // verus!

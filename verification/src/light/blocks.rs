//! Splitting a function's instructions into basic blocks.

use vstd::prelude::*;
use crate::lhm::{
    block_targets, block_targets_get, block_targets_insert, block_targets_new, find_key,
    lemma_find_key_distinct, lhm_get,
};
use crate::light::opcodes::{Opcode, jump_target};

verus! {

/// A straight run of instructions.
#[derive(Clone, PartialEq, Debug)]
pub struct BBlock {
    pub opcodes: Vec<Opcode>,
}

impl BBlock {
    /// A block with no instruction.
    pub fn empty() -> (b: BBlock)
        ensures
            b.opcodes@ == Seq::<Opcode>::empty(),
    {
        BBlock { opcodes: Vec::new() }
    }

    /// Appends an instruction to the block.
    pub fn push(&mut self, o: Opcode)
        ensures
            final(self).opcodes@ == old(self).opcodes@.push(o),
    {
        self.opcodes.push(o);
    }
}

/// Whether some jump of `code` goes to instruction `i`.
pub open spec fn is_target(code: Seq<Opcode>, i: int) -> bool {
    exists|j: int| 0 <= j < code.len() && #[trigger] jump_target(code[j]) == Some(i as u32)
}

/// The number of `BlockStart` markers before instruction `i`: the block
/// number that instruction `i` belongs to.
pub open spec fn block_id_at(code: Seq<Opcode>, i: int) -> nat
    decreases i,
{
    if i <= 0 {
        0
    } else {
        block_id_at(code, i - 1) + if code[i - 1] is BlockStart {
            1nat
        } else {
            0nat
        }
    }
}

/// The blocks closed so far and the open block, after the first `k`
/// instructions. A jump target begins a new block; `BlockEnd` and `Return`
/// close the open block and are dropped, as is `BlockStart`; every other
/// instruction joins the open block.
pub open spec fn split_blocks(code: Seq<Opcode>, k: int) -> (Seq<Seq<Opcode>>, Seq<Opcode>)
    decreases k,
{
    if k <= 0 {
        (Seq::empty(), Seq::empty())
    } else {
        let (bs, bb) = split_blocks(code, k - 1);
        let i = k - 1;
        let (bs, bb) = if is_target(code, i) && bb.len() > 0 {
            (bs.push(bb), Seq::empty())
        } else {
            (bs, bb)
        };
        match code[i] {
            Opcode::BlockEnd => (bs.push(bb), Seq::empty()),
            Opcode::Return => (bs.push(bb), Seq::empty()),
            Opcode::BlockStart => (bs, bb),
            op => (bs, bb.push(op)),
        }
    }
}

/// The closed blocks of `code`; instructions after the last closing one are
/// not part of any block.
pub open spec fn raw_blocks(code: Seq<Opcode>) -> Seq<Seq<Opcode>> {
    split_blocks(code, code.len() as int).0
}

/// A jump with its target replaced by one more than the block number of the
/// instruction it went to; any other instruction unchanged.
pub open spec fn retarget(code: Seq<Opcode>, op: Opcode) -> Opcode {
    match op {
        Opcode::Jump(t) => Opcode::Jump((block_id_at(code, t as int) + 1) as u32),
        Opcode::JumpIf(t) => Opcode::JumpIf((block_id_at(code, t as int) + 1) as u32),
        Opcode::JumpIfFalse(t) => Opcode::JumpIfFalse((block_id_at(code, t as int) + 1) as u32),
        _ => op,
    }
}

/// A block's instructions retargeted, without its labels.
pub open spec fn finish_block(code: Seq<Opcode>, b: Seq<Opcode>) -> Seq<Opcode>
    decreases b.len(),
{
    if b.len() == 0 {
        Seq::empty()
    } else {
        let rest = finish_block(code, b.drop_last());
        if b.last() is Label {
            rest
        } else {
            rest.push(retarget(code, b.last()))
        }
    }
}

/// Every jump inside a closed block goes to an instruction of `code`.
pub open spec fn jumps_resolve(code: Seq<Opcode>) -> bool {
    forall|b: int, j: int|
        0 <= b < raw_blocks(code).len() && 0 <= j < raw_blocks(code)[b].len() ==> (
        #[trigger] jump_target(raw_blocks(code)[b][j]) matches Some(t) ==> t < code.len())
}

proof fn lemma_block_id_bound(code: Seq<Opcode>, i: int)
    requires
        0 <= i,
    ensures
        block_id_at(code, i) <= i,
    decreases i,
{
    if i > 0 {
        lemma_block_id_bound(code, i - 1);
    }
}

/// Splits `code` into basic blocks: each closed block, retargeted and
/// without labels, in order.
pub fn translate_to_blocks(code: Vec<Opcode>) -> (blocks: Vec<BBlock>)
    requires
        code@.len() < u32::MAX,
        jumps_resolve(code@),
    ensures
        blocks@.len() == raw_blocks(code@).len(),
        forall|b: int|
            0 <= b < blocks@.len() ==> #[trigger] blocks@[b].opcodes@ == finish_block(
                code@,
                raw_blocks(code@)[b],
            ),
{
    let n = code.len();
    let mut leader: Vec<bool> = Vec::new();
    let mut i: usize = 0;
    while i < n
        invariant
            n == code@.len(),
            i <= n,
            leader@.len() == i,
            forall|x: int| 0 <= x < i ==> !#[trigger] leader@[x],
        decreases n - i,
    {
        leader.push(false);
        i = i + 1;
    }
    let mut j: usize = 0;
    while j < n
        invariant
            n == code@.len(),
            n < u32::MAX,
            j <= n,
            leader@.len() == n,
            forall|x: int|
                0 <= x < n ==> (#[trigger] leader@[x] <==> exists|y: int|
                    0 <= y < j && #[trigger] jump_target(code@[y]) == Some(x as u32)),
        decreases n - j,
    {
        let t: Option<u32> = match code[j] {
            Opcode::Jump(t) => Some(t),
            Opcode::JumpIf(t) => Some(t),
            Opcode::JumpIfFalse(t) => Some(t),
            _ => None,
        };
        assert(t == jump_target(code@[j as int]));
        let ghost old_leader = leader@;
        if let Some(t) = t {
            if (t as usize) < n {
                leader.set(t as usize, true);
            }
        }
        proof {
            assert forall|x: int| 0 <= x < n implies (#[trigger] leader@[x] <==> exists|y: int|
                0 <= y < j + 1 && #[trigger] jump_target(code@[y]) == Some(x as u32)) by {
                if jump_target(code@[j as int]) == Some(x as u32) {
                    assert(0 <= j < j + 1);
                    assert(leader@[x]);
                } else {
                    assert(leader@[x] == old_leader[x]);
                    if exists|y: int| 0 <= y < j + 1 && #[trigger] jump_target(code@[y]) == Some(x as u32) {
                        let y = choose|y: int| 0 <= y < j + 1 && #[trigger] jump_target(code@[y]) == Some(x as u32);
                        assert(y != j);
                        assert(0 <= y < j);
                    }
                }
            }
        }
        j = j + 1;
    }
    let mut targets = block_targets_new();
    let mut blocks: Vec<BBlock> = Vec::new();
    let mut bb = BBlock::empty();
    let mut block_id: u32 = 0;
    let mut k: usize = 0;
    while k < n
        invariant
            n == code@.len(),
            n < u32::MAX,
            k <= n,
            leader@.len() == n,
            forall|x: int| 0 <= x < n ==> (#[trigger] leader@[x] <==> is_target(code@, x)),
            block_id == block_id_at(code@, k as int),
            block_targets(targets).len() == k,
            forall|x: int|
                0 <= x < k ==> #[trigger] block_targets(targets)[x] == (
                    x as usize,
                    block_id_at(code@, x) as u32,
                ),
            blocks@.len() == split_blocks(code@, k as int).0.len(),
            forall|b: int|
                0 <= b < blocks@.len() ==> #[trigger] blocks@[b].opcodes@ == split_blocks(
                    code@,
                    k as int,
                ).0[b],
            bb.opcodes@ == split_blocks(code@, k as int).1,
        decreases n - k,
    {
        proof {
            lemma_block_id_bound(code@, k as int);
            assert forall|x: int| 0 <= x < k implies block_targets(targets)[x].0 != k by {}
        }
        let ghost before = block_targets(targets);
        block_targets_insert(&mut targets, k, block_id);
        proof {
            assert(find_key(before, k) == -1) by {
                crate::lhm::lemma_find_key_bounds(before, k);
            }
        }
        if leader[k] && bb.opcodes.len() > 0 {
            blocks.push(bb);
            bb = BBlock::empty();
        }
        let op = code[k];
        match op {
            Opcode::BlockEnd => {
                blocks.push(bb);
                bb = BBlock::empty();
            },
            Opcode::BlockStart => {
                block_id = block_id + 1;
            },
            Opcode::Return => {
                blocks.push(bb);
                bb = BBlock::empty();
            },
            _ => {
                bb.push(op);
            },
        }
        proof {
            let (bs0, bb0) = split_blocks(code@, k as int);
            assert(split_blocks(code@, k + 1) == {
                let (bs, bb) = if is_target(code@, k as int) && bb0.len() > 0 {
                    (bs0.push(bb0), Seq::<Opcode>::empty())
                } else {
                    (bs0, bb0)
                };
                match code@[k as int] {
                    Opcode::BlockEnd => (bs.push(bb), Seq::<Opcode>::empty()),
                    Opcode::Return => (bs.push(bb), Seq::<Opcode>::empty()),
                    Opcode::BlockStart => (bs, bb),
                    op => (bs, bb.push(op)),
                }
            });
            assert forall|b: int|
                0 <= b < blocks@.len() implies #[trigger] blocks@[b].opcodes@ == split_blocks(
                code@,
                k + 1,
            ).0[b] by {}
        }
        k = k + 1;
    }
    let mut out: Vec<BBlock> = Vec::new();
    let mut b: usize = 0;
    let ghost raw = raw_blocks(code@);
    while b < blocks.len()
        invariant
            n == code@.len(),
            n < u32::MAX,
            raw == raw_blocks(code@),
            blocks@.len() == raw.len(),
            forall|x: int| 0 <= x < blocks@.len() ==> #[trigger] blocks@[x].opcodes@ == raw[x],
            block_targets(targets).len() == n,
            forall|x: int|
                0 <= x < n ==> #[trigger] block_targets(targets)[x] == (
                    x as usize,
                    block_id_at(code@, x) as u32,
                ),
            jumps_resolve(code@),
            b <= blocks@.len(),
            out@.len() == b,
            forall|x: int|
                0 <= x < b ==> #[trigger] out@[x].opcodes@ == finish_block(code@, raw[x]),
        decreases blocks@.len() - b,
    {
        let src = &blocks[b].opcodes;
        let mut fin = BBlock::empty();
        let mut q: usize = 0;
        while q < src.len()
            invariant
                n == code@.len(),
                n < u32::MAX,
                raw == raw_blocks(code@),
                0 <= b < raw.len(),
                src@ == raw[b as int],
                block_targets(targets).len() == n,
                forall|x: int|
                    0 <= x < n ==> #[trigger] block_targets(targets)[x] == (
                        x as usize,
                        block_id_at(code@, x) as u32,
                    ),
                jumps_resolve(code@),
                q <= src@.len(),
                fin.opcodes@ == finish_block(code@, src@.take(q as int)),
            decreases src@.len() - q,
        {
            let op = src[q];
            proof {
                assert(src@.take(q + 1).drop_last() =~= src@.take(q as int));
                assert(src@.take(q + 1).last() == op);
                assert(jump_target(raw[b as int][q as int]) == jump_target(op));
            }
            match op {
                Opcode::Label => {},
                Opcode::Jump(t) => {
                    let nt = resolve(&targets, t, Ghost(code@));
                    fin.push(Opcode::Jump(nt));
                },
                Opcode::JumpIf(t) => {
                    let nt = resolve(&targets, t, Ghost(code@));
                    fin.push(Opcode::JumpIf(nt));
                },
                Opcode::JumpIfFalse(t) => {
                    let nt = resolve(&targets, t, Ghost(code@));
                    fin.push(Opcode::JumpIfFalse(nt));
                },
                _ => {
                    fin.push(op);
                },
            }
            q = q + 1;
        }
        proof {
            assert(src@.take(src@.len() as int) =~= src@);
        }
        out.push(fin);
        b = b + 1;
    }
    out
}

/// The new target of a jump to instruction `t`: one more than the number of
/// the block that instruction belongs to.
fn resolve(targets: &hashlink::LinkedHashMap<usize, u32>, t: u32, Ghost(code): Ghost<Seq<Opcode>>) -> (r: u32)
    requires
        t < code.len(),
        code.len() < u32::MAX,
        block_targets(*targets).len() == code.len(),
        forall|x: int|
            0 <= x < code.len() ==> #[trigger] block_targets(*targets)[x] == (
                x as usize,
                block_id_at(code, x) as u32,
            ),
    ensures
        r == block_id_at(code, t as int) + 1,
{
    proof {
        let e = block_targets(*targets);
        assert forall|a: int, c: int| 0 <= a < c < e.len() implies e[a].0 != e[c].0 by {
            assert(e[a].0 == a as usize);
            assert(e[c].0 == c as usize);
        }
        lemma_find_key_distinct(e, t as int);
        assert(e[t as int].0 == t as usize);
        lemma_block_id_bound(code, t as int);
    }
    let id = block_targets_get(targets, t as usize).unwrap();
    id + 1
}

} // verus!

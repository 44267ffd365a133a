//! Disk Paxos: a logical store of shared disks, one block per
//! (disk, process).

use vstd::prelude::*;
use crate::net::NodeId;

verus! {

/// A disk block: a ballot and the accepted `(ballot, value)`, if any.
#[derive(Clone, Copy, Debug, Default, PartialEq, Eq)]
pub struct Block {
    /// Promised ballot.
    pub ballot: u32,
    /// Accepted `(ballot, value)`.
    pub accepted: Option<(u32, u32)>,
}

/// Order of block addresses: by disk, then by process.
pub open spec fn addr_lt(a: (u32, NodeId), b: (u32, NodeId)) -> bool {
    a.0 < b.0 || (a.0 == b.0 && (a.1).0 < (b.1).0)
}

/// Entries in strictly increasing address order (so each address
/// occurs once).
pub open spec fn sorted_entries(s: Seq<((u32, NodeId), Block)>) -> bool {
    forall|i: int, j: int| 0 <= i < j < s.len() ==> addr_lt(s[i].0, s[j].0)
}

/// The logical shared disks: the latest block written for each
/// `(disk, process)`, kept in address order.
#[derive(Debug)]
pub struct SharedDisks {
    blocks: Vec<((u32, NodeId), Block)>,
}

impl Default for SharedDisks {
    /// Disks with no block written.
    fn default() -> (d: Self)
        ensures
            d.entries().len() == 0,
    {
        SharedDisks::new()
    }
}

impl SharedDisks {
    #[verifier::type_invariant]
    spec fn wf(&self) -> bool {
        sorted_entries(self.blocks@)
    }

    /// The stored entries, in address order.
    pub closed spec fn entries(&self) -> Seq<((u32, NodeId), Block)> {
        self.blocks@
    }

    /// Disks with no block written.
    pub fn new() -> (d: Self)
        ensures
            d.entries().len() == 0,
    {
        SharedDisks { blocks: Vec::new() }
    }

    /// Write `block` for `(disk, process)`, replacing what was there.
    pub fn write(&mut self, disk: u32, process: NodeId, block: Block)
        ensures
            sorted_entries(final(self).entries()),
            final(self).entries().to_set() == old(self).entries().to_set().filter(
                |e: ((u32, NodeId), Block)| e.0 != (disk, process),
            ).insert(((disk, process), block)),
    {
        proof { use_type_invariant(&*self); }
        let key = (disk, process);
        let mut i: usize = 0;
        while i < self.blocks.len()
            invariant_except_break
                i <= self.blocks.len(),
                sorted_entries(self.blocks@),
                forall|k: int| 0 <= k < i ==> addr_lt(#[trigger] self.blocks@[k].0, (disk, process)),
            ensures
                i <= self.blocks.len(),
                sorted_entries(self.blocks@),
                forall|k: int| 0 <= k < i ==> addr_lt(#[trigger] self.blocks@[k].0, (disk, process)),
                i < self.blocks.len() ==> !addr_lt(self.blocks@[i as int].0, (disk, process)),
            decreases self.blocks.len() - i,
        {
            let a = self.blocks[i].0;
            if a.0 > disk || (a.0 == disk && (a.1).0 >= process.0) {
                break;
            }
            i = i + 1;
        }
        let ghost old_s = self.blocks@;
        let mut v = Vec::new();
        std::mem::swap(&mut v, &mut self.blocks);
        if i < v.len() && v[i].0.0 == disk && (v[i].0.1).0 == process.0 {
            v.set(i, (key, block));
            proof {
                assert forall|e: ((u32, NodeId), Block)| v@.contains(e) <==> old_s.to_set().filter(
                    |e: ((u32, NodeId), Block)| e.0 != (disk, process),
                ).insert(((disk, process), block)).contains(e) by {
                    if v@.contains(e) {
                        let k = choose|k: int| 0 <= k < v@.len() && v@[k] == e;
                        if k != i {
                            assert(old_s[k] == e);
                            assert(old_s.contains(e));
                        }
                    }
                    if e.0 != (disk, process) && old_s.contains(e) {
                        let k = choose|k: int| 0 <= k < old_s.len() && old_s[k] == e;
                        assert(v@[k] == e);
                    }
                    if e == ((disk, process), block) {
                        assert(v@[i as int] == e);
                    }
                }
                assert(v@.to_set() =~= old_s.to_set().filter(
                    |e: ((u32, NodeId), Block)| e.0 != (disk, process),
                ).insert(((disk, process), block)));
            }
        } else {
            v.insert(i, (key, block));
            proof {
                assert forall|k: int| i <= k < old_s.len() implies addr_lt(key, old_s[k].0) by {
                    assert(!addr_lt(old_s[i as int].0, key));
                    if k > i {
                        assert(addr_lt(old_s[i as int].0, old_s[k].0));
                    }
                }
                assert forall|e: ((u32, NodeId), Block)| v@.contains(e) <==> old_s.to_set().filter(
                    |e: ((u32, NodeId), Block)| e.0 != (disk, process),
                ).insert(((disk, process), block)).contains(e) by {
                    if v@.contains(e) {
                        let k = choose|k: int| 0 <= k < v@.len() && v@[k] == e;
                        if k < i {
                            assert(old_s[k] == e);
                        } else if k > i {
                            assert(old_s[k - 1] == e);
                        }
                    }
                    if e.0 != (disk, process) && old_s.contains(e) {
                        let k = choose|k: int| 0 <= k < old_s.len() && old_s[k] == e;
                        if k < i {
                            assert(v@[k] == e);
                        } else {
                            assert(v@[k + 1] == e);
                        }
                    }
                    if e == ((disk, process), block) {
                        assert(v@[i as int] == e);
                    }
                }
                assert(v@.to_set() =~= old_s.to_set().filter(
                    |e: ((u32, NodeId), Block)| e.0 != (disk, process),
                ).insert(((disk, process), block)));
            }
        }
        self.blocks = v;
    }

    /// The block written for `(disk, process)`, if any.
    pub fn get(&self, disk: u32, process: NodeId) -> (r: Option<Block>)
        ensures
            match r {
                Some(b) => self.entries().contains(((disk, process), b)),
                None => forall|b: Block| !self.entries().contains(((disk, process), b)),
            },
    {
        let mut i: usize = 0;
        while i < self.blocks.len()
            invariant
                i <= self.blocks.len(),
                forall|k: int| 0 <= k < i ==> (#[trigger] self.blocks@[k]).0 != (disk, process),
            decreases self.blocks.len() - i,
        {
            let e = self.blocks[i];
            if e.0.0 == disk && (e.0.1).0 == process.0 {
                assert(self.blocks@[i as int] == e);
                return Some(e.1);
            }
            i = i + 1;
        }
        None
    }

    /// Every other process's block on `disk`, in process order.
    pub fn read_others(&self, disk: u32, my_id: NodeId) -> (r: Vec<Block>)
        ensures
            r@ == self.entries().filter(
                |e: ((u32, NodeId), Block)| e.0.0 == disk && e.0.1 != my_id,
            ).map_values(|e: ((u32, NodeId), Block)| e.1),
    {
        let mut out: Vec<Block> = Vec::new();
        let mut i: usize = 0;
        while i < self.blocks.len()
            invariant
                i <= self.blocks.len(),
                out@ == self.blocks@.take(i as int).filter(
                    |e: ((u32, NodeId), Block)| e.0.0 == disk && e.0.1 != my_id,
                ).map_values(|e: ((u32, NodeId), Block)| e.1),
            decreases self.blocks.len() - i,
        {
            let e = self.blocks[i];
            let ghost pred = |e: ((u32, NodeId), Block)| e.0.0 == disk && e.0.1 != my_id;
            let ghost f = |e: ((u32, NodeId), Block)| e.1;
            let ghost prev = self.blocks@.take(i as int).filter(pred);
            assert(self.blocks@.take(i + 1).drop_last() =~= self.blocks@.take(i as int));
            assert(self.blocks@.take(i + 1).last() == e);
            proof { reveal(Seq::filter); }
            assert(self.blocks@.take(i + 1).filter(pred) == if pred(e) {
                prev.push(e)
            } else {
                prev
            });
            assert(prev.push(e).map_values(f) =~= prev.map_values(f).push(e.1));
            if e.0.0 == disk && (e.0.1).0 != my_id.0 {
                out.push(e.1);
            }
            i = i + 1;
        }
        assert(self.blocks@.take(i as int) =~= self.blocks@);
        out
    }
}

/// Entries in address order hold at most one block per address.
pub proof fn lemma_one_block_per_address(s: Seq<((u32, NodeId), Block)>, k: (u32, NodeId), b1: Block, b2: Block)
    requires
        sorted_entries(s),
        s.contains((k, b1)),
        s.contains((k, b2)),
    ensures
        b1 == b2,
{
    let i = choose|i: int| 0 <= i < s.len() && s[i] == (k, b1);
    let j = choose|j: int| 0 <= j < s.len() && s[j] == (k, b2);
    if i < j {
        assert(addr_lt(s[i].0, s[j].0));
    } else if j < i {
        assert(addr_lt(s[j].0, s[i].0));
    }
}

/// A read gives back what the last write to the same address wrote:
/// after `write(disk, process, block)` (its contract relating `before`
/// and `after`), whatever `get(disk, process)` may answer on `after`
/// (its contract on `r`) is `Some(block)`.
pub proof fn lemma_read_after_write(
    before: Seq<((u32, NodeId), Block)>,
    after: Seq<((u32, NodeId), Block)>,
    disk: u32,
    process: NodeId,
    block: Block,
    r: Option<Block>,
)
    requires
        sorted_entries(after),
        after.to_set() == before.to_set().filter(|e: ((u32, NodeId), Block)| e.0 != (disk, process)).insert(
            ((disk, process), block),
        ),
        match r {
            Some(b) => after.contains(((disk, process), b)),
            None => forall|b: Block| !after.contains(((disk, process), b)),
        },
    ensures
        r == Some(block),
{
    assert(after.to_set().contains(((disk, process), block)));
    assert(after.contains(((disk, process), block)));
    match r {
        Some(b) => {
            lemma_one_block_per_address(after, (disk, process), b, block);
        },
        None => {},
    }
}

/// A write leaves the other addresses alone: after `write(disk, process,
/// block)`, a block stored at another address on `after` was stored
/// there on `before`, and the other way round.
pub proof fn lemma_write_keeps_other_addresses(
    before: Seq<((u32, NodeId), Block)>,
    after: Seq<((u32, NodeId), Block)>,
    disk: u32,
    process: NodeId,
    block: Block,
    k: (u32, NodeId),
    b: Block,
)
    requires
        k != (disk, process),
        after.to_set() == before.to_set().filter(|e: ((u32, NodeId), Block)| e.0 != (disk, process)).insert(
            ((disk, process), block),
        ),
    ensures
        after.contains((k, b)) <==> before.contains((k, b)),
{
    assert(after.contains((k, b)) <==> after.to_set().contains((k, b)));
    assert(before.contains((k, b)) <==> before.to_set().contains((k, b)));
}

} // verus!

use vstd::prelude::*;

verus! {

/// The voxel id reserved for empty space.
pub const AIR: u32 = 0;

/// An immutable block definition, keyed by a small integer id.
#[derive(Clone, Debug)]
pub struct Block {
    pub id: u32,
    pub name: String,
    pub is_fluid: bool,
    pub is_transparent: bool,
    pub is_light: bool,
    pub red_light_level: u32,
    pub green_light_level: u32,
    pub blue_light_level: u32,
    pub faces: Vec<String>,
}

/// The set of registered block definitions of a world. Ids are assigned in
/// registration order, so the id of a block is its index; id `AIR` is the
/// built-in empty block.
pub struct Registry {
    pub blocks: Vec<Block>,
}

impl Registry {
    /// Well-formed: at least the air block, ids equal to indices, air not a
    /// fluid, and no two blocks sharing a name.
    pub open spec fn wf(self) -> bool {
        &&& self.blocks.len() >= 1
        &&& self.blocks.len() <= u32::MAX
        &&& forall|i: int| 0 <= i < self.blocks.len() ==> #[trigger] self.blocks[i].id == i
        &&& !self.blocks[0].is_fluid
        &&& forall|i: int, j: int|
            0 <= i < self.blocks.len() && 0 <= j < self.blocks.len() && i != j
                ==> #[trigger] self.blocks[i].name@ != #[trigger] self.blocks[j].name@
    }

    /// The definition a given id resolves to: the block registered under it,
    /// or air for an unknown id.
    pub open spec fn block_of_id(self, id: int) -> Block {
        if 0 <= id < self.blocks.len() {
            self.blocks[id]
        } else {
            self.blocks[0]
        }
    }

    /// Whether a voxel id blocks motion: anything other than air that is not
    /// a fluid.
    pub open spec fn solid_spec(self, id: int) -> bool {
        id != AIR && !self.block_of_id(id).is_fluid
    }

    /// Whether a voxel id is a fluid.
    pub open spec fn fluid_spec(self, id: int) -> bool {
        self.block_of_id(id).is_fluid
    }

    /// The first registered block with the given name, searching from
    /// index `i`; air when no block carries the name.
    pub open spec fn block_by_name_from(self, name: Seq<char>, i: int) -> Block
        decreases self.blocks.len() - i,
    {
        if i < 0 || i >= self.blocks.len() {
            self.blocks[0]
        } else if self.blocks[i].name@ == name {
            self.blocks[i]
        } else {
            self.block_by_name_from(name, i + 1)
        }
    }

    /// The block a name resolves to: the block registered under it, or air
    /// for an unknown name.
    pub open spec fn block_of_name(self, name: Seq<char>) -> Block {
        self.block_by_name_from(name, 0)
    }

    /// A new registry holding only the air block.
    pub fn new() -> (r: Registry)
        ensures
            r.wf(),
            r.blocks.len() == 1,
            r.blocks[0].id == AIR,
            !r.blocks[0].is_fluid,
            r.blocks[0].name@ == "air"@,
    {
        let air = Block {
            id: 0,
            name: "air".to_owned(),
            is_fluid: false,
            is_transparent: true,
            is_light: false,
            red_light_level: 0,
            green_light_level: 0,
            blue_light_level: 0,
            faces: Vec::new(),
        };
        let mut blocks: Vec<Block> = Vec::new();
        blocks.push(air);
        Registry { blocks }
    }

    /// Register a block under the next free id; the `id` field of the
    /// argument is ignored and overwritten with the assigned id.
    pub fn register_block(&mut self, block: Block)
        requires
            old(self).wf(),
            old(self).blocks.len() < u32::MAX,
            forall|i: int|
                0 <= i < old(self).blocks.len() ==> #[trigger] old(self).blocks[i].name@
                    != block.name@,
        ensures
            final(self).wf(),
            final(self).blocks.len() == old(self).blocks.len() + 1,
            final(self).blocks[old(self).blocks.len() as int].id == old(self).blocks.len(),
            final(self).blocks[old(self).blocks.len() as int].name@ == block.name@,
            final(self).blocks[old(self).blocks.len() as int].is_fluid == block.is_fluid,
            forall|i: int|
                0 <= i < old(self).blocks.len() ==> final(self).blocks[i] == old(self).blocks[i],
    {
        let id: u32 = self.blocks.len() as u32;
        let mut b = block;
        b.id = id;
        self.blocks.push(b);
    }

    /// Look a block definition up by id; an unknown id resolves to air.
    pub fn get_block_by_id(&self, id: u32) -> (r: &Block)
        requires
            self.wf(),
        ensures
            *r == self.block_of_id(id as int),
    {
        if (id as usize) < self.blocks.len() {
            &self.blocks[id as usize]
        } else {
            &self.blocks[0]
        }
    }

    /// Whether the id blocks motion: anything other than air that is not a
    /// fluid.
    pub fn is_solid(&self, id: u32) -> (r: bool)
        requires
            self.wf(),
        ensures
            r == self.solid_spec(id as int),
    {
        if id == AIR {
            false
        } else {
            !self.get_block_by_id(id).is_fluid
        }
    }

    /// Look a block definition up by name; an unknown name resolves to air.
    pub fn get_block_by_name(&self, name: &String) -> (r: &Block)
        requires
            self.wf(),
        ensures
            *r == self.block_of_name(name@),
    {
        let n = self.blocks.len();
        let mut i: usize = 0;
        while i < n
            invariant
                self.wf(),
                n == self.blocks.len(),
                0 <= i <= n,
                self.block_of_name(name@) == self.block_by_name_from(name@, i as int),
            decreases n - i,
        {
            if self.blocks[i].name == *name {
                return &self.blocks[i];
            }
            i = i + 1;
        }
        &self.blocks[0]
    }
}

/// Looking a registered block up by its own name yields its own id: names are
/// unique in a well-formed registry, so the search from the front stops at it.
pub proof fn lemma_name_lookup_round_trip(reg: Registry, k: int)
    requires
        reg.wf(),
        0 <= k < reg.blocks.len(),
    ensures
        reg.block_of_name(reg.blocks[k].name@).id == reg.blocks[k].id,
{
    lemma_name_search_hits(reg, reg.blocks[k].name@, 0, k);
}

/// The search from index `i` finds the unique block carrying the name.
proof fn lemma_name_search_hits(reg: Registry, name: Seq<char>, i: int, k: int)
    requires
        reg.wf(),
        0 <= i <= k < reg.blocks.len(),
        reg.blocks[k].name@ == name,
    ensures
        reg.block_by_name_from(name, i) == reg.blocks[k],
    decreases reg.blocks.len() - i,
{
    if i == k {
    } else {
        assert(reg.blocks[i].name@ != name);
        lemma_name_search_hits(reg, name, i + 1, k);
    }
}

} // verus!

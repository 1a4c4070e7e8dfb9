//! The chunk graph: which modules each chunk holds, and which chunks hold
//! each module.

use vstd::prelude::*;
use crate::chunk::ChunkUkey;
use crate::module::ModuleIdentifier;
use crate::module_set::{
    module_set_clone, module_set_contains, module_set_contents, module_set_insert, module_set_new,
    ModuleSet,
};
use crate::text::{lemma_index_of_unique, lemma_index_of_within, str_eq, text_views};

verus! {

/// What the chunk graph records about one chunk: its member modules.
pub struct ChunkGraphChunk {
    pub(crate) modules: ModuleSet,
}

impl ChunkGraphChunk {
    /// The identifiers of the member modules.
    pub open(crate) spec fn modules_spec(&self) -> Set<Seq<char>> {
        module_set_contents(self.modules)
    }

    /// Whether the module named `id` is a member.
    pub fn contains_module(&self, id: &ModuleIdentifier) -> (held: bool)
        ensures
            held == self.modules_spec().contains(id@),
    {
        module_set_contains(&self.modules, id.as_str())
    }

    /// A copy of the member set.
    pub fn snapshot_modules(&self) -> (copy: ModuleSet)
        ensures
            module_set_contents(copy) == self.modules_spec(),
    {
        module_set_clone(&self.modules)
    }
}

/// A chunk graph as a mathematical value.
pub struct ChunkGraphView {
    /// The chunks the graph knows, in the order in which they were added.
    pub chunks: Seq<ChunkUkey>,
    /// The member modules of each known chunk.
    pub members: Map<ChunkUkey, Set<Seq<char>>>,
    /// The modules that were connected to some chunk, in the order of their
    /// first connection.
    pub connected: Seq<Seq<char>>,
    /// For each connected module the chunks that hold it, in the order in
    /// which they were connected.
    pub holders: Map<Seq<char>, Seq<ChunkUkey>>,
}

impl ChunkGraphView {
    /// Whether the graph knows the chunk `ukey`.
    pub open spec fn has_chunk(self, ukey: ChunkUkey) -> bool {
        self.chunks.contains(ukey)
    }

    /// The modules of the chunk `ukey`: none where the graph does not know the chunk.
    pub open spec fn modules_of(self, ukey: ChunkUkey) -> Set<Seq<char>> {
        if self.members.dom().contains(ukey) {
            self.members[ukey]
        } else {
            Set::empty()
        }
    }

    /// The chunks that hold the module named `id`: none where the module was
    /// never connected.
    pub open spec fn chunks_of(self, id: Seq<char>) -> Seq<ChunkUkey> {
        if self.holders.dom().contains(id) {
            self.holders[id]
        } else {
            Seq::empty()
        }
    }

    /// The invariant: no chunk and no module is recorded twice, the maps
    /// cover what the lists name, and the two directions agree.
    pub open spec fn wf(self) -> bool {
        &&& self.chunks.no_duplicates()
        &&& self.members.dom() == self.chunks.to_set()
        &&& self.connected.no_duplicates()
        &&& self.holders.dom() == self.connected.to_set()
        &&& forall|ukey: ChunkUkey, id: Seq<char>|
            #![trigger self.modules_of(ukey).contains(id)]
            #![trigger self.chunks_of(id).contains(ukey)]
            self.modules_of(ukey).contains(id) <==> self.chunks_of(id).contains(ukey)
    }

    /// The graph without chunks.
    pub open spec fn empty() -> Self {
        ChunkGraphView {
            chunks: Seq::empty(),
            members: Map::empty(),
            connected: Seq::empty(),
            holders: Map::empty(),
        }
    }

    /// The graph after the chunk `ukey` was made known: unchanged where it
    /// was known already.
    pub open spec fn add_chunk(self, ukey: ChunkUkey) -> Self {
        if self.has_chunk(ukey) {
            self
        } else {
            ChunkGraphView {
                chunks: self.chunks.push(ukey),
                members: self.members.insert(ukey, Set::empty()),
                ..self
            }
        }
    }

    /// The graph after the module named `id` was put into the chunk `ukey`:
    /// unchanged where the chunk is not known, or holds the module already.
    pub open spec fn connect(self, ukey: ChunkUkey, id: Seq<char>) -> Self {
        if !self.has_chunk(ukey) {
            self
        } else {
            ChunkGraphView {
                chunks: self.chunks,
                members: self.members.insert(ukey, self.modules_of(ukey).insert(id)),
                connected: if self.connected.contains(id) {
                    self.connected
                } else {
                    self.connected.push(id)
                },
                holders: self.holders.insert(
                    id,
                    if self.chunks_of(id).contains(ukey) {
                        self.chunks_of(id)
                    } else {
                        self.chunks_of(id).push(ukey)
                    },
                ),
            }
        }
    }
}

/// The two-way mapping between chunks and modules of one compilation.
pub struct ChunkGraph {
    pub(crate) chunk_keys: Vec<ChunkUkey>,
    pub(crate) chunk_entries: Vec<ChunkGraphChunk>,
    pub(crate) module_keys: Vec<ModuleIdentifier>,
    pub(crate) module_entries: Vec<Vec<ChunkUkey>>,
}

impl View for ChunkGraph {
    type V = ChunkGraphView;

    open(crate) spec fn view(&self) -> ChunkGraphView {
        ChunkGraphView {
            chunks: self.chunk_keys@,
            members: Map::new(
                |u: ChunkUkey| self.chunk_keys@.contains(u),
                |u: ChunkUkey| self.chunk_entries@[self.chunk_keys@.index_of(u)].modules_spec(),
            ),
            connected: text_views(self.module_keys@),
            holders: Map::new(
                |m: Seq<char>| text_views(self.module_keys@).contains(m),
                |m: Seq<char>| self.module_entries@[text_views(self.module_keys@).index_of(m)]@,
            ),
        }
    }
}

impl ChunkGraph {
    /// The two vectors of each direction are of one length.
    pub open(crate) spec fn aligned(&self) -> bool {
        &&& self.chunk_keys@.len() == self.chunk_entries@.len()
        &&& self.module_keys@.len() == self.module_entries@.len()
    }

    /// The graph's invariant.
    pub open(crate) spec fn wf(&self) -> bool {
        self.aligned() && self@.wf()
    }

    /// A graph without chunks.
    pub fn new() -> (g: Self)
        ensures
            g.wf(),
            g@ == ChunkGraphView::empty(),
    {
        let g = ChunkGraph {
            chunk_keys: Vec::new(),
            chunk_entries: Vec::new(),
            module_keys: Vec::new(),
            module_entries: Vec::new(),
        };
        proof {
            assert(g@.connected =~= Seq::<Seq<char>>::empty());
            assert(g@.members =~= Map::empty());
            assert(g@.holders =~= Map::empty());
            assert(g@.members.dom() =~= g@.chunks.to_set());
            assert(g@.holders.dom() =~= g@.connected.to_set());
        }
        g
    }

    fn chunk_position(&self, ukey: ChunkUkey) -> (at: Option<usize>)
        requires
            self.wf(),
        ensures
            match at {
                Some(i) => i < self.chunk_keys@.len() && self.chunk_keys@[i as int] == ukey && i
                    == self.chunk_keys@.index_of(ukey) && self@.has_chunk(ukey),
                None => !self@.has_chunk(ukey),
            },
    {
        let mut i: usize = 0;
        while i < self.chunk_keys.len()
            invariant
                i <= self.chunk_keys.len(),
                self.chunk_keys@.no_duplicates(),
                forall|j: int| 0 <= j < i ==> self.chunk_keys@[j] != ukey,
            decreases self.chunk_keys.len() - i,
        {
            if self.chunk_keys[i] == ukey {
                proof {
                    lemma_index_of_unique(self.chunk_keys@, i as int);
                }
                return Some(i);
            }
            i = i + 1;
        }
        None
    }

    fn module_position(&self, id: &str) -> (at: Option<usize>)
        requires
            self.wf(),
        ensures
            match at {
                Some(i) => i < self.module_keys@.len() && self@.connected[i as int] == id@ && i
                    == self@.connected.index_of(id@) && self@.connected.contains(id@),
                None => !self@.connected.contains(id@),
            },
    {
        let mut i: usize = 0;
        while i < self.module_keys.len()
            invariant
                i <= self.module_keys.len(),
                self@.connected.no_duplicates(),
                forall|j: int| 0 <= j < i ==> self@.connected[j] != id@,
            decreases self.module_keys.len() - i,
        {
            if str_eq(self.module_keys[i].as_str(), id) {
                proof {
                    assert(self@.connected[i as int] == id@);
                    lemma_index_of_unique(self@.connected, i as int);
                }
                return Some(i);
            }
            i = i + 1;
        }
        None
    }

    /// Makes the chunk `ukey` known to the graph, without modules. A chunk
    /// that is known already stays as it is.
    pub fn add_chunk(&mut self, ukey: ChunkUkey)
        requires
            old(self).wf(),
        ensures
            final(self).wf(),
            final(self)@ == old(self)@.add_chunk(ukey),
    {
        if self.chunk_position(ukey).is_some() {
            return ;
        }
        let ghost before = *self;
        self.chunk_keys.push(ukey);
        self.chunk_entries.push(ChunkGraphChunk { modules: module_set_new() });
        proof {
            let last = before.chunk_keys@.len() as int;
            assert(self.chunk_keys@[last] == ukey);
            lemma_index_of_unique(self.chunk_keys@, last);
            assert forall|u: ChunkUkey| self.chunk_keys@.contains(u) implies (#[trigger] self@.members[u])
                == before@.add_chunk(ukey).members[u] by {
                if u != ukey {
                    lemma_index_of_within(self.chunk_keys@, u);
                    let i = self.chunk_keys@.index_of(u);
                    assert(before.chunk_keys@[i] == u);
                    lemma_index_of_unique(before.chunk_keys@, i);
                }
            }
            assert forall|u: ChunkUkey|
                self.chunk_keys@.contains(u) <==> (before.chunk_keys@.contains(u) || u
                    == ukey) by {
                if before.chunk_keys@.contains(u) {
                    lemma_index_of_within(before.chunk_keys@, u);
                    assert(self.chunk_keys@[before.chunk_keys@.index_of(u)] == u);
                }
                if self.chunk_keys@.contains(u) && u != ukey {
                    lemma_index_of_within(self.chunk_keys@, u);
                    assert(before.chunk_keys@[self.chunk_keys@.index_of(u)] == u);
                }
            }
            assert(self@.members =~= before@.add_chunk(ukey).members);
            assert(self@.holders =~= before@.holders);
            assert(self@.members.dom() =~= self@.chunks.to_set());
            let after = self@;
            assert forall|u: ChunkUkey, m: Seq<char>|
                after.modules_of(u).contains(m) <==> after.chunks_of(m).contains(u) by {
                assert(before@.modules_of(u).contains(m) <==> before@.chunks_of(m).contains(u));
            }
        }
    }

    /// Puts the module named `id` into the chunk `ukey`. Connecting the same
    /// pair again changes nothing. The answer is `false`, and nothing
    /// changes, where the graph does not know the chunk.
    pub fn connect_chunk_and_module(&mut self, ukey: ChunkUkey, id: ModuleIdentifier) -> (connected:
        bool)
        requires
            old(self).wf(),
        ensures
            final(self).wf(),
            connected == old(self)@.has_chunk(ukey),
            final(self)@ == old(self)@.connect(ukey, id@),
    {
        let at = match self.chunk_position(ukey) {
            Some(i) => i,
            None => {
                return false;
            },
        };
        let ghost before = *self;
        let ghost name = id@;
        let known = self.module_position(id.as_str());
        let copy = id.clone();
        module_set_insert(&mut self.chunk_entries[at].modules, copy);
        let ghost middle = *self;
        proof {
            assert forall|u: ChunkUkey| middle.chunk_keys@.contains(u) implies (
            #[trigger] middle@.members[u]) == before@.connect(ukey, name).members[u] by {
                if u != ukey {
                    lemma_index_of_within(before.chunk_keys@, u);
                }
            }
            assert(middle@.members =~= before@.connect(ukey, name).members);
        }
        match known {
            Some(k) => {
                let mut present = false;
                let mut j: usize = 0;
                while j < self.module_entries[k].len()
                    invariant
                        *self == middle,
                        k < self.module_entries@.len(),
                        j <= self.module_entries@[k as int]@.len(),
                        present == self.module_entries@[k as int]@.take(j as int).contains(ukey),
                    decreases self.module_entries@[k as int]@.len() - j,
                {
                    let ghost seen = self.module_entries@[k as int]@.take(j as int);
                    if self.module_entries[k][j] == ukey {
                        present = true;
                    }
                    proof {
                        let next = self.module_entries@[k as int]@.take(j + 1);
                        assert(next =~= seen.push(self.module_entries@[k as int]@[j as int]));
                        if seen.contains(ukey) {
                            let w = choose|w: int| 0 <= w < seen.len() && seen[w] == ukey;
                            assert(next[w] == ukey);
                        }
                        if self.module_entries@[k as int]@[j as int] == ukey {
                            assert(next[j as int] == ukey);
                        }
                        if next.contains(ukey) {
                            let w = choose|w: int| 0 <= w < next.len() && next[w] == ukey;
                            if w < j {
                                assert(seen[w] == ukey);
                            }
                        }
                    }
                    j = j + 1;
                }
                assert(self.module_entries@[k as int]@.take(j as int)
                    =~= self.module_entries@[k as int]@);
                if !present {
                    self.module_entries[k].push(ukey);
                }
                proof {
                    assert(self@.connected == before@.connected);
                    assert forall|m: Seq<char>| self@.connected.contains(m) implies (
                    #[trigger] self@.holders[m]) == before@.connect(ukey, name).holders[m] by {
                        if m != name {
                            lemma_index_of_within(before@.connected, m);
                        }
                    }
                    assert(self@.holders =~= before@.connect(ukey, name).holders);
                    assert(self@.members =~= middle@.members);
                }
            },
            None => {
                self.module_keys.push(id);
                let mut holders: Vec<ChunkUkey> = Vec::new();
                holders.push(ukey);
                self.module_entries.push(holders);
                proof {
                    let last = before.module_keys@.len() as int;
                    assert(self@.connected =~= before@.connected.push(name));
                    assert(self@.connected[last] == name);
                    lemma_index_of_unique(self@.connected, last);
                    assert forall|m: Seq<char>|
                        self@.connected.contains(m) <==> (before@.connected.contains(m) || m
                            == name) by {
                        if before@.connected.contains(m) {
                            lemma_index_of_within(before@.connected, m);
                            assert(self@.connected[before@.connected.index_of(m)] == m);
                        }
                        if self@.connected.contains(m) && m != name {
                            lemma_index_of_within(self@.connected, m);
                            assert(before@.connected[self@.connected.index_of(m)] == m);
                        }
                    }
                    assert forall|m: Seq<char>| self@.connected.contains(m) implies (
                    #[trigger] self@.holders[m]) == before@.connect(ukey, name).holders[m] by {
                        if m == name {
                            assert(self.module_entries@[last]@ =~= Seq::<ChunkUkey>::empty().push(
                                ukey,
                            ));
                        } else {
                            lemma_index_of_within(before@.connected, m);
                            let i = before@.connected.index_of(m);
                            assert(self@.connected[i] == m);
                            lemma_index_of_unique(self@.connected, i);
                        }
                    }
                    assert(self@.holders =~= before@.connect(ukey, name).holders);
                    assert(self@.members =~= middle@.members);
                }
            },
        }
        proof {
            let after = self@;
            assert(after == before@.connect(ukey, name));
            assert(after.members.dom() =~= after.chunks.to_set()) by {
                assert forall|u: ChunkUkey|
                    after.members.dom().contains(u) <==> after.chunks.to_set().contains(u) by {}
            }
            assert(after.holders.dom() =~= after.connected.to_set());
            assert forall|u: ChunkUkey, m: Seq<char>|
                after.modules_of(u).contains(m) <==> after.chunks_of(m).contains(u) by {
                assert(before@.modules_of(u).contains(m) <==> before@.chunks_of(m).contains(u));
                if m == name && !before@.chunks_of(m).contains(ukey) {
                    let old_holders = before@.chunks_of(m);
                    let new_holders = old_holders.push(ukey);
                    assert(new_holders[old_holders.len() as int] == ukey);
                    if old_holders.contains(u) {
                        let w = choose|w: int| 0 <= w < old_holders.len() && old_holders[w] == u;
                        assert(new_holders[w] == u);
                    }
                    if new_holders.contains(u) {
                        let w = choose|w: int| 0 <= w < new_holders.len() && new_holders[w] == u;
                        if w < old_holders.len() {
                            assert(old_holders[w] == u);
                        }
                    }
                }
            }
        }
        true
    }

    /// What the graph records about the chunk `ukey`, if it knows the chunk.
    pub fn get_chunk_graph_chunk(&self, ukey: ChunkUkey) -> (found: Option<&ChunkGraphChunk>)
        requires
            self.wf(),
        ensures
            found is Some == self@.has_chunk(ukey),
            found matches Some(c) ==> c.modules_spec() == self@.modules_of(ukey),
    {
        match self.chunk_position(ukey) {
            Some(i) => Some(&self.chunk_entries[i]),
            None => None,
        }
    }

    /// Whether the chunk `ukey` holds the module named `id`.
    pub fn is_module_in_chunk(&self, id: &ModuleIdentifier, ukey: ChunkUkey) -> (held: bool)
        requires
            self.wf(),
        ensures
            held == self@.modules_of(ukey).contains(id@),
    {
        match self.chunk_position(ukey) {
            Some(i) => self.chunk_entries[i].contains_module(id),
            None => false,
        }
    }

    /// Whether the module named `id` belongs to some chunk.
    pub fn is_module_connected(&self, id: &ModuleIdentifier) -> (connected: bool)
        requires
            self.wf(),
        ensures
            connected == (self@.chunks_of(id@).len() > 0),
    {
        match self.module_position(id.as_str()) {
            Some(k) => self.module_entries[k].len() > 0,
            None => false,
        }
    }

    /// The chunks that hold the module named `id`, in the order in which they
    /// were connected.
    pub fn get_module_chunks(&self, id: &ModuleIdentifier) -> (holders: Vec<ChunkUkey>)
        requires
            self.wf(),
        ensures
            holders@ == self@.chunks_of(id@),
    {
        match self.module_position(id.as_str()) {
            Some(k) => {
                let holders = self.module_entries[k].clone();
                assert(holders@ =~= self.module_entries@[k as int]@);
                holders
            },
            None => Vec::new(),
        }
    }
}

/// The two directions of a chunk graph agree: a chunk holds a module exactly
/// when the module lists the chunk among its holders.
pub proof fn lemma_chunk_graph_bidirectional(graph: ChunkGraphView, ukey: ChunkUkey, id: Seq<char>)
    requires
        graph.wf(),
    ensures
        graph.modules_of(ukey).contains(id) <==> graph.chunks_of(id).contains(ukey),
{
}

/// Connecting a module to a chunk a second time changes nothing.
pub proof fn lemma_connect_idempotent(graph: ChunkGraphView, ukey: ChunkUkey, id: Seq<char>)
    requires
        graph.wf(),
    ensures
        graph.connect(ukey, id).connect(ukey, id) == graph.connect(ukey, id),
{
    let once = graph.connect(ukey, id);
    let twice = once.connect(ukey, id);
    if graph.has_chunk(ukey) {
        assert(once.modules_of(ukey) =~= graph.modules_of(ukey).insert(id));
        assert(once.connected.contains(id)) by {
            if graph.connected.contains(id) {
            } else {
                assert(once.connected[graph.connected.len() as int] == id);
            }
        }
        assert(once.chunks_of(id).contains(ukey)) by {
            if graph.chunks_of(id).contains(ukey) {
            } else {
                assert(once.chunks_of(id)[graph.chunks_of(id).len() as int] == ukey);
            }
        }
        assert(once.modules_of(ukey).insert(id) =~= once.modules_of(ukey));
        assert(once.members.insert(ukey, once.modules_of(ukey)) =~= once.members);
        assert(twice.members =~= once.members);
        assert(once.holders.insert(id, once.chunks_of(id)) =~= once.holders);
        assert(twice.holders =~= once.holders);
    }
}

} // verus!

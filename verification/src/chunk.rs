//! Chunks and chunk groups: the output units of a compilation.

use std::collections::hash_map::DefaultHasher;
use std::hash::Hasher;
use vstd::std_specs::hash::DefaultHasherAdditionalSpecFns;
use vstd::prelude::*;
use crate::runtime::{runtime_union, RuntimeSpec};

verus! {

/// Names a chunk within one compilation. Keys are not stable across builds.
pub type ChunkUkey = usize;

/// Names a chunk group within one compilation.
pub type ChunkGroupUkey = usize;

/// What a chunk is for.
#[derive(Clone, Copy, Debug, PartialEq, Eq, Structural, Hash)]
pub enum ChunkKind {
    /// An ordinary chunk.
    Normal,
    /// The chunk an entry starts from.
    Entry,
    /// A chunk made up during a rebuild to carry the changed modules of
    /// another chunk. It is not part of the compilation's lasting chunks.
    HotUpdate,
}

/// A chunk as a mathematical value.
pub struct ChunkView {
    /// The key under which the chunk's compilation holds it.
    pub ukey: ChunkUkey,
    /// The stable id, such as an entry's name.
    pub id: Seq<char>,
    pub name: Option<Seq<char>>,
    pub kind: ChunkKind,
    /// The runtime tags, in the order in which they arrived.
    pub runtime: Seq<Seq<char>>,
    /// The chunk groups the chunk belongs to, in the order in which it joined them.
    pub groups: Seq<ChunkGroupUkey>,
    /// What has been folded into the content hash: one byte string per fold,
    /// oldest first.
    pub hashed: Seq<Seq<u8>>,
}

impl ChunkView {
    /// No runtime tag and no chunk group occurs twice.
    pub open spec fn wf(self) -> bool {
        self.runtime.no_duplicates() && self.groups.no_duplicates()
    }

    /// Whether the chunk belongs to the lasting chunks of its compilation:
    /// every chunk does, but for hot-update chunks.
    pub open spec fn persistent(self) -> bool {
        self.kind != ChunkKind::HotUpdate
    }

    /// The chunk after it joined `group`: joining twice changes nothing.
    pub open spec fn add_group(self, group: ChunkGroupUkey) -> Self {
        if self.groups.contains(group) {
            self
        } else {
            ChunkView { groups: self.groups.push(group), ..self }
        }
    }
}

/// An output unit: a group of modules that share a runtime target.
#[derive(Debug)]
pub struct Chunk {
    pub(crate) ukey: ChunkUkey,
    pub(crate) name: Option<String>,
    pub(crate) id: String,
    pub(crate) kind: ChunkKind,
    pub(crate) runtime: RuntimeSpec,
    pub(crate) groups: Vec<ChunkGroupUkey>,
    pub(crate) hash: DefaultHasher,
}

impl View for Chunk {
    type V = ChunkView;

    open(crate) spec fn view(&self) -> ChunkView {
        ChunkView {
            ukey: self.ukey,
            id: self.id@,
            name: match self.name {
                Some(n) => Some(n@),
                None => None,
            },
            kind: self.kind,
            runtime: self.runtime@,
            groups: self.groups@,
            hashed: self.hash@,
        }
    }
}

impl Chunk {
    /// A chunk that belongs to no group yet, with an empty runtime set and
    /// nothing folded into its hash. Its key is set when a compilation adopts it.
    pub fn new(name: Option<String>, id: String, kind: ChunkKind) -> (c: Self)
        ensures
            c@ == (ChunkView {
                ukey: 0,
                id: id@,
                name: match name {
                    Some(n) => Some(n@),
                    None => None,
                },
                kind,
                runtime: Seq::empty(),
                groups: Seq::empty(),
                hashed: Seq::empty(),
            }),
            c@.wf(),
    {
        Chunk {
            ukey: 0,
            name,
            id,
            kind,
            runtime: RuntimeSpec::new(),
            groups: Vec::new(),
            hash: DefaultHasher::new(),
        }
    }

    /// The chunk's id.
    pub fn id(&self) -> (id: &String)
        ensures
            id@ == self@.id,
    {
        &self.id
    }

    /// The chunk's name, if it has one.
    pub fn name(&self) -> (name: Option<&String>)
        ensures
            match name {
                Some(n) => self@.name == Some(n@),
                None => self@.name is None,
            },
    {
        self.name.as_ref()
    }

    /// The chunk's key within its compilation.
    pub fn ukey(&self) -> (ukey: ChunkUkey)
        ensures
            ukey == self@.ukey,
    {
        self.ukey
    }

    /// The chunk's kind.
    pub fn kind(&self) -> (kind: ChunkKind)
        ensures
            kind == self@.kind,
    {
        self.kind
    }

    /// Whether the chunk belongs to the compilation's lasting chunks, that is,
    /// whether it is anything but a hot-update chunk.
    pub fn is_persistent(&self) -> (b: bool)
        ensures
            b == self@.persistent(),
    {
        match self.kind {
            ChunkKind::HotUpdate => false,
            _ => true,
        }
    }

    /// The runtime set the chunk is valid for.
    pub fn runtime(&self) -> (rt: &RuntimeSpec)
        ensures
            rt@ == self@.runtime,
    {
        &self.runtime
    }

    /// The chunk groups the chunk belongs to.
    pub fn groups(&self) -> (groups: &Vec<ChunkGroupUkey>)
        ensures
            groups@ == self@.groups,
    {
        &self.groups
    }

    /// Replaces the chunk's runtime set.
    pub fn set_runtime(&mut self, runtime: RuntimeSpec)
        ensures
            final(self)@ == (ChunkView { runtime: runtime@, ..old(self)@ }),
    {
        self.runtime = runtime;
    }

    /// Widens the chunk's runtime set by the tags of `runtime`.
    pub fn extend_runtime(&mut self, runtime: &RuntimeSpec)
        requires
            old(self)@.wf(),
            runtime.wf(),
        ensures
            final(self)@.wf(),
            final(self)@ == (ChunkView {
                runtime: runtime_union(old(self)@.runtime, runtime@),
                ..old(self)@
            }),
    {
        self.runtime.extend(runtime);
    }

    /// Records that the chunk belongs to `group`. Joining a group twice
    /// changes nothing.
    pub fn add_group(&mut self, group: ChunkGroupUkey)
        ensures
            final(self)@ == old(self)@.add_group(group),
    {
        let mut i: usize = 0;
        while i < self.groups.len()
            invariant
                i <= self.groups.len(),
                *self == *old(self),
                forall|j: int| 0 <= j < i ==> self.groups@[j] != group,
            decreases self.groups.len() - i,
        {
            if self.groups[i] == group {
                return ;
            }
            i = i + 1;
        }
        self.groups.push(group);
    }

    /// Folds `bytes` into the chunk's content hash.
    pub fn update_hash(&mut self, bytes: &[u8])
        ensures
            final(self)@ == (ChunkView { hashed: old(self)@.hashed.push(bytes@), ..old(self)@ }),
    {
        self.hash.write(bytes);
    }

    /// The chunk's content hash: the digest of all that was folded in, in order.
    pub fn content_hash(&self) -> (digest: u64)
        ensures
            digest == DefaultHasher::spec_finish(self@.hashed),
    {
        self.hash.finish()
    }
}

/// A chunk group as a mathematical value.
pub struct ChunkGroupView {
    pub ukey: ChunkGroupUkey,
    /// The chunks of the group, in the order in which they joined.
    pub chunks: Seq<ChunkUkey>,
    /// The runtime tags of the group, where it has a runtime.
    pub runtime: Option<Seq<Seq<char>>>,
}

impl ChunkGroupView {
    /// The runtime, where there is one, holds no tag twice.
    pub open spec fn wf(self) -> bool {
        match self.runtime {
            Some(rt) => rt.no_duplicates(),
            None => true,
        }
    }

    /// The group's runtime tags: none where the group has no runtime.
    pub open spec fn runtime_tags(self) -> Seq<Seq<char>> {
        match self.runtime {
            Some(rt) => rt,
            None => Seq::empty(),
        }
    }
}

/// A set of chunks that load together, for one entry or one dynamic import.
#[derive(Debug)]
pub struct ChunkGroup {
    pub(crate) ukey: ChunkGroupUkey,
    pub(crate) chunks: Vec<ChunkUkey>,
    pub(crate) runtime: Option<RuntimeSpec>,
}

impl View for ChunkGroup {
    type V = ChunkGroupView;

    open(crate) spec fn view(&self) -> ChunkGroupView {
        ChunkGroupView {
            ukey: self.ukey,
            chunks: self.chunks@,
            runtime: match self.runtime {
                Some(rt) => Some(rt@),
                None => None,
            },
        }
    }
}

impl ChunkGroup {
    /// A group without chunks. Its key is set when a compilation adopts it.
    pub fn new(runtime: Option<RuntimeSpec>) -> (g: Self)
        ensures
            g@ == (ChunkGroupView {
                ukey: 0,
                chunks: Seq::empty(),
                runtime: match runtime {
                    Some(rt) => Some(rt@),
                    None => None,
                },
            }),
    {
        ChunkGroup { ukey: 0, chunks: Vec::new(), runtime }
    }

    /// The group's key within its compilation.
    pub fn ukey(&self) -> (ukey: ChunkGroupUkey)
        ensures
            ukey == self@.ukey,
    {
        self.ukey
    }

    /// The group's runtime set, if it has one.
    pub fn runtime(&self) -> (rt: Option<&RuntimeSpec>)
        ensures
            match rt {
                Some(r) => self@.runtime == Some(r@),
                None => self@.runtime is None,
            },
    {
        self.runtime.as_ref()
    }

    /// The chunks of the group.
    pub fn chunks(&self) -> (chunks: &Vec<ChunkUkey>)
        ensures
            chunks@ == self@.chunks,
    {
        &self.chunks
    }
}

} // verus!

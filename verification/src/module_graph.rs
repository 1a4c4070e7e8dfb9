//! The module graph: every module of one compilation, under its identifier,
//! with the edges between them.

use vstd::prelude::*;
use crate::module::{
    DependencyKind, Module, ModuleDependency, ModuleIdentifier, ModuleType, ModuleView,
    SourceType,
};
use crate::text::{lemma_index_of_unique, str_eq};

verus! {

/// What the graph records about one module besides the module itself.
#[derive(Debug)]
pub struct ModuleGraphModule {
    pub module_identifier: ModuleIdentifier,
    pub module_type: ModuleType,
    /// The module whose dependency first brought this one in.
    pub issuer: Option<ModuleIdentifier>,
    /// The outgoing edges, in the order in which they were added.
    pub dependencies: Vec<ModuleDependency>,
}

/// A module's record in the graph, as a mathematical value.
pub struct ModuleGraphModuleView {
    pub module_identifier: Seq<char>,
    pub module_type: ModuleType,
    pub issuer: Option<Seq<char>>,
    /// The outgoing edges: target and kind, in the order in which they were added.
    pub dependencies: Seq<(Seq<char>, DependencyKind)>,
}

impl View for ModuleGraphModule {
    type V = ModuleGraphModuleView;

    open spec fn view(&self) -> ModuleGraphModuleView {
        ModuleGraphModuleView {
            module_identifier: self.module_identifier@,
            module_type: self.module_type,
            issuer: match self.issuer {
                Some(i) => Some(i@),
                None => None,
            },
            dependencies: self.dependencies@.map_values(|d: ModuleDependency| d@),
        }
    }
}

/// A module graph as a mathematical value: the modules and their records,
/// both in the order in which the modules were added.
pub struct ModuleGraphView {
    pub modules: Seq<ModuleView>,
    pub records: Seq<ModuleGraphModuleView>,
}

impl ModuleGraphView {
    /// The identifiers, in the order in which the modules were added.
    pub open spec fn ids(self) -> Seq<Seq<char>> {
        self.modules.map_values(|m: ModuleView| m.identifier)
    }

    /// Whether the graph holds a module under `id`.
    pub open spec fn has(self, id: Seq<char>) -> bool {
        self.ids().contains(id)
    }

    /// The position of the module named `id`; meaningful where the graph holds it.
    pub open spec fn index_of(self, id: Seq<char>) -> int {
        self.ids().index_of(id)
    }

    /// The module named `id`, if the graph holds it.
    pub open spec fn module(self, id: Seq<char>) -> Option<ModuleView> {
        if self.has(id) {
            Some(self.modules[self.index_of(id)])
        } else {
            None
        }
    }

    /// The record of the module named `id`, if the graph holds it.
    pub open spec fn record(self, id: Seq<char>) -> Option<ModuleGraphModuleView> {
        if self.has(id) {
            Some(self.records[self.index_of(id)])
        } else {
            None
        }
    }

    /// The invariant: one record per module, under the module's identifier
    /// and type; no identifier twice; every edge ends at a module of the graph.
    pub open spec fn wf(self) -> bool {
        &&& self.modules.len() == self.records.len()
        &&& self.ids().no_duplicates()
        &&& forall|i: int|
            0 <= i < self.modules.len() ==> {
                &&& (#[trigger] self.modules[i]).wf()
                &&& self.records[i].module_identifier == self.modules[i].identifier
                &&& self.records[i].module_type == self.modules[i].module_type
            }
        &&& forall|i: int, k: int|
            0 <= i < self.records.len() && 0 <= k < self.records[i].dependencies.len()
                ==> self.has((#[trigger] self.records[i].dependencies[k]).0)
    }

    /// The graph without modules.
    pub open spec fn empty() -> Self {
        ModuleGraphView { modules: Seq::empty(), records: Seq::empty() }
    }

    /// The graph after `module` was added on behalf of `issuer`: unchanged
    /// where a module of that identifier is there already.
    pub open spec fn add_module(self, module: ModuleView, issuer: Option<Seq<char>>) -> Self {
        if self.has(module.identifier) {
            self
        } else {
            ModuleGraphView {
                modules: self.modules.push(module),
                records: self.records.push(
                    ModuleGraphModuleView {
                        module_identifier: module.identifier,
                        module_type: module.module_type,
                        issuer,
                        dependencies: Seq::empty(),
                    },
                ),
            }
        }
    }

    /// The graph after an edge from `from` to `to` was asked for: the edge is
    /// there if both ends are in the graph, else nothing changed.
    pub open spec fn add_dependency(
        self,
        from: Seq<char>,
        to: Seq<char>,
        kind: DependencyKind,
    ) -> Self {
        if self.has(from) && self.has(to) {
            let at = self.index_of(from);
            ModuleGraphView {
                modules: self.modules,
                records: self.records.update(
                    at,
                    ModuleGraphModuleView {
                        dependencies: self.records[at].dependencies.push((to, kind)),
                        ..self.records[at]
                    },
                ),
            }
        } else {
            self
        }
    }

    /// The graph after the module named `id` recorded generated code for one
    /// output kind: unchanged where the graph does not hold the module.
    pub open spec fn set_generated(
        self,
        id: Seq<char>,
        source_type: SourceType,
        text: Seq<char>,
    ) -> Self {
        if self.has(id) {
            let at = self.index_of(id);
            ModuleGraphView {
                modules: self.modules.update(at, self.modules[at].set_generated(source_type, text)),
                records: self.records,
            }
        } else {
            self
        }
    }

    /// The graph after the module named `id` failed to compile: unchanged
    /// where the graph does not hold the module.
    pub open spec fn fail(self, id: Seq<char>) -> Self {
        if self.has(id) {
            let at = self.index_of(id);
            ModuleGraphView {
                modules: self.modules.update(at, self.modules[at].fail()),
                records: self.records,
            }
        } else {
            self
        }
    }
}

/// All modules of one compilation. Modules are kept in the order in which
/// they were added; no identifier occurs twice; every edge ends at a module
/// of the graph.
#[derive(Debug)]
pub struct ModuleGraph {
    pub(crate) modules: Vec<Module>,
    pub(crate) module_graph_modules: Vec<ModuleGraphModule>,
}

impl View for ModuleGraph {
    type V = ModuleGraphView;

    open(crate) spec fn view(&self) -> ModuleGraphView {
        ModuleGraphView {
            modules: self.modules@.map_values(|m: Module| m@),
            records: self.module_graph_modules@.map_values(|r: ModuleGraphModule| r@),
        }
    }
}

impl ModuleGraph {
    /// An empty graph.
    pub fn new() -> (g: Self)
        ensures
            g@ == ModuleGraphView::empty(),
            g@.wf(),
    {
        let g = ModuleGraph { modules: Vec::new(), module_graph_modules: Vec::new() };
        assert(g@.modules =~= Seq::<ModuleView>::empty());
        assert(g@.records =~= Seq::<ModuleGraphModuleView>::empty());
        g
    }

    /// Number of modules.
    pub fn len(&self) -> (n: usize)
        ensures
            n == self@.modules.len(),
    {
        self.modules.len()
    }

    /// The position of the module named `id`, if the graph holds it.
    pub fn position(&self, id: &str) -> (at: Option<usize>)
        ensures
            match at {
                Some(i) => i < self@.modules.len() && self@.ids()[i as int] == id@ && self@.has(
                    id@,
                ) && (self@.wf() ==> i == self@.index_of(id@)),
                None => !self@.has(id@),
            },
    {
        let mut i: usize = 0;
        while i < self.modules.len()
            invariant
                i <= self.modules.len(),
                forall|j: int| 0 <= j < i ==> self@.ids()[j] != id@,
            decreases self.modules.len() - i,
        {
            if str_eq(self.modules[i].identifier.as_str(), id) {
                proof {
                    assert(self@.ids()[i as int] == id@);
                    if self@.wf() {
                        lemma_index_of_unique(self@.ids(), i as int);
                    }
                }
                return Some(i);
            }
            i = i + 1;
        }
        None
    }

    /// The module named `id`, or `None` where the graph does not hold it.
    pub fn module_by_identifier(&self, id: &ModuleIdentifier) -> (found: Option<&Module>)
        requires
            self@.wf(),
        ensures
            match found {
                Some(m) => self@.module(id@) == Some(m@),
                None => self@.module(id@) is None,
            },
    {
        match self.position(id.as_str()) {
            Some(i) => Some(&self.modules[i]),
            None => None,
        }
    }

    /// The graph's record of the module named `id`, if it holds that module.
    pub fn module_graph_module_by_identifier(&self, id: &ModuleIdentifier) -> (found: Option<
        &ModuleGraphModule,
    >)
        requires
            self@.wf(),
        ensures
            match found {
                Some(r) => self@.record(id@) == Some(r@),
                None => self@.record(id@) is None,
            },
    {
        match self.position(id.as_str()) {
            Some(i) => Some(&self.module_graph_modules[i]),
            None => None,
        }
    }

    /// The per-module records, in the order in which the modules were added.
    pub fn module_graph_modules(&self) -> (all: &Vec<ModuleGraphModule>)
        ensures
            all@.map_values(|r: ModuleGraphModule| r@) == self@.records,
    {
        &self.module_graph_modules
    }

    /// The modules, in the order in which they were added.
    pub fn modules(&self) -> (all: &Vec<Module>)
        ensures
            all@.map_values(|m: Module| m@) == self@.modules,
    {
        &self.modules
    }

    /// Adds `module` unless a module of the same identifier is there already.
    /// Says whether it was added. A module that was there stays as it is.
    pub fn add_module(&mut self, module: Module, issuer: Option<ModuleIdentifier>) -> (added: bool)
        requires
            old(self)@.wf(),
            module@.wf(),
        ensures
            final(self)@.wf(),
            added == !old(self)@.has(module@.identifier),
            final(self)@ == old(self)@.add_module(
                module@,
                match issuer {
                    Some(i) => Some(i@),
                    None => None,
                },
            ),
    {
        if self.position(module.identifier.as_str()).is_some() {
            return false;
        }
        let ghost before = self@;
        let record = ModuleGraphModule {
            module_identifier: module.identifier.clone(),
            module_type: module.module_type,
            issuer,
            dependencies: Vec::new(),
        };
        proof {
            assert(record@.dependencies =~= Seq::<(Seq<char>, DependencyKind)>::empty());
        }
        self.modules.push(module);
        self.module_graph_modules.push(record);
        proof {
            assert(self@.modules =~= before.modules.push(module@));
            assert(self@.records =~= before.records.push(record@));
            assert(self@.ids() =~= before.ids().push(module@.identifier));
            assert forall|i: int, k: int|
                0 <= i < self@.records.len() && 0 <= k
                    < self@.records[i].dependencies.len() implies self@.has(
                (#[trigger] self@.records[i].dependencies[k]).0,
            ) by {
                let target = self@.records[i].dependencies[k].0;
                assert(before.has(before.records[i].dependencies[k].0));
                let j = choose|j: int| 0 <= j < before.ids().len() && before.ids()[j] == target;
                assert(self@.ids()[j] == target);
            }
        }
        true
    }

    /// Adds an edge from the module named `from` to the module named `to`.
    /// Where either end is not in the graph the edge is dropped and the answer
    /// is `false`: the caller reports the reference as unresolved.
    pub fn add_dependency(
        &mut self,
        from: &ModuleIdentifier,
        to: &ModuleIdentifier,
        kind: DependencyKind,
    ) -> (added: bool)
        requires
            old(self)@.wf(),
        ensures
            final(self)@.wf(),
            added == (old(self)@.has(from@) && old(self)@.has(to@)),
            final(self)@ == old(self)@.add_dependency(from@, to@, kind),
            final(self)@.ids() == old(self)@.ids(),
    {
        let at = match self.position(from.as_str()) {
            Some(i) => i,
            None => {
                return false;
            },
        };
        if self.position(to.as_str()).is_none() {
            return false;
        }
        let ghost before = self@;
        let ghost old_record = self.module_graph_modules@[at as int];
        let edge = ModuleDependency { target: to.clone(), kind };
        self.module_graph_modules[at].dependencies.push(edge);
        proof {
            let new_record = self.module_graph_modules@[at as int];
            assert(new_record@.dependencies =~= old_record@.dependencies.push((to@, kind)));
            assert(self@.modules =~= before.modules);
            assert(self@.records =~= before.records.update(
                at as int,
                ModuleGraphModuleView {
                    dependencies: before.records[at as int].dependencies.push((to@, kind)),
                    ..before.records[at as int]
                },
            ));
            assert forall|i: int, k: int|
                0 <= i < self@.records.len() && 0 <= k
                    < self@.records[i].dependencies.len() implies self@.has(
                (#[trigger] self@.records[i].dependencies[k]).0,
            ) by {
                if i == at && k == before.records[i].dependencies.len() {
                } else {
                    assert(before.has(before.records[i].dependencies[k].0));
                }
            }
        }
        true
    }

    /// Records code that the module named `id` generated for one output kind.
    /// The answer is `false`, and nothing changes, where the graph does not
    /// hold the module or the module failed to compile.
    pub fn set_generated(
        &mut self,
        id: &ModuleIdentifier,
        source_type: SourceType,
        text: String,
    ) -> (done: bool)
        requires
            old(self)@.wf(),
        ensures
            final(self)@.wf(),
            done == (old(self)@.has(id@) && !old(self)@.module(id@).unwrap().failed),
            final(self)@ == old(self)@.set_generated(id@, source_type, text@),
            final(self)@.ids() == old(self)@.ids(),
    {
        let at = match self.position(id.as_str()) {
            Some(i) => i,
            None => {
                return false;
            },
        };
        let ghost before = self@;
        let done = self.modules[at].set_generated(source_type, text);
        proof {
            lemma_module_replaced(before, self@, at as int);
        }
        done
    }

    /// Marks the module named `id` as one that failed to compile. The answer
    /// is `false`, and nothing changes, where the graph does not hold the module.
    pub fn fail_module(&mut self, id: &ModuleIdentifier) -> (done: bool)
        requires
            old(self)@.wf(),
        ensures
            final(self)@.wf(),
            done == old(self)@.has(id@),
            final(self)@ == old(self)@.fail(id@),
            final(self)@.ids() == old(self)@.ids(),
    {
        let at = match self.position(id.as_str()) {
            Some(i) => i,
            None => {
                return false;
            },
        };
        let ghost before = self@;
        self.modules[at].fail();
        proof {
            lemma_module_replaced(before, self@, at as int);
        }
        true
    }
}

/// A graph stays sound when one module is replaced by a sound module of
/// the same identifier and type.
proof fn lemma_module_replaced(before: ModuleGraphView, after: ModuleGraphView, at: int)
    requires
        before.wf(),
        0 <= at < before.modules.len(),
        after.modules.len() == before.modules.len(),
        forall|i: int|
            0 <= i < before.modules.len() && i != at ==> after.modules[i] == before.modules[i],
        after.modules[at].wf(),
        after.modules[at].identifier == before.modules[at].identifier,
        after.modules[at].module_type == before.modules[at].module_type,
        after.records =~= before.records,
    ensures
        after.wf(),
        after.modules == before.modules.update(at, after.modules[at]),
        after.records == before.records,
        after.ids() == before.ids(),
{
    assert(after.modules =~= before.modules.update(at, after.modules[at]));
    assert(after.ids() =~= before.ids());
    assert forall|i: int| 0 <= i < after.modules.len() implies {
        &&& (#[trigger] after.modules[i]).wf()
        &&& after.records[i].module_identifier == after.modules[i].identifier
        &&& after.records[i].module_type == after.modules[i].module_type
    } by {
        assert(before.modules[i].wf());
    }
    assert forall|i: int, k: int|
        0 <= i < after.records.len() && 0 <= k < after.records[i].dependencies.len() implies after.has(
        (#[trigger] after.records[i].dependencies[k]).0,
    ) by {
        assert(before.has(before.records[i].dependencies[k].0));
    }
}

} // verus!

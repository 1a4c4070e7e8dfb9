//! Stylesheet modules. Parsing a stylesheet and writing it out again is the
//! parser's work; a module here holds what came of it.

use vstd::prelude::*;
use crate::module::{DependencyKind, ModuleDependency, ModuleType};

verus! {

/// A stylesheet module: the stylesheet as it is written out, and the
/// requests that it refers to, in the order in which they stand in it.
#[derive(Debug)]
pub struct CssModule {
    pub(crate) code: String,
    pub(crate) requests: Vec<ModuleDependency>,
}

impl CssModule {
    /// The stylesheet's text.
    pub open(crate) spec fn code_spec(&self) -> Seq<char> {
        self.code@
    }

    /// What the stylesheet refers to: request and kind, in order.
    pub open(crate) spec fn requests_spec(&self) -> Seq<(Seq<char>, DependencyKind)> {
        self.requests@.map_values(|d: ModuleDependency| d@)
    }

    /// A module of the stylesheet text `code` that refers to `requests`.
    pub fn new(code: String, requests: Vec<ModuleDependency>) -> (module: Self)
        ensures
            module.code_spec() == code@,
            module.requests_spec() == requests@.map_values(|d: ModuleDependency| d@),
    {
        CssModule { code, requests }
    }

    /// The module's type: a stylesheet.
    pub fn module_type(&self) -> (t: ModuleType)
        ensures
            t == ModuleType::Css,
    {
        ModuleType::Css
    }

    /// The stylesheet, written out.
    pub fn render(&self) -> (code: String)
        ensures
            code@ == self.code_spec(),
    {
        self.code.clone()
    }

    /// The requests that the stylesheet refers to.
    pub fn dependencies(&self) -> (requests: Vec<ModuleDependency>)
        ensures
            requests@.map_values(|d: ModuleDependency| d@) == self.requests_spec(),
    {
        let mut requests: Vec<ModuleDependency> = Vec::new();
        let mut i: usize = 0;
        while i < self.requests.len()
            invariant
                i <= self.requests.len(),
                requests@.len() == i,
                forall|j: int| 0 <= j < i ==> (#[trigger] requests@[j])@ == self.requests@[j]@,
            decreases self.requests.len() - i,
        {
            let d = &self.requests[i];
            requests.push(ModuleDependency { target: d.target.clone(), kind: d.kind });
            i = i + 1;
        }
        assert(requests@.map_values(|d: ModuleDependency| d@) =~= self.requests_spec());
        requests
    }
}

} // verus!

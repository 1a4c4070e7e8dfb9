//! Modules: compiled units of source content, each under a stable identifier.

use vstd::prelude::*;
use vstd::string::StringExecFns;
use crate::text::str_eq;

verus! {

/// What kind of source a module was compiled from.
#[derive(Clone, Copy, Debug, PartialEq, Eq, Structural, Hash)]
pub enum ModuleType {
    Json,
    Css,
    Js,
    Jsx,
    Tsx,
    Ts,
    Asset,
    AssetInline,
    AssetResource,
    AssetSource,
}

/// An output kind for which a module can generate code.
#[derive(Clone, Copy, Debug, PartialEq, Eq, Structural, Hash)]
pub enum SourceType {
    JavaScript,
    Css,
    Asset,
}

/// Why one module refers to another.
#[derive(Clone, Copy, Debug, PartialEq, Eq, Structural, Hash)]
pub enum DependencyKind {
    Entry,
    EsmImport,
    DynamicImport,
    CjsRequire,
    CssImport,
    UrlAsset,
    ModuleHotAccept,
}

/// A module's identifier: a string that names it within one compilation and
/// stays the same across builds of the same resource.
pub type ModuleIdentifier = String;

impl ModuleType {
    /// The JavaScript family: plain, JSX, TypeScript and TSX.
    pub open spec fn js_like(self) -> bool {
        self == ModuleType::Js || self == ModuleType::Jsx || self == ModuleType::Ts || self
            == ModuleType::Tsx
    }

    /// The stylesheet family.
    pub open spec fn css_like(self) -> bool {
        self == ModuleType::Css
    }

    /// The name under which the type enters a module identifier.
    pub open spec fn label(self) -> Seq<char> {
        match self {
            ModuleType::Json => "json"@,
            ModuleType::Css => "css"@,
            ModuleType::Js => "js"@,
            ModuleType::Jsx => "jsx"@,
            ModuleType::Tsx => "tsx"@,
            ModuleType::Ts => "ts"@,
            ModuleType::Asset => "asset"@,
            ModuleType::AssetInline => "asset/inline"@,
            ModuleType::AssetResource => "asset/resource"@,
            ModuleType::AssetSource => "asset/source"@,
        }
    }

    /// Whether the module belongs to the JavaScript family.
    pub fn is_js_like(&self) -> (b: bool)
        ensures
            b == self.js_like(),
    {
        match self {
            ModuleType::Js | ModuleType::Jsx | ModuleType::Ts | ModuleType::Tsx => true,
            _ => false,
        }
    }

    /// Whether the module belongs to the stylesheet family.
    pub fn is_css_like(&self) -> (b: bool)
        ensures
            b == self.css_like(),
    {
        match self {
            ModuleType::Css => true,
            _ => false,
        }
    }

    /// The type's name, as it appears in identifiers.
    pub fn as_str(&self) -> (s: &'static str)
        ensures
            s@ == self.label(),
    {
        match self {
            ModuleType::Json => "json",
            ModuleType::Css => "css",
            ModuleType::Js => "js",
            ModuleType::Jsx => "jsx",
            ModuleType::Tsx => "tsx",
            ModuleType::Ts => "ts",
            ModuleType::Asset => "asset",
            ModuleType::AssetInline => "asset/inline",
            ModuleType::AssetResource => "asset/resource",
            ModuleType::AssetSource => "asset/source",
        }
    }
}

/// Where a module's content came from, after resolution.
#[derive(Debug)]
pub struct ResourceData {
    /// The full request: path, query and fragment together.
    pub resource: String,
    /// The resolved path of the file.
    pub resource_path: String,
    /// The query part, with its leading `?`, if the request had one.
    pub resource_query: Option<String>,
    /// The fragment part, with its leading `#`, if the request had one.
    pub resource_fragment: Option<String>,
}

/// A resolved resource as a mathematical value.
pub struct ResourceView {
    pub resource: Seq<char>,
    pub resource_path: Seq<char>,
    pub resource_query: Option<Seq<char>>,
    pub resource_fragment: Option<Seq<char>>,
}

impl ResourceView {
    /// The query as text: empty where there is none.
    pub open spec fn query_text(self) -> Seq<char> {
        match self.resource_query {
            Some(q) => q,
            None => Seq::empty(),
        }
    }
}

impl View for ResourceData {
    type V = ResourceView;

    open spec fn view(&self) -> ResourceView {
        ResourceView {
            resource: self.resource@,
            resource_path: self.resource_path@,
            resource_query: match self.resource_query {
                Some(q) => Some(q@),
                None => None,
            },
            resource_fragment: match self.resource_fragment {
                Some(f) => Some(f@),
                None => None,
            },
        }
    }
}

impl ResourceData {
    /// The query as text: empty where there is none.
    pub open spec fn query_text(&self) -> Seq<char> {
        self@.query_text()
    }
}

impl Clone for ResourceData {
    fn clone(&self) -> (r: Self)
        ensures
            r == *self,
    {
        ResourceData {
            resource: self.resource.clone(),
            resource_path: self.resource_path.clone(),
            resource_query: match &self.resource_query {
                Some(q) => Some(q.clone()),
                None => None,
            },
            resource_fragment: match &self.resource_fragment {
                Some(f) => Some(f.clone()),
                None => None,
            },
        }
    }
}

/// The identifier of the module compiled as `module_type` from the file at
/// `path` with the query `query`: the type's label, a bar, the path, the query.
pub open spec fn identifier_text(
    module_type: ModuleType,
    path: Seq<char>,
    query: Seq<char>,
) -> Seq<char> {
    module_type.label() + "|"@ + path + query
}

/// Derives a module's identifier from its type and resolved resource.
pub fn module_identifier(module_type: ModuleType, resource: &ResourceData) -> (id: ModuleIdentifier)
    ensures
        id@ == identifier_text(module_type, resource.resource_path@, resource.query_text()),
{
    let mut id = String::from_str(module_type.as_str());
    id.append("|");
    id.append(resource.resource_path.as_str());
    match &resource.resource_query {
        Some(q) => {
            id.append(q.as_str());
        },
        None => {
            assert(id@ + Seq::<char>::empty() =~= id@);
        },
    }
    id
}

/// Two modules of the same type, path and query carry the same identifier,
/// whichever build produced them.
pub proof fn lemma_identifier_stable(
    first_type: ModuleType,
    first: ResourceData,
    second_type: ModuleType,
    second: ResourceData,
)
    requires
        first_type == second_type,
        first.resource_path@ == second.resource_path@,
        first.query_text() == second.query_text(),
    ensures
        identifier_text(first_type, first.resource_path@, first.query_text()) == identifier_text(
            second_type,
            second.resource_path@,
            second.query_text(),
        ),
{
}

/// Code that a module generated for one output kind.
#[derive(Debug)]
pub struct GeneratedCode {
    pub source_type: SourceType,
    pub text: String,
}

impl View for GeneratedCode {
    type V = (SourceType, Seq<char>);

    open spec fn view(&self) -> (SourceType, Seq<char>) {
        (self.source_type, self.text@)
    }
}

impl Clone for GeneratedCode {
    fn clone(&self) -> (r: Self)
        ensures
            r@ == self@,
    {
        GeneratedCode { source_type: self.source_type, text: self.text.clone() }
    }
}

/// The text generated for `wanted` in `codes`: that of the first entry of that
/// kind, if there is one.
pub open spec fn generated_text(codes: Seq<(SourceType, Seq<char>)>, wanted: SourceType) -> Option<
    Seq<char>,
>
    decreases codes.len(),
{
    if codes.len() == 0 {
        None
    } else if codes[0].0 == wanted {
        Some(codes[0].1)
    } else {
        generated_text(codes.drop_first(), wanted)
    }
}

/// All that a module generated, one entry per output kind.
#[derive(Debug)]
pub struct CodeGenerationResult {
    pub(crate) codes: Vec<GeneratedCode>,
}

impl View for CodeGenerationResult {
    type V = Seq<(SourceType, Seq<char>)>;

    open(crate) spec fn view(&self) -> Seq<(SourceType, Seq<char>)> {
        self.codes@.map_values(|c: GeneratedCode| c@)
    }
}

impl CodeGenerationResult {
    /// A result without any code: what a module that failed to compile contributes.
    pub fn new() -> (r: Self)
        ensures
            r@ == Seq::<(SourceType, Seq<char>)>::empty(),
    {
        let r = CodeGenerationResult { codes: Vec::new() };
        assert(r@ =~= Seq::<(SourceType, Seq<char>)>::empty());
        r
    }

    /// Records the code for one output kind, after what is there already.
    pub fn add(&mut self, source_type: SourceType, text: String)
        ensures
            final(self)@ == old(self)@.push((source_type, text@)),
    {
        self.codes.push(GeneratedCode { source_type, text });
        assert(self@ =~= old(self)@.push((source_type, text@)));
    }

    /// The code generated for `wanted`, if any.
    pub fn get(&self, wanted: SourceType) -> (code: Option<&String>)
        ensures
            match code {
                Some(text) => generated_text(self@, wanted) == Some(text@),
                None => generated_text(self@, wanted) is None,
            },
    {
        let mut i: usize = 0;
        assert(self@.skip(0) =~= self@);
        while i < self.codes.len()
            invariant
                i <= self.codes.len(),
                generated_text(self@, wanted) == generated_text(self@.skip(i as int), wanted),
            decreases self.codes.len() - i,
        {
            proof {
                let rest = self@.skip(i as int);
                assert(rest[0] == self@[i as int]);
                assert(rest.drop_first() =~= self@.skip(i + 1));
            }
            if self.codes[i].source_type == wanted {
                return Some(&self.codes[i].text);
            }
            i = i + 1;
        }
        None
    }
}

impl Clone for CodeGenerationResult {
    fn clone(&self) -> (r: Self)
        ensures
            r@ == self@,
    {
        let mut codes: Vec<GeneratedCode> = Vec::new();
        let mut i: usize = 0;
        while i < self.codes.len()
            invariant
                i <= self.codes.len(),
                codes@.len() == i,
                forall|j: int| 0 <= j < i ==> codes@[j]@ == self.codes@[j]@,
            decreases self.codes.len() - i,
        {
            codes.push(self.codes[i].clone());
            i = i + 1;
        }
        let r = CodeGenerationResult { codes };
        assert(r@ =~= self@);
        r
    }
}

/// An edge of the module graph: the module referred to, and why.
#[derive(Debug)]
pub struct ModuleDependency {
    pub target: ModuleIdentifier,
    pub kind: DependencyKind,
}

impl View for ModuleDependency {
    type V = (Seq<char>, DependencyKind);

    open spec fn view(&self) -> (Seq<char>, DependencyKind) {
        (self.target@, self.kind)
    }
}

/// A module as a mathematical value.
pub struct ModuleView {
    /// The identifier.
    pub identifier: Seq<char>,
    /// The type.
    pub module_type: ModuleType,
    /// The resource behind the module: `None` for a module that no file
    /// stands behind.
    pub resource: Option<ResourceView>,
    /// What the module generates: output kind and text, in the order recorded.
    pub generated: Seq<(SourceType, Seq<char>)>,
    /// Whether the module failed to compile.
    pub failed: bool,
}

impl ModuleView {
    /// The resolved path of the file behind the module, if there is one.
    pub open spec fn resource_path(self) -> Option<Seq<char>> {
        match self.resource {
            Some(r) => Some(r.resource_path),
            None => None,
        }
    }

    /// A module made from a resource carries the identifier that its type and
    /// resource determine, and a module that failed to compile generates nothing.
    pub open spec fn wf(self) -> bool {
        &&& match self.resource {
            Some(r) => self.identifier == identifier_text(
                self.module_type,
                r.resource_path,
                r.query_text(),
            ),
            None => true,
        }
        &&& self.failed ==> self.generated.len() == 0
    }

    /// The module after it recorded generated code for one output kind: a
    /// module that failed to compile records nothing.
    pub open spec fn set_generated(self, source_type: SourceType, text: Seq<char>) -> Self {
        if self.failed {
            self
        } else {
            ModuleView { generated: self.generated.push((source_type, text)), ..self }
        }
    }

    /// The module after it failed to compile: it stays what it was, without
    /// any generated code.
    pub open spec fn fail(self) -> Self {
        ModuleView { generated: Seq::empty(), failed: true, ..self }
    }
}

/// A compiled unit of source content.
#[derive(Debug)]
pub struct Module {
    pub(crate) identifier: ModuleIdentifier,
    pub(crate) module_type: ModuleType,
    pub(crate) resource: Option<ResourceData>,
    pub(crate) generated: CodeGenerationResult,
    pub(crate) failed: bool,
}

impl View for Module {
    type V = ModuleView;

    open(crate) spec fn view(&self) -> ModuleView {
        ModuleView {
            identifier: self.identifier@,
            module_type: self.module_type,
            resource: match self.resource {
                Some(r) => Some(r@),
                None => None,
            },
            generated: self.generated@,
            failed: self.failed,
        }
    }
}

impl Module {
    /// A module compiled from a resource. It has generated no code yet.
    pub fn normal(module_type: ModuleType, resource: ResourceData) -> (m: Self)
        ensures
            m@.wf(),
            m@ == (ModuleView {
                identifier: identifier_text(
                    module_type,
                    resource.resource_path@,
                    resource.query_text(),
                ),
                module_type,
                resource: Some(resource@),
                generated: Seq::empty(),
                failed: false,
            }),
    {
        let identifier = module_identifier(module_type, &resource);
        Module {
            identifier,
            module_type,
            resource: Some(resource),
            generated: CodeGenerationResult::new(),
            failed: false,
        }
    }

    /// A module that no file stands behind, such as one the bundler makes up
    /// itself. It takes the identifier it is given.
    pub fn synthetic(identifier: ModuleIdentifier, module_type: ModuleType) -> (m: Self)
        ensures
            m@.wf(),
            m@ == (ModuleView {
                identifier: identifier@,
                module_type,
                resource: None,
                generated: Seq::empty(),
                failed: false,
            }),
    {
        Module {
            identifier,
            module_type,
            resource: None,
            generated: CodeGenerationResult::new(),
            failed: false,
        }
    }

    /// Records the code generated for one output kind. A module that failed
    /// to compile records nothing; the answer says whether the code was recorded.
    pub fn set_generated(&mut self, source_type: SourceType, text: String) -> (recorded: bool)
        ensures
            recorded == !old(self)@.failed,
            final(self)@ == old(self)@.set_generated(source_type, text@),
            old(self)@.wf() ==> final(self)@.wf(),
    {
        if self.failed {
            false
        } else {
            self.generated.add(source_type, text);
            true
        }
    }

    /// Marks the module as one that failed to compile. It stays in place,
    /// so that what depends on it still finds it, and generates nothing.
    pub fn fail(&mut self)
        ensures
            final(self)@ == old(self)@.fail(),
            old(self)@.wf() ==> final(self)@.wf(),
    {
        self.generated = CodeGenerationResult::new();
        self.failed = true;
    }

    /// Whether the module failed to compile.
    pub fn is_failed(&self) -> (failed: bool)
        ensures
            failed == self@.failed,
    {
        self.failed
    }

    /// The module's identifier.
    pub fn identifier(&self) -> (id: &ModuleIdentifier)
        ensures
            id@ == self@.identifier,
    {
        &self.identifier
    }

    /// The module's type.
    pub fn module_type(&self) -> (t: ModuleType)
        ensures
            t == self@.module_type,
    {
        self.module_type
    }

    /// The resource behind the module: `None` unless it was compiled from a file.
    pub fn resource_resolved_data(&self) -> (r: Option<&ResourceData>)
        ensures
            match r {
                Some(data) => self@.resource == Some(data@),
                None => self@.resource is None,
            },
    {
        self.resource.as_ref()
    }

    /// Generates the module's code anew, for every output kind it has.
    pub fn code_generation(&self) -> (r: CodeGenerationResult)
        ensures
            r@ == self@.generated,
    {
        self.generated.clone()
    }
}

/// Whether two identifiers are the same text.
pub fn same_identifier(a: &ModuleIdentifier, b: &ModuleIdentifier) -> (same: bool)
    ensures
        same == (a@ == b@),
{
    str_eq(a.as_str(), b.as_str())
}

} // verus!

//! Compiler options, and the raw resolve options as a host hands them over.

use vstd::prelude::*;
use crate::error::Error;
use crate::text::text_views;

verus! {

/// One entry of the build: the request that the entry starts from.
#[derive(Debug)]
pub struct EntryItem {
    pub path: String,
}

/// Options of the development server.
#[derive(Clone, Copy, Debug, PartialEq, Eq, Structural)]
pub struct DevServerOptions {
    /// Whether hot module replacement is on.
    pub hot: bool,
}

/// Where the outputs go.
#[derive(Debug)]
pub struct OutputOptions {
    /// The output directory, relative to the root.
    pub path: String,
    /// The prefix under which the outputs are served.
    pub public_path: String,
}

/// The platform the bundle is built for.
#[derive(Clone, Copy, Debug, PartialEq, Eq, Structural)]
pub enum Target {
    Web,
    WebWorker,
    Node,
}

/// The options of one compiler.
#[derive(Debug)]
pub struct CompilerOptions {
    /// The entries by name, in the order in which they were configured.
    pub entries: Vec<(String, EntryItem)>,
    /// The directory that relative requests start from.
    pub root: String,
    pub dev_server: DevServerOptions,
    pub output: OutputOptions,
    pub target: Target,
}

/// What is known of the options while they are still being put together.
#[derive(Debug)]
pub struct CompilerOptionsBuilder {
    pub root: Option<String>,
    pub target: Option<Target>,
}

/// What an alias stands for.
#[derive(Debug)]
pub enum AliasMap {
    /// The request is replaced by this one.
    Target(String),
    /// The request is dropped.
    Ignored,
}

/// An alias target as a mathematical value.
pub enum AliasView {
    Target(Seq<char>),
    Ignored,
}

impl View for AliasMap {
    type V = AliasView;

    open spec fn view(&self) -> AliasView {
        match self {
            AliasMap::Target(t) => AliasView::Target(t@),
            AliasMap::Ignored => AliasView::Ignored,
        }
    }
}

/// A list of strings that may be absent, as a mathematical value.
pub open spec fn optional_texts(list: Option<Vec<String>>) -> Option<Seq<Seq<char>>> {
    match list {
        Some(items) => Some(text_views(items@)),
        None => None,
    }
}

/// The resolve options as a mathematical value.
pub struct ResolveView {
    pub prefer_relative: Option<bool>,
    pub extensions: Option<Seq<Seq<char>>>,
    pub main_files: Option<Seq<Seq<char>>>,
    pub main_fields: Option<Seq<Seq<char>>>,
    pub browser_field: Option<bool>,
    pub condition_names: Option<Seq<Seq<char>>>,
    /// The aliases: the request that is replaced, and what replaces it.
    pub alias: Option<Seq<(Seq<char>, AliasView)>>,
    pub symlinks: Option<bool>,
}

/// How requests are resolved to files.
#[derive(Debug)]
pub struct Resolve {
    pub prefer_relative: Option<bool>,
    pub extensions: Option<Vec<String>>,
    pub main_files: Option<Vec<String>>,
    pub main_fields: Option<Vec<String>>,
    pub browser_field: Option<bool>,
    pub condition_names: Option<Vec<String>>,
    pub alias: Option<Vec<(String, AliasMap)>>,
    pub symlinks: Option<bool>,
}

impl View for Resolve {
    type V = ResolveView;

    open spec fn view(&self) -> ResolveView {
        ResolveView {
            prefer_relative: self.prefer_relative,
            extensions: optional_texts(self.extensions),
            main_files: optional_texts(self.main_files),
            main_fields: optional_texts(self.main_fields),
            browser_field: self.browser_field,
            condition_names: optional_texts(self.condition_names),
            alias: match self.alias {
                Some(pairs) => Some(pairs@.map_values(|p: (String, AliasMap)| (p.0@, p.1@))),
                None => None,
            },
            symlinks: self.symlinks,
        }
    }
}

/// The resolve options as a host hands them over: every field may be
/// absent, and an alias maps one request to another.
#[derive(Debug)]
pub struct RawResolveOptions {
    pub prefer_relative: Option<bool>,
    pub extensions: Option<Vec<String>>,
    pub main_files: Option<Vec<String>>,
    pub main_fields: Option<Vec<String>>,
    pub browser_field: Option<bool>,
    pub condition_names: Option<Vec<String>>,
    /// The aliases: the request that is replaced, and the request that replaces it.
    pub alias: Option<Vec<(String, String)>>,
    pub symlinks: Option<bool>,
}

impl RawResolveOptions {
    /// The resolve options that these raw options stand for.
    pub open spec fn resolved(&self) -> ResolveView {
        ResolveView {
            prefer_relative: self.prefer_relative,
            extensions: optional_texts(self.extensions),
            main_files: optional_texts(self.main_files),
            main_fields: optional_texts(self.main_fields),
            browser_field: self.browser_field,
            condition_names: optional_texts(self.condition_names),
            alias: match self.alias {
                Some(pairs) => Some(
                    pairs@.map_values(|p: (String, String)| (p.0@, AliasView::Target(p.1@))),
                ),
                None => None,
            },
            symlinks: self.symlinks,
        }
    }

    /// Turns the raw options into resolve options: every field is taken
    /// over as it is, and every alias becomes a replacement by its target,
    /// in the order given. This never fails.
    pub fn to_compiler_option(self, _options: &CompilerOptionsBuilder) -> (r: Result<
        Resolve,
        Error,
    >)
        ensures
            r matches Ok(resolve) && resolve@ == self.resolved(),
    {
        let alias = match self.alias {
            Some(pairs) => {
                let mut out: Vec<(String, AliasMap)> = Vec::new();
                let mut i: usize = 0;
                while i < pairs.len()
                    invariant
                        i <= pairs.len(),
                        out@.len() == i,
                        forall|j: int|
                            0 <= j < i ==> (#[trigger] out@[j]).0@ == pairs@[j].0@ && out@[j].1@
                                == AliasView::Target(pairs@[j].1@),
                    decreases pairs.len() - i,
                {
                    out.push((pairs[i].0.clone(), AliasMap::Target(pairs[i].1.clone())));
                    i = i + 1;
                }
                proof {
                    assert(out@.map_values(|p: (String, AliasMap)| (p.0@, p.1@))
                        =~= pairs@.map_values(
                        |p: (String, String)| (p.0@, AliasView::Target(p.1@)),
                    ));
                }
                Some(out)
            },
            None => None,
        };
        Ok(
            Resolve {
                prefer_relative: self.prefer_relative,
                extensions: self.extensions,
                browser_field: self.browser_field,
                main_fields: self.main_fields,
                main_files: self.main_files,
                condition_names: self.condition_names,
                alias,
                symlinks: self.symlinks,
            },
        )
    }

    /// The raw options to go by where the host gave none: every field absent.
    pub fn fallback_value(_options: &CompilerOptionsBuilder) -> (raw: Self)
        ensures
            raw.prefer_relative is None,
            raw.extensions is None,
            raw.main_files is None,
            raw.main_fields is None,
            raw.browser_field is None,
            raw.condition_names is None,
            raw.alias is None,
            raw.symlinks is None,
    {
        RawResolveOptions {
            prefer_relative: None,
            extensions: None,
            main_files: None,
            main_fields: None,
            browser_field: None,
            condition_names: None,
            alias: None,
            symlinks: None,
        }
    }
}

} // verus!

//! Assets taken in as source: a file's content becomes a JavaScript module
//! that exports the content as a string.

use vstd::prelude::*;
use vstd::string::{StrSliceExecFns, StringExecFns};
use crate::error::Error;
use crate::module::{ModuleType, SourceType};
use crate::plugin_driver::Content;

verus! {

/// What a parser is handed: where the module came from, and its content.
#[derive(Debug)]
pub struct ParseModuleArgs {
    pub uri: String,
    pub source: Content,
}

/// What a module renders for one output kind.
#[derive(Debug)]
pub enum ModuleRenderResult {
    JavaScript(String),
    Css(String),
}

/// The bytes of a content: those of the text, or the buffer itself.
pub open spec fn content_bytes(content: Content) -> Seq<u8> {
    match content {
        Content::String(text) => vstd::utf8::encode_utf8(text@),
        Content::Buffer(bytes) => bytes@,
    }
}

/// Turns a content into its bytes.
pub fn into_bytes(content: Content) -> (bytes: Vec<u8>)
    ensures
        bytes@ == content_bytes(content),
{
    match content {
        Content::String(text) => text.as_str().as_bytes_vec(),
        Content::Buffer(bytes) => bytes,
    }
}

/// The text that `String::from_utf8_lossy` makes of a byte string: the
/// bytes read as UTF-8, with the replacement character wherever they are
/// not valid.
pub uninterp spec fn utf8_lossy(bytes: Seq<u8>) -> Seq<char>;

/// The text that `{:?}` writes for a string: the string between double
/// quotes, with the characters escaped that Rust escapes in a debug print.
pub uninterp spec fn debug_quoted(text: Seq<char>) -> Seq<char>;

/// Reads bytes as text with `String::from_utf8_lossy`. Believed, not
/// proved: the text depends on the bytes alone.
#[verifier::external_body]
fn lossy_text(bytes: &Vec<u8>) -> (text: String)
    ensures
        text@ == utf8_lossy(bytes@),
{
    String::from_utf8_lossy(bytes).into_owned()
}

/// Writes a string as `{:?}` does, by `format!`. Believed, not proved: the
/// text depends on the string alone.
#[verifier::external_body]
fn quote_text(text: &str) -> (quoted: String)
    ensures
        quoted@ == debug_quoted(text@),
{
    format!("{:?}", text)
}

/// What stands before the exported value in a rendered asset module.
pub open spec fn asset_source_head() -> Seq<char> {
    "function (module, exports, __rspack_require__, __rspack_dynamic_require__) {\n  \"use strict\";\n  module.exports = "@
}

/// What stands after the exported value in a rendered asset module.
pub open spec fn asset_source_tail() -> Seq<char> {
    ";\n};\n"@
}

/// Wraps an expression into the module function that exports it.
pub fn wrap_asset_source(exported: &str) -> (code: String)
    ensures
        code@ == asset_source_head() + exported@ + asset_source_tail(),
{
    let mut code = String::from_str(
        "function (module, exports, __rspack_require__, __rspack_dynamic_require__) {\n  \"use strict\";\n  module.exports = ",
    );
    code.append(exported);
    code.append(";\n};\n");
    code
}

/// The parser for assets that are taken in as source.
#[derive(Debug)]
pub struct AssetSourceParser {}

impl AssetSourceParser {
    /// Makes a module of a file's content, whatever module type was asked
    /// for. This never fails.
    pub fn parse(&self, _module_type: ModuleType, args: ParseModuleArgs) -> (r: Result<
        AssetSourceModule,
        Error,
    >)
        ensures
            r matches Ok(module) && module@ == content_bytes(args.source),
    {
        Ok(AssetSourceModule::new(into_bytes(args.source)))
    }
}

impl Default for AssetSourceParser {
    fn default() -> (parser: Self)
        ensures
            parser == (AssetSourceParser {  }),
    {
        AssetSourceParser {  }
    }
}

/// A module whose content is a file's bytes.
#[derive(Debug)]
pub struct AssetSourceModule {
    pub(crate) buf: Vec<u8>,
}

impl View for AssetSourceModule {
    type V = Seq<u8>;

    open(crate) spec fn view(&self) -> Seq<u8> {
        self.buf@
    }
}

impl AssetSourceModule {
    /// What the module renders for the output kind `requested`: for
    /// JavaScript, unless the content is empty, the module function that
    /// exports the content as a string; nothing for any other kind.
    pub open spec fn rendered(bytes: Seq<u8>, requested: SourceType) -> Option<Seq<char>> {
        if requested == SourceType::JavaScript && bytes.len() > 0 {
            Some(asset_source_head() + debug_quoted(utf8_lossy(bytes)) + asset_source_tail())
        } else {
            None
        }
    }

    /// A module of the content `buf`.
    pub fn new(buf: Vec<u8>) -> (module: Self)
        ensures
            module@ == buf@,
    {
        AssetSourceModule { buf }
    }

    /// The module's type: an asset.
    pub fn module_type(&self) -> (t: ModuleType)
        ensures
            t == ModuleType::Asset,
    {
        ModuleType::Asset
    }

    /// The output kinds the module renders for: JavaScript alone.
    pub fn source_types(&self) -> (kinds: Vec<SourceType>)
        ensures
            kinds@ == seq![SourceType::JavaScript],
    {
        let mut kinds: Vec<SourceType> = Vec::new();
        kinds.push(SourceType::JavaScript);
        kinds
    }

    /// Renders the module for the output kind `requested_source_type`. This
    /// never fails.
    pub fn render(&self, requested_source_type: SourceType) -> (r: Result<
        Option<ModuleRenderResult>,
        Error,
    >)
        ensures
            match r {
                Ok(Some(ModuleRenderResult::JavaScript(code))) => Self::rendered(
                    self@,
                    requested_source_type,
                ) == Some(code@),
                Ok(None) => Self::rendered(self@, requested_source_type) is None,
                _ => false,
            },
    {
        let result = match requested_source_type {
            SourceType::JavaScript => {
                if self.buf.len() == 0 {
                    None
                } else {
                    let text = lossy_text(&self.buf);
                    let quoted = quote_text(text.as_str());
                    Some(ModuleRenderResult::JavaScript(wrap_asset_source(quoted.as_str())))
                }
            },
            _ => None,
        };
        Ok(result)
    }
}

} // verus!

//! Provide: free identifiers and member chains that are configured as
//! provided are replaced by a `require` of the module that provides them.
//!
//! The syntax tree itself belongs to the parser. This module works on the
//! little of it that the replacement reads: identifiers, chains of member
//! accesses, and the place in the source where they stand.

use vstd::prelude::*;
use vstd::string::StringExecFns;
use crate::text::text_views;
use crate::text_map::{lookup, TextMap};

verus! {

/// What is provided: for a name, the module to require and the members to
/// take from it, outermost first.
pub type Provide = TextMap<Vec<String>>;

/// A place in the source, with the syntax context that names are resolved in.
#[derive(Clone, Copy, Debug, PartialEq, Eq, Structural)]
pub struct Span {
    pub lo: u32,
    pub hi: u32,
    pub ctxt: u32,
}

/// An identifier in the source.
#[derive(Debug)]
pub struct Ident {
    pub span: Span,
    pub sym: String,
}

/// What a member access is made on.
#[derive(Debug)]
pub enum MemberObject {
    /// Another member access.
    Member(Box<MemberExpr>),
    /// An identifier.
    Ident(String),
    /// `this`.
    This,
    /// Any other expression.
    Other,
}

/// A member access: an object, and the member's name where the member is
/// named by an identifier. A computed or private member has no name here.
#[derive(Debug)]
pub struct MemberExpr {
    pub obj: MemberObject,
    pub prop: Option<String>,
}

/// An expression as the replacement sees it.
#[derive(Debug)]
pub enum Expr {
    Ident(Ident),
    Member(MemberExpr),
    /// Any other expression.
    Other,
}

/// A call of a function that is named by an identifier, with one string argument.
#[derive(Debug)]
pub struct CallExpr {
    pub span: Span,
    pub callee: String,
    pub argument: String,
}

/// A call as a mathematical value.
pub struct CallView {
    pub span: Span,
    pub callee: Seq<char>,
    pub argument: Seq<char>,
}

impl View for CallExpr {
    type V = CallView;

    open spec fn view(&self) -> CallView {
        CallView { span: self.span, callee: self.callee@, argument: self.argument@ }
    }
}

/// The expression that stands in for a provided name: a call, or a member
/// of such an expression, taken by a string in brackets.
#[derive(Debug)]
pub enum ProvidedExpr {
    Call(CallExpr),
    Member { span: Span, obj: Box<ProvidedExpr>, prop: String },
}

impl ProvidedExpr {
    /// The call at the bottom of the expression.
    pub open spec fn root(self) -> CallView
        decreases self,
    {
        match self {
            ProvidedExpr::Call(call) => call@,
            ProvidedExpr::Member { obj, .. } => obj.root(),
        }
    }

    /// The members taken from the call, innermost first.
    pub open spec fn members(self) -> Seq<Seq<char>>
        decreases self,
    {
        match self {
            ProvidedExpr::Call(_) => Seq::empty(),
            ProvidedExpr::Member { obj, prop, .. } => obj.members().push(prop@),
        }
    }

    /// Whether every part of the expression stands at `span`.
    pub open spec fn all_at(self, span: Span) -> bool
        decreases self,
    {
        match self {
            ProvidedExpr::Call(call) => call.span == span,
            ProvidedExpr::Member { span: here, obj, .. } => here == span && obj.all_at(span),
        }
    }
}

/// What a visit makes of an expression.
#[derive(Debug)]
pub enum Visited {
    /// The expression stays as it is.
    Unchanged,
    /// The expression is replaced by this one.
    Replaced(ProvidedExpr),
}

/// The name that an object contributes to a dotted name.
pub open spec fn object_name(obj: MemberObject) -> Seq<char>
    decreases obj,
{
    match obj {
        MemberObject::Member(inner) => nested_name(*inner),
        MemberObject::Ident(sym) => sym@,
        MemberObject::This => "this"@,
        MemberObject::Other => Seq::empty(),
    }
}

/// The dotted name of a member chain: the name of the innermost object,
/// which is an identifier's name, `this`, or nothing for any other
/// expression, and after it a dot and the member's name for every member
/// that is named by an identifier, innermost first.
pub open spec fn nested_name(member_expr: MemberExpr) -> Seq<char>
    decreases member_expr,
{
    object_name(member_expr.obj) + match member_expr.prop {
        Some(prop) => "."@ + prop@,
        None => Seq::empty(),
    }
}

/// The replacement of identifiers by what is provided for them.
pub struct ProvideBuiltin<'a> {
    pub(crate) opts: &'a Provide,
    pub(crate) unresolved_mark: u32,
}

/// The replacement that goes by `opts`. `unresolved_mark` is the syntax
/// context of names that are not bound in the file.
pub fn provide_builtin<'a>(opts: &'a Provide, unresolved_mark: u32) -> (visitor: ProvideBuiltin<'a>)
    requires
        opts.wf(),
    ensures
        visitor.wf(),
        visitor.provided() == opts@,
        visitor.mark() == unresolved_mark,
{
    ProvideBuiltin::new(opts, unresolved_mark)
}

impl<'a> ProvideBuiltin<'a> {
    /// No name is provided for twice.
    pub open(crate) spec fn wf(&self) -> bool {
        self.opts.wf()
    }

    /// What is provided, by name.
    pub open(crate) spec fn provided(&self) -> Seq<(Seq<char>, Seq<String>)> {
        self.opts@
    }

    /// The syntax context of unbound names.
    pub open(crate) spec fn mark(&self) -> u32 {
        self.unresolved_mark
    }

    /// The place where the replacement of a member chain stands: nowhere
    /// in the source, in the syntax context of unbound names.
    pub open spec fn unresolved_span(mark: u32) -> Span {
        Span { lo: 0, hi: 0, ctxt: mark }
    }

    /// What is provided for `name`, if anything with at least a module is.
    pub open spec fn provided_for(
        provided: Seq<(Seq<char>, Seq<String>)>,
        name: Seq<char>,
    ) -> Option<
        Seq<Seq<char>>,
    > {
        match lookup(provided, name) {
            Some(path) => if path.len() > 0 {
                Some(text_views(path))
            } else {
                None
            },
            None => None,
        }
    }

    /// Whether `made` is the expression for `provided_path` at `span`: a call
    /// of `require` on the first string, and from it one member after the
    /// other by the strings that follow, all at `span`.
    pub open spec fn is_obj_expr(
        made: ProvidedExpr,
        span: Span,
        provided_path: Seq<Seq<char>>,
    ) -> bool {
        &&& provided_path.len() > 0
        &&& made.root() == (CallView { span, callee: "require"@, argument: provided_path[0] })
        &&& made.members() == provided_path.skip(1)
        &&& made.all_at(span)
    }

    /// What a visit makes of a name at `span`.
    pub open spec fn is_visit(
        provided: Seq<(Seq<char>, Seq<String>)>,
        name: Seq<char>,
        span: Span,
        visited: Visited,
    ) -> bool {
        match Self::provided_for(provided, name) {
            Some(path) => visited matches Visited::Replaced(made) && Self::is_obj_expr(
                made,
                span,
                path,
            ),
            None => visited is Unchanged,
        }
    }

    /// The replacement that goes by `opts`.
    pub fn new(opts: &'a Provide, unresolved_mark: u32) -> (visitor: Self)
        requires
            opts.wf(),
        ensures
            visitor.wf(),
            visitor.provided() == opts@,
            visitor.mark() == unresolved_mark,
    {
        ProvideBuiltin { opts, unresolved_mark }
    }

    /// Replaces an identifier for which something is provided by the
    /// expression for it, at the identifier's own place.
    pub fn handle_ident(&self, ident: &Ident) -> (visited: Visited)
        requires
            self.wf(),
        ensures
            Self::is_visit(self.provided(), ident.sym@, ident.span, visited),
    {
        match self.opts.get(ident.sym.as_str()) {
            Some(provided_path) => {
                if provided_path.len() > 0 {
                    Visited::Replaced(self.create_obj_expr(ident.span, provided_path))
                } else {
                    Visited::Unchanged
                }
            },
            None => Visited::Unchanged,
        }
    }

    /// Replaces a member chain for whose dotted name something is provided
    /// by the expression for it, in the syntax context of unbound names.
    pub fn handle_member_expr(&self, member_expr: &MemberExpr) -> (visited: Visited)
        requires
            self.wf(),
        ensures
            Self::is_visit(
                self.provided(),
                nested_name(*member_expr),
                Self::unresolved_span(self.mark()),
                visited,
            ),
    {
        let identifier_name = self.get_nested_identifier_name(member_expr);
        match self.opts.get(identifier_name.as_str()) {
            Some(provided_path) => {
                if provided_path.len() > 0 {
                    let unresolved_span = Span { lo: 0, hi: 0, ctxt: self.unresolved_mark };
                    Visited::Replaced(self.create_obj_expr(unresolved_span, provided_path))
                } else {
                    Visited::Unchanged
                }
            },
            None => Visited::Unchanged,
        }
    }

    /// Builds the expression for `provided_path` at `span`.
    pub fn create_obj_expr(&self, span: Span, provided_path: &Vec<String>) -> (made: ProvidedExpr)
        requires
            provided_path@.len() > 0,
        ensures
            Self::is_obj_expr(made, span, text_views(provided_path@)),
    {
        let ghost path = text_views(provided_path@);
        let call_expr = self.create_call_expr(span, provided_path[0].as_str());
        let mut obj_expr = ProvidedExpr::Call(call_expr);
        let mut i: usize = 1;
        proof {
            assert(obj_expr.members() =~= path.subrange(1, 1));
        }
        while i < provided_path.len()
            invariant
                1 <= i <= provided_path.len(),
                path == text_views(provided_path@),
                obj_expr.root() == (CallView { span, callee: "require"@, argument: path[0] }),
                obj_expr.members() == path.subrange(1, i as int),
                obj_expr.all_at(span),
            decreases provided_path.len() - i,
        {
            let ghost inner = obj_expr;
            let module_name = provided_path[i].clone();
            obj_expr = ProvidedExpr::Member { span, obj: Box::new(obj_expr), prop: module_name };
            proof {
                assert(obj_expr.members() == inner.members().push(path[i as int]));
                assert(path.subrange(1, i + 1) =~= path.subrange(1, i as int).push(path[i as int]));
            }
            i = i + 1;
        }
        proof {
            assert(path.subrange(1, path.len() as int) =~= path.skip(1));
        }
        obj_expr
    }

    /// Builds the call `require(provided_path)` at `span`.
    pub fn create_call_expr(&self, span: Span, provided_path: &str) -> (call: CallExpr)
        ensures
            call@ == (CallView { span, callee: "require"@, argument: provided_path@ }),
    {
        CallExpr {
            span,
            callee: String::from_str("require"),
            argument: String::from_str(provided_path),
        }
    }

    /// The dotted name of a member chain.
    pub fn get_nested_identifier_name(&self, member_expr: &MemberExpr) -> (name: String)
        ensures
            name@ == nested_name(*member_expr),
    {
        let mut identifier_name = String::new();
        build_identifier_name(member_expr, &mut identifier_name);
        assert(Seq::<char>::empty() + nested_name(*member_expr) =~= nested_name(*member_expr));
        identifier_name
    }

    /// Visits one expression: an identifier or a member chain for which
    /// something is provided is replaced, anything else stays.
    pub fn visit_mut_expr(&self, expr: &Expr) -> (visited: Visited)
        requires
            self.wf(),
        ensures
            match *expr {
                Expr::Ident(ident) => Self::is_visit(
                    self.provided(),
                    ident.sym@,
                    ident.span,
                    visited,
                ),
                Expr::Member(member_expr) => Self::is_visit(
                    self.provided(),
                    nested_name(member_expr),
                    Self::unresolved_span(self.mark()),
                    visited,
                ),
                Expr::Other => visited is Unchanged,
            },
    {
        match expr {
            Expr::Ident(ident) => self.handle_ident(ident),
            Expr::Member(member_expr) => self.handle_member_expr(member_expr),
            Expr::Other => Visited::Unchanged,
        }
    }
}

/// Appends the dotted name of a member chain to `identifier_name`.
fn build_identifier_name(member_expr: &MemberExpr, identifier_name: &mut String)
    ensures
        final(identifier_name)@ == old(identifier_name)@ + nested_name(*member_expr),
    decreases *member_expr,
{
    let ghost before = identifier_name@;
    match &member_expr.obj {
        MemberObject::Member(nested_member_expr) => {
            build_identifier_name(nested_member_expr, identifier_name);
        },
        MemberObject::Ident(sym) => {
            identifier_name.append(sym.as_str());
        },
        MemberObject::This => {
            identifier_name.append("this");
        },
        MemberObject::Other => {
            assert(before + Seq::<char>::empty() =~= before);
        },
    }
    assert(identifier_name@ == before + object_name(member_expr.obj));
    match &member_expr.prop {
        Some(ident_prop) => {
            identifier_name.append(".");
            identifier_name.append(ident_prop.as_str());
            assert(identifier_name@ =~= before + nested_name(*member_expr));
        },
        None => {
            assert(identifier_name@ =~= before + nested_name(*member_expr));
        },
    }
}

} // verus!

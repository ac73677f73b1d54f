//! The syntax tree the analyzer walks: one closed enumeration of node kinds.

use vstd::prelude::*;

verus! {

/// Visibility written on a declaration.
#[derive(Clone, Copy, Debug, PartialEq, Eq, Structural)]
pub enum Visibility {
    /// `pub`
    Public,
    /// `pub(crate)`, `pub(super)`, `pub(in path)`
    Restricted,
    /// nothing written
    Inherited,
}

/// One parameter of a function signature.
#[derive(Debug)]
pub enum Param {
    /// The implicit receiver (`self`, `&self`, `&mut self`, ...).
    Receiver,
    /// A typed parameter, as its source text (`a: i32`).
    Typed(String),
}

/// One item in the body of a trait or an implementation block.
#[derive(Debug)]
pub enum Member {
    /// A function-like item: its name, then the nodes of its body (none
    /// for a trait method without a default body).
    Function(String, Vec<Node>),
    /// Any other item (a constant, an associated type, a macro call).
    Other,
}

/// The type an implementation block is written for.
#[derive(Debug)]
pub enum SelfType {
    /// A named path, by its segments (`std::fmt::Display` has three).
    Path(Vec<String>),
    /// A reference, tuple, slice or any other compound form.
    Other,
}

/// A function declaration with its body.
#[derive(Debug)]
pub struct ItemFn {
    pub name: String,
    pub vis: Visibility,
    pub is_async: bool,
    pub params: Vec<Param>,
    pub body: Vec<Node>,
}

/// A struct declaration; `None` stands for a positional field.
#[derive(Debug)]
pub struct ItemStruct {
    pub name: String,
    pub vis: Visibility,
    pub fields: Vec<Option<String>>,
}

/// A trait declaration.
#[derive(Debug)]
pub struct ItemTrait {
    pub name: String,
    pub vis: Visibility,
    pub members: Vec<Member>,
}

/// An implementation block.
#[derive(Debug)]
pub struct ItemImpl {
    pub self_ty: SelfType,
    pub members: Vec<Member>,
}

/// One match arm: the nodes of its guard and of its body, in order.
#[derive(Debug)]
pub struct Arm {
    pub nodes: Vec<Node>,
}

/// A match expression: its scrutinee and its arms.
#[derive(Debug)]
pub struct ExprMatch {
    pub scrutinee: Vec<Node>,
    pub arms: Vec<Arm>,
}

/// A call expression: its source text (callee and argument list as
/// written), then the nodes of the callee and the arguments.
#[derive(Debug)]
pub struct ExprCall {
    pub text: String,
    pub children: Vec<Node>,
}

/// A node of the syntax tree. Declarations and expressions share one
/// enumeration so that declarations nested in function bodies are found
/// by the same walk.
#[derive(Debug)]
pub enum Node {
    Fn(ItemFn),
    Struct(ItemStruct),
    Trait(ItemTrait),
    Impl(ItemImpl),
    /// A use declaration, as its source text.
    Use(String),
    /// A conditional (`if`, `if let`): its condition and branches.
    If(Vec<Node>),
    Match(ExprMatch),
    /// A loop of any form (`loop`, `while`, `for`): its header and body.
    Loop(Vec<Node>),
    Call(ExprCall),
    /// Any other node, with the nodes nested in it (a module, a block, a
    /// method call, a closure, a constant's initializer).
    Other(Vec<Node>),
}

/// A whole source file: its top-level items in order.
#[derive(Debug)]
pub struct File {
    pub items: Vec<Node>,
}

} // verus!

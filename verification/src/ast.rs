use vstd::prelude::*;

verus! {

/// The identifier of a node: the id of the bloc it was built from.
pub type Id = u32;

/// A node of a program's syntax tree.
#[derive(Debug, PartialEq)]
pub struct Node {
    pub id: Id,
    pub data: NodeData,
}

/// What a node is.
#[derive(Debug, PartialEq)]
pub enum NodeData {
    Sequence(Vec<Node>),
    While(While),
    IfElse(IfElse),
    RawText(String),
    VariableAssignment(VariableAssignment),
    FunctionCall(FunctionCall),
    FunctionDeclaration(FunctionDeclaration),
}

/// A loop; `is_do` runs the body once before the first test.
#[derive(Debug, PartialEq)]
pub struct While {
    pub is_do: bool,
    pub condition: Box<Node>,
    pub sequence: Box<Node>,
}

/// A condition with the sequence it guards.
#[derive(Debug, PartialEq)]
pub struct If {
    pub condition: Box<Node>,
    pub sequence: Box<Node>,
}

/// An `if`, its `elif` branches and its `else`.
#[derive(Debug, PartialEq)]
pub struct IfElse {
    pub if_branch: If,
    pub elif: Option<Vec<If>>,
    pub else_branch: Option<Box<Node>>,
}

/// `name = value`.
#[derive(Debug, PartialEq)]
pub struct VariableAssignment {
    pub name: String,
    pub value: Box<Node>,
}

/// A call of a function by name.
#[derive(Debug, PartialEq)]
pub struct FunctionCall {
    pub name: String,
    pub argv: Vec<Node>,
}

/// A function with named parameters and a body; each parameter is listed
/// with its name and its default value.
#[derive(Debug, PartialEq)]
pub struct FunctionDeclaration {
    pub name: String,
    pub argv: Vec<(String, VariableAssignment)>,
    pub sequence: Box<Node>,
}

impl FunctionDeclaration {
    /// Each parameter is listed once: no two entries of `argv` have the same
    /// name.
    pub open spec fn wf(&self) -> bool {
        forall|i: int, j: int|
            0 <= i < j < self.argv@.len() ==> (#[trigger] self.argv@[i]).0@ != (#[trigger] self.argv@[j]).0@
    }
}

} // verus!

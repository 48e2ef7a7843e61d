use crate::error::outcome;
use crate::error::plain;
use crate::error::Error;
use crate::error::ErrorKind;
use crate::symtable::CType;
use vstd::prelude::*;

verus! {

#[derive(Clone, Copy, Debug, PartialEq, Eq, Structural)]
pub enum BinOp {
    Plus,
    Minus,
    Times,
    Divide,
}

#[derive(Clone, Copy, Debug, PartialEq, Eq, Structural)]
pub enum CondOp {
    Equal,
    NotEqual,
    Less,
    LessEqual,
    Greater,
    GreaterEqual,
}

/// A node of the typed syntax tree. A float literal is held as its text.
#[derive(Debug, PartialEq, Eq)]
#[allow(inconsistent_fields)]
pub enum Node {
    Empty,
    Assign { ctype: CType, lhs: Box<Node>, rhs: Box<Node> },
    Free { expr: Box<Node> },
    Malloc { ctype: CType, expr: Box<Node> },
    Read { ctype: CType, var: Box<Node> },
    Return { ctype: CType, function: i32, expr: Box<Node> },
    StatementList { statements: Vec<Node> },
    Write { ctype: CType, expr: Box<Node> },
    /// `lhs` is the branch taken when `cond` holds, `rhs` the other.
    IfElse { cond: Box<Node>, lhs: Box<Node>, rhs: Box<Node> },
    While { cond: Box<Node>, statements: Box<Node> },
    BinaryOp { ctype: CType, op: BinOp, lhs: Box<Node>, rhs: Box<Node> },
    ConditionalOp { ctype: CType, op: CondOp, lhs: Box<Node>, rhs: Box<Node> },
    /// Arithmetic negation.
    UnaryOp { ctype: CType, expr: Box<Node> },
    Cast { ctype: CType, expr: Box<Node> },
    /// An assignment target in memory, at the address that `expr` computes.
    Address { ctype: CType, expr: Box<Node> },
    Dereference { ctype: CType, expr: Box<Node> },
    /// The address of `expr`, as a value.
    Reference { ctype: CType, expr: Box<Node> },
    Function { ident: String, scope: usize, statements: Box<Node> },
    Call { ctype: CType, ident: String, scope: usize, arguments: Vec<Node> },
    FloatLit { ctype: CType, val: String },
    IntLit { ctype: CType, val: i32 },
    Var { ctype: CType, ident: String, scope: usize },
}

#[allow(inconsistent_fields)]
pub enum NodeView {
    Empty,
    Assign { ctype: CType, lhs: Box<NodeView>, rhs: Box<NodeView> },
    Free { expr: Box<NodeView> },
    Malloc { ctype: CType, expr: Box<NodeView> },
    Read { ctype: CType, var: Box<NodeView> },
    Return { ctype: CType, function: i32, expr: Box<NodeView> },
    StatementList { statements: Seq<NodeView> },
    Write { ctype: CType, expr: Box<NodeView> },
    IfElse { cond: Box<NodeView>, lhs: Box<NodeView>, rhs: Box<NodeView> },
    While { cond: Box<NodeView>, statements: Box<NodeView> },
    BinaryOp { ctype: CType, op: BinOp, lhs: Box<NodeView>, rhs: Box<NodeView> },
    ConditionalOp { ctype: CType, op: CondOp, lhs: Box<NodeView>, rhs: Box<NodeView> },
    UnaryOp { ctype: CType, expr: Box<NodeView> },
    Cast { ctype: CType, expr: Box<NodeView> },
    Address { ctype: CType, expr: Box<NodeView> },
    Dereference { ctype: CType, expr: Box<NodeView> },
    Reference { ctype: CType, expr: Box<NodeView> },
    Function { ident: Seq<char>, scope: usize, statements: Box<NodeView> },
    Call { ctype: CType, ident: Seq<char>, scope: usize, arguments: Seq<NodeView> },
    FloatLit { ctype: CType, val: Seq<char> },
    IntLit { ctype: CType, val: i32 },
    Var { ctype: CType, ident: Seq<char>, scope: usize },
}

/// The model of a node.
pub open spec fn node_view(n: Node) -> NodeView
    decreases n,
{
    match n {
        Node::Empty => NodeView::Empty,
        Node::Assign { ctype, lhs, rhs } => NodeView::Assign {
            ctype,
            lhs: Box::new(node_view(*lhs)),
            rhs: Box::new(node_view(*rhs)),
        },
        Node::Free { expr } => NodeView::Free { expr: Box::new(node_view(*expr)) },
        Node::Malloc { ctype, expr } => NodeView::Malloc {
            ctype,
            expr: Box::new(node_view(*expr)),
        },
        Node::Read { ctype, var } => NodeView::Read { ctype, var: Box::new(node_view(*var)) },
        Node::Return { ctype, function, expr } => NodeView::Return {
            ctype,
            function,
            expr: Box::new(node_view(*expr)),
        },
        Node::StatementList { statements } => NodeView::StatementList {
            statements: Seq::new(
                statements@.len(),
                |i: int|
                    if 0 <= i < statements@.len() {
                        node_view(statements@[i])
                    } else {
                        NodeView::Empty
                    },
            ),
        },
        Node::Write { ctype, expr } => NodeView::Write { ctype, expr: Box::new(node_view(*expr)) },
        Node::IfElse { cond, lhs, rhs } => NodeView::IfElse {
            cond: Box::new(node_view(*cond)),
            lhs: Box::new(node_view(*lhs)),
            rhs: Box::new(node_view(*rhs)),
        },
        Node::While { cond, statements } => NodeView::While {
            cond: Box::new(node_view(*cond)),
            statements: Box::new(node_view(*statements)),
        },
        Node::BinaryOp { ctype, op, lhs, rhs } => NodeView::BinaryOp {
            ctype,
            op,
            lhs: Box::new(node_view(*lhs)),
            rhs: Box::new(node_view(*rhs)),
        },
        Node::ConditionalOp { ctype, op, lhs, rhs } => NodeView::ConditionalOp {
            ctype,
            op,
            lhs: Box::new(node_view(*lhs)),
            rhs: Box::new(node_view(*rhs)),
        },
        Node::UnaryOp { ctype, expr } => NodeView::UnaryOp {
            ctype,
            expr: Box::new(node_view(*expr)),
        },
        Node::Cast { ctype, expr } => NodeView::Cast { ctype, expr: Box::new(node_view(*expr)) },
        Node::Address { ctype, expr } => NodeView::Address {
            ctype,
            expr: Box::new(node_view(*expr)),
        },
        Node::Dereference { ctype, expr } => NodeView::Dereference {
            ctype,
            expr: Box::new(node_view(*expr)),
        },
        Node::Reference { ctype, expr } => NodeView::Reference {
            ctype,
            expr: Box::new(node_view(*expr)),
        },
        Node::Function { ident, scope, statements } => NodeView::Function {
            ident: ident@,
            scope,
            statements: Box::new(node_view(*statements)),
        },
        Node::Call { ctype, ident, scope, arguments } => NodeView::Call {
            ctype,
            ident: ident@,
            scope,
            arguments: Seq::new(
                arguments@.len(),
                |i: int|
                    if 0 <= i < arguments@.len() {
                        node_view(arguments@[i])
                    } else {
                        NodeView::Empty
                    },
            ),
        },
        Node::FloatLit { ctype, val } => NodeView::FloatLit { ctype, val: val@ },
        Node::IntLit { ctype, val } => NodeView::IntLit { ctype, val },
        Node::Var { ctype, ident, scope } => NodeView::Var { ctype, ident: ident@, scope },
    }
}

/// The models of a list of nodes.
pub open spec fn node_views(s: Seq<Node>) -> Seq<NodeView> {
    Seq::new(s.len(), |i: int| node_view(s[i]))
}

impl View for Node {
    type V = NodeView;

    open spec fn view(&self) -> NodeView {
        node_view(*self)
    }
}

impl NodeView {
    /// The type of the value of the node; `Void` for a node that has none.
    pub open spec fn ctype(self) -> CType {
        match self {
            NodeView::Assign { ctype, .. } => ctype,
            NodeView::Malloc { ctype, .. } => ctype,
            NodeView::Read { ctype, .. } => ctype,
            NodeView::Return { ctype, .. } => ctype,
            NodeView::Write { ctype, .. } => ctype,
            NodeView::BinaryOp { ctype, .. } => ctype,
            NodeView::UnaryOp { ctype, .. } => ctype,
            NodeView::Cast { ctype, .. } => ctype,
            NodeView::Address { ctype, .. } => ctype,
            NodeView::Dereference { ctype, .. } => ctype,
            NodeView::Reference { ctype, .. } => ctype,
            NodeView::Call { ctype, .. } => ctype,
            NodeView::FloatLit { ctype, .. } => ctype,
            NodeView::IntLit { ctype, .. } => ctype,
            NodeView::Var { ctype, .. } => ctype,
            _ => CType::Void,
        }
    }

    /// The type that an assignment to this target stores: for a target in
    /// memory, what the type of its address points to, one level for each
    /// `Address`.
    pub open spec fn strip_ctype(self) -> Result<CType, ErrorKind>
        decreases self,
    {
        match self {
            NodeView::Address { expr, .. } => match expr.strip_ctype() {
                Ok(t) => t.pointee(),
                Err(e) => Err(e),
            },
            _ => Ok(self.ctype()),
        }
    }

    /// The node retyped to `new`, without a conversion at run time. A node
    /// of type `new` stays as it is. Otherwise both types must be mutable;
    /// arithmetic is retyped with its operands, an integer literal only to
    /// a float or a pointer, a float literal only to a float, an allocation
    /// only to a pointer, and nothing else.
    pub open spec fn set_ctype(self, new: CType) -> Result<NodeView, ErrorKind>
        decreases self,
    {
        if self.ctype() == new {
            Ok(self)
        } else if !(self.ctype().mutable() && new.mutable()) {
            Err(ErrorKind::Type)
        } else {
            match self {
                NodeView::BinaryOp { op, lhs, rhs, .. } => match lhs.set_ctype(new) {
                    Err(e) => Err(e),
                    Ok(l) => match rhs.set_ctype(new) {
                        Err(e) => Err(e),
                        Ok(r) => Ok(
                            NodeView::BinaryOp {
                                ctype: new,
                                op,
                                lhs: Box::new(l),
                                rhs: Box::new(r),
                            },
                        ),
                    },
                },
                NodeView::UnaryOp { expr, .. } => match expr.set_ctype(new) {
                    Err(e) => Err(e),
                    Ok(x) => Ok(NodeView::UnaryOp { ctype: new, expr: Box::new(x) }),
                },
                NodeView::FloatLit { val, .. } => if new is Float {
                    Ok(NodeView::FloatLit { ctype: new, val })
                } else {
                    Err(ErrorKind::Type)
                },
                NodeView::IntLit { val, .. } => if new is Float || new is Ptr {
                    Ok(NodeView::IntLit { ctype: new, val })
                } else {
                    Err(ErrorKind::Type)
                },
                NodeView::Malloc { expr, .. } => if new is Ptr {
                    Ok(NodeView::Malloc { ctype: new, expr })
                } else {
                    Err(ErrorKind::Type)
                },
                _ => Err(ErrorKind::Type),
            }
        }
    }

    /// The node under a conversion to `ctype` at run time.
    pub open spec fn cast(self, ctype: CType) -> NodeView {
        NodeView::Cast { ctype, expr: Box::new(self) }
    }
}

/// A retyped node has the new type.
pub proof fn lemma_set_ctype(n: NodeView, new: CType)
    ensures
        n.set_ctype(new) matches Ok(m) ==> m.ctype() == new,
        n.set_ctype(new) is Ok && n.ctype() != new ==> n.ctype().mutable() && new.mutable(),
{
}

impl Node {
    /// The type of the value of the node; `Void` for a node that has none.
    pub fn ctype(&self) -> (t: CType)
        ensures
            t == self@.ctype(),
    {
        match self {
            Node::Assign { ctype, .. } => ctype.clone(),
            Node::Malloc { ctype, .. } => ctype.clone(),
            Node::Read { ctype, .. } => ctype.clone(),
            Node::Return { ctype, .. } => ctype.clone(),
            Node::Write { ctype, .. } => ctype.clone(),
            Node::BinaryOp { ctype, .. } => ctype.clone(),
            Node::UnaryOp { ctype, .. } => ctype.clone(),
            Node::Cast { ctype, .. } => ctype.clone(),
            Node::Address { ctype, .. } => ctype.clone(),
            Node::Dereference { ctype, .. } => ctype.clone(),
            Node::Reference { ctype, .. } => ctype.clone(),
            Node::Call { ctype, .. } => ctype.clone(),
            Node::FloatLit { ctype, .. } => ctype.clone(),
            Node::IntLit { ctype, .. } => ctype.clone(),
            Node::Var { ctype, .. } => ctype.clone(),
            _ => CType::Void,
        }
    }

    /// The type that an assignment to this target stores.
    pub fn strip_ctype(&self) -> (r: Result<CType, Error>)
        ensures
            plain(r) == self@.strip_ctype(),
        decreases self,
    {
        match self {
            Node::Address { expr, .. } => match expr.strip_ctype() {
                Ok(t) => t.dereference(),
                Err(e) => Err(e),
            },
            _ => Ok(self.ctype()),
        }
    }

    /// Retypes the node to `new`, without a conversion at run time.
    pub fn set_ctype(self, new: &CType) -> (r: Result<Node, Error>)
        ensures
            outcome(r) == self@.set_ctype(*new),
            r matches Ok(n) ==> n@.ctype() == *new,
        decreases self,
    {
        proof {
            lemma_set_ctype(self@, *new);
        }
        let own = self.ctype();
        if own.same(new) {
            return Ok(self);
        }
        if !(own.is_mutable() && new.is_mutable()) {
            return Err(Error::Type);
        }
        match self {
            Node::BinaryOp { op, lhs, rhs, .. } => {
                let l = match (*lhs).set_ctype(new) {
                    Ok(l) => l,
                    Err(e) => {
                        return Err(e);
                    },
                };
                let r = match (*rhs).set_ctype(new) {
                    Ok(r) => r,
                    Err(e) => {
                        return Err(e);
                    },
                };
                Ok(Node::BinaryOp { ctype: new.clone(), op, lhs: Box::new(l), rhs: Box::new(r) })
            },
            Node::UnaryOp { expr, .. } => {
                let x = match (*expr).set_ctype(new) {
                    Ok(x) => x,
                    Err(e) => {
                        return Err(e);
                    },
                };
                Ok(Node::UnaryOp { ctype: new.clone(), expr: Box::new(x) })
            },
            Node::FloatLit { val, .. } => {
                match new {
                    CType::Float => Ok(Node::FloatLit { ctype: new.clone(), val }),
                    _ => Err(Error::Type),
                }
            },
            Node::IntLit { val, .. } => {
                match new {
                    CType::Float | CType::Ptr(_) => Ok(Node::IntLit { ctype: new.clone(), val }),
                    _ => Err(Error::Type),
                }
            },
            Node::Malloc { expr, .. } => {
                match new {
                    CType::Ptr(_) => Ok(Node::Malloc { ctype: new.clone(), expr }),
                    _ => Err(Error::Type),
                }
            },
            _ => Err(Error::Type),
        }
    }

    /// Wraps the node in a conversion to `ctype` at run time.
    pub fn cast(self, ctype: &CType) -> (n: Node)
        ensures
            n@ == self@.cast(*ctype),
    {
        Node::Cast { ctype: ctype.clone(), expr: Box::new(self) }
    }
}

} // verus!

//! The syntax tree.

use vstd::prelude::*;
use std::sync::Arc;
use crate::types::BramaOperatorType;
use crate::compiler::value::BramaPrimative;
use crate::compiler::value::PrimativeView;

verus! {

/// A node of the syntax tree. A node owns its children.
#[derive(Debug, PartialEq)]
pub enum BramaAstType {
    /// No expression stands here.
    Nothing,
    Primative(Arc<BramaPrimative>),
    /// A name that is read, with the place of its token.
    Symbol { name: String, line: u32, column: u32 },
    List(Vec<BramaAstType>),
    Binary { left: Box<BramaAstType>, operator: BramaOperatorType, right: Box<BramaAstType> },
    Control { left: Box<BramaAstType>, operator: BramaOperatorType, right: Box<BramaAstType> },
    PrefixUnary(BramaOperatorType, Box<BramaAstType>),
    Assignment { variable: String, operator: BramaOperatorType, expression: Box<BramaAstType> },
    /// A call by name. `names` ends with the function; the module path
    /// stands before it. `assign_to_temp` says that the value of the call is
    /// used.
    FuncCall {
        names: Vec<String>,
        arguments: Vec<BramaAstType>,
        assign_to_temp: bool,
        line: u32,
        column: u32,
    },
    /// A call of a method on the value of `source`.
    AccessorFuncCall {
        source: Box<BramaAstType>,
        name: String,
        arguments: Vec<BramaAstType>,
        assign_to_temp: bool,
        line: u32,
        column: u32,
    },
    Block(Vec<BramaAstType>),
}

/// A syntax tree as a mathematical value.
pub enum AstView {
    Nothing,
    Primative(PrimativeView),
    Symbol { name: Seq<char>, line: u32, column: u32 },
    List(Seq<AstView>),
    Binary { left: Box<AstView>, operator: BramaOperatorType, right: Box<AstView> },
    Control { left: Box<AstView>, operator: BramaOperatorType, right: Box<AstView> },
    PrefixUnary(BramaOperatorType, Box<AstView>),
    Assignment { variable: Seq<char>, operator: BramaOperatorType, expression: Box<AstView> },
    FuncCall {
        names: Seq<Seq<char>>,
        arguments: Seq<AstView>,
        assign_to_temp: bool,
        line: u32,
        column: u32,
    },
    AccessorFuncCall {
        source: Box<AstView>,
        name: Seq<char>,
        arguments: Seq<AstView>,
        assign_to_temp: bool,
        line: u32,
        column: u32,
    },
    Block(Seq<AstView>),
}

/// The views of the nodes in a list, one for one; an index outside the list
/// gives the empty node.
pub open spec fn ast_views(nodes: Vec<BramaAstType>) -> Seq<AstView>
    decreases nodes, 1nat,
{
    Seq::new(
        nodes@.len(),
        |i: int|
            if 0 <= i < nodes@.len() {
                ast_view(nodes[i])
            } else {
                AstView::Nothing
            },
    )
}

/// The tree that a node is.
pub open spec fn ast_view(node: BramaAstType) -> AstView
    decreases node, 0nat,
{
    match node {
        BramaAstType::Nothing => AstView::Nothing,
        BramaAstType::Primative(value) => AstView::Primative((*value)@),
        BramaAstType::Symbol { name, line, column } => AstView::Symbol { name: name@, line, column },
        BramaAstType::List(items) => AstView::List(ast_views(items)),
        BramaAstType::Binary { left, operator, right } => AstView::Binary {
            left: Box::new(ast_view(*left)),
            operator,
            right: Box::new(ast_view(*right)),
        },
        BramaAstType::Control { left, operator, right } => AstView::Control {
            left: Box::new(ast_view(*left)),
            operator,
            right: Box::new(ast_view(*right)),
        },
        BramaAstType::PrefixUnary(operator, operand) => AstView::PrefixUnary(
            operator,
            Box::new(ast_view(*operand)),
        ),
        BramaAstType::Assignment { variable, operator, expression } => AstView::Assignment {
            variable: variable@,
            operator,
            expression: Box::new(ast_view(*expression)),
        },
        BramaAstType::FuncCall { names, arguments, assign_to_temp, line, column } => AstView::FuncCall {
            names: names.deep_view(),
            arguments: ast_views(arguments),
            assign_to_temp,
            line,
            column,
        },
        BramaAstType::AccessorFuncCall {
            source,
            name,
            arguments,
            assign_to_temp,
            line,
            column,
        } => AstView::AccessorFuncCall {
            source: Box::new(ast_view(*source)),
            name: name@,
            arguments: ast_views(arguments),
            assign_to_temp,
            line,
            column,
        },
        BramaAstType::Block(statements) => AstView::Block(ast_views(statements)),
    }
}

impl View for BramaAstType {
    type V = AstView;

    open spec fn view(&self) -> AstView {
        ast_view(*self)
    }
}

/// Pushing a node onto a list pushes its view onto the list's views.
pub proof fn ast_views_push(before: Vec<BramaAstType>, after: Vec<BramaAstType>, node: BramaAstType)
    requires
        after@ == before@.push(node),
    ensures
        ast_views(after) == ast_views(before).push(ast_view(node)),
{
    assert(ast_views(after) =~= ast_views(before).push(ast_view(node)));
}

/// An empty list has no views.
pub proof fn ast_views_empty(nodes: Vec<BramaAstType>)
    requires
        nodes@.len() == 0,
    ensures
        ast_views(nodes) == Seq::<AstView>::empty(),
{
    assert(ast_views(nodes) =~= Seq::<AstView>::empty());
}

/// A tree with every call at its root marked as one whose value is used: a
/// call by name is marked; a method call is marked and so is its source; any
/// other node is left as it is.
pub open spec fn retagged(node: AstView) -> AstView
    decreases node,
{
    match node {
        AstView::FuncCall { names, arguments, assign_to_temp, line, column } => AstView::FuncCall {
            names,
            arguments,
            assign_to_temp: true,
            line,
            column,
        },
        AstView::AccessorFuncCall { source, name, arguments, assign_to_temp, line, column } => {
            AstView::AccessorFuncCall {
                source: Box::new(retagged(*source)),
                name,
                arguments,
                assign_to_temp: true,
                line,
                column,
            }
        },
        _ => node,
    }
}

/// Whether the value of the call at the root of a tree is used: a call by
/// name is marked so, a method call is marked so and the value of its source
/// is used. A tree without a call at its root has nothing to mark.
pub open spec fn value_is_used(node: AstView) -> bool
    decreases node,
{
    match node {
        AstView::FuncCall { assign_to_temp, .. } => assign_to_temp,
        AstView::AccessorFuncCall { source, assign_to_temp, .. } => assign_to_temp && value_is_used(
            *source,
        ),
        _ => true,
    }
}

/// Marking a tree makes the value of the call at its root used, and marking
/// it again changes nothing: it does not matter whether a left operand is
/// marked at the first operator only or at every operator. A tree whose
/// value is used already stays as it is.
pub proof fn marking_happens_once(node: AstView)
    ensures
        value_is_used(retagged(node)),
        retagged(retagged(node)) == retagged(node),
        value_is_used(node) ==> retagged(node) == node,
    decreases node,
{
    match node {
        AstView::AccessorFuncCall { source, name, arguments, assign_to_temp, line, column } => {
            marking_happens_once(*source);
        },
        _ => {},
    }
}

} // verus!

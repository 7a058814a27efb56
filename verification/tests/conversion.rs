//! Scenario tests: each builds the arena that the upstream parser produces
//! for a small source text and checks the converted tree.

use nushell_ast_printer::{
    convert_parse_result, AstOutput, AstPrinterError, LeafKind, Node, NodeData, NodeType, OpKind,
    ParseData,
};

fn leaf(l: LeafKind, start: usize, end: usize) -> Node {
    Node { kind: NodeData::Leaf(l), start, end }
}

fn inner(kind: NodeData) -> Node {
    Node { kind, start: 0, end: 0 }
}

fn convert(data: &ParseData) -> AstOutput {
    convert_parse_result(&Vec::new(), data).expect("conversion should succeed")
}

#[test]
fn test_simple_string() {
    // "hello world"
    let data = ParseData {
        nodes: vec![leaf(LeafKind::Str, 0, 13), inner(NodeData::Block(0))],
        blocks: vec![vec![0]],
        source: b"\"hello world\"".to_vec(),
    };
    let out = convert(&data);
    assert_eq!(out.node_type, NodeType::Block);
    assert_eq!(out.children.len(), 1);
    let child = &out.children[0];
    assert_eq!(child.node_type, NodeType::String);
    assert_eq!(child.value.as_deref(), Some("hello world"));
    assert!(child.name.is_none());
    assert!(child.children.is_empty());
}

#[test]
fn test_let_binding() {
    // let x = 42
    let data = ParseData {
        nodes: vec![
            leaf(LeafKind::Variable, 4, 5),
            leaf(LeafKind::Int, 8, 10),
            inner(NodeData::Let { var: 0, ty: None, init: 1, mutable: false }),
            inner(NodeData::Block(0)),
        ],
        blocks: vec![vec![2]],
        source: b"let x = 42".to_vec(),
    };
    let out = convert(&data);
    assert_eq!(out.node_type, NodeType::Block);
    assert_eq!(out.children.len(), 1);
    let binding = &out.children[0];
    assert_eq!(binding.node_type, NodeType::Let);
    assert_eq!(binding.children.len(), 2);
    assert_eq!(binding.children[0].node_type, NodeType::Variable);
    assert_eq!(binding.children[0].value.as_deref(), Some("x"));
    assert_eq!(binding.children[1].node_type, NodeType::Integer);
    assert_eq!(binding.children[1].value.as_deref(), Some("42"));
}

#[test]
fn test_mutable_let() {
    // mut y = 3.14
    let data = ParseData {
        nodes: vec![
            leaf(LeafKind::Variable, 4, 5),
            leaf(LeafKind::Float, 8, 12),
            inner(NodeData::Let { var: 0, ty: None, init: 1, mutable: true }),
            inner(NodeData::Block(0)),
        ],
        blocks: vec![vec![2]],
        source: b"mut y = 3.14".to_vec(),
    };
    let out = convert(&data);
    assert_eq!(out.node_type, NodeType::Block);
    let binding = &out.children[0];
    assert_eq!(binding.node_type, NodeType::MutableLet);
    assert_eq!(binding.children.len(), 2);
    assert_eq!(binding.children[0].node_type, NodeType::Variable);
    assert_eq!(binding.children[0].value.as_deref(), Some("y"));
    assert_eq!(binding.children[1].node_type, NodeType::Float);
    assert_eq!(binding.children[1].value.as_deref(), Some("3.14"));
}

#[test]
fn test_binary_operation() {
    // 1 + 2
    let data = ParseData {
        nodes: vec![
            leaf(LeafKind::Int, 0, 1),
            Node { kind: NodeData::Operator(OpKind::Plus), start: 2, end: 3 },
            leaf(LeafKind::Int, 4, 5),
            inner(NodeData::BinaryOp { lhs: 0, op: 1, rhs: 2 }),
            inner(NodeData::Block(0)),
        ],
        blocks: vec![vec![3]],
        source: b"1 + 2".to_vec(),
    };
    let out = convert(&data);
    assert_eq!(out.node_type, NodeType::Block);
    let op = &out.children[0];
    assert_eq!(op.node_type, NodeType::BinaryOp);
    assert_eq!(op.name.as_deref(), Some("Add"));
    assert!(op.value.is_none());
    assert_eq!(op.children.len(), 2);
    assert_eq!(op.children[0].node_type, NodeType::Integer);
    assert_eq!(op.children[0].value.as_deref(), Some("1"));
    assert_eq!(op.children[1].node_type, NodeType::Integer);
    assert_eq!(op.children[1].value.as_deref(), Some("2"));
}

#[test]
fn test_simple_command() {
    // echo hello world
    let data = ParseData {
        nodes: vec![
            leaf(LeafKind::Name, 0, 4),
            leaf(LeafKind::Name, 5, 10),
            leaf(LeafKind::Name, 11, 16),
            inner(NodeData::Call(vec![0, 1, 2])),
            inner(NodeData::Block(0)),
        ],
        blocks: vec![vec![3]],
        source: b"echo hello world".to_vec(),
    };
    let out = convert(&data);
    assert_eq!(out.node_type, NodeType::Block);
    let call = &out.children[0];
    assert_eq!(call.node_type, NodeType::Call);
    assert_eq!(call.children.len(), 3);
    assert_eq!(call.children[0].node_type, NodeType::Name);
    assert_eq!(call.children[0].value.as_deref(), Some("echo"));
    assert_eq!(call.children[1].value.as_deref(), Some("hello"));
    assert_eq!(call.children[2].value.as_deref(), Some("world"));
}

#[test]
fn test_if_statement() {
    // if true { 42 }
    let data = ParseData {
        nodes: vec![
            leaf(LeafKind::True, 3, 7),
            leaf(LeafKind::Int, 10, 12),
            inner(NodeData::Block(0)),
            inner(NodeData::If { cond: 0, then_block: 2, else_block: None }),
            inner(NodeData::Block(1)),
        ],
        blocks: vec![vec![1], vec![3]],
        source: b"if true { 42 }".to_vec(),
    };
    let out = convert(&data);
    assert_eq!(out.node_type, NodeType::Block);
    let cond = &out.children[0];
    assert_eq!(cond.node_type, NodeType::If);
    // no third child, since there is no else-branch
    assert_eq!(cond.children.len(), 2);
    assert_eq!(cond.children[0].node_type, NodeType::Boolean);
    assert_eq!(cond.children[0].value.as_deref(), Some("true"));
    assert_eq!(cond.children[1].node_type, NodeType::Block);
    assert_eq!(cond.children[1].children.len(), 1);
    assert_eq!(cond.children[1].children[0].node_type, NodeType::Integer);
    assert_eq!(cond.children[1].children[0].value.as_deref(), Some("42"));
}

#[test]
fn test_if_else() {
    // if false { 0 } else { 1 }
    let data = ParseData {
        nodes: vec![
            leaf(LeafKind::False, 3, 8),
            leaf(LeafKind::Int, 11, 12),
            inner(NodeData::Block(0)),
            leaf(LeafKind::Int, 22, 23),
            inner(NodeData::Block(1)),
            inner(NodeData::If { cond: 0, then_block: 2, else_block: Some(4) }),
            inner(NodeData::Block(2)),
        ],
        blocks: vec![vec![1], vec![3], vec![5]],
        source: b"if false { 0 } else { 1 }".to_vec(),
    };
    let out = convert(&data);
    assert_eq!(out.node_type, NodeType::Block);
    let cond = &out.children[0];
    assert_eq!(cond.node_type, NodeType::If);
    assert_eq!(cond.children.len(), 3);
    assert_eq!(cond.children[0].node_type, NodeType::Boolean);
    assert_eq!(cond.children[0].value.as_deref(), Some("false"));
    assert_eq!(cond.children[1].node_type, NodeType::Block);
    assert_eq!(cond.children[1].children[0].value.as_deref(), Some("0"));
    assert_eq!(cond.children[2].node_type, NodeType::Block);
    assert_eq!(cond.children[2].children[0].value.as_deref(), Some("1"));
}

#[test]
fn test_list() {
    // [1, 2, 3]
    let data = ParseData {
        nodes: vec![
            leaf(LeafKind::Int, 1, 2),
            leaf(LeafKind::Int, 4, 5),
            leaf(LeafKind::Int, 7, 8),
            inner(NodeData::List(vec![0, 1, 2])),
            inner(NodeData::Block(0)),
        ],
        blocks: vec![vec![3]],
        source: b"[1, 2, 3]".to_vec(),
    };
    let out = convert(&data);
    assert_eq!(out.node_type, NodeType::Block);
    let list = &out.children[0];
    assert_eq!(list.node_type, NodeType::List);
    assert_eq!(list.children.len(), 3);
    assert_eq!(list.children[0].value.as_deref(), Some("1"));
    assert_eq!(list.children[1].value.as_deref(), Some("2"));
    assert_eq!(list.children[2].value.as_deref(), Some("3"));
    for item in &list.children {
        assert_eq!(item.node_type, NodeType::Integer);
    }
}

#[test]
fn test_parse_error() {
    // let = 42 — the parser reports the missing variable name
    let errors = vec!["expected: variable name".to_string()];
    let data = ParseData { nodes: Vec::new(), blocks: Vec::new(), source: b"let = 42".to_vec() };
    let result = convert_parse_result(&errors, &data);
    assert!(
        matches!(result, Err(AstPrinterError::ParserError(_))),
        "Expected ParserError but got {:?}",
        result
    );
    if let Err(AstPrinterError::ParserError(error_msg)) = result {
        assert!(
            error_msg.contains("variable"),
            "Error should mention missing variable, got: {}",
            error_msg
        );
    }
}

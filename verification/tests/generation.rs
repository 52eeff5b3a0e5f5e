use pg_parse::analyzer::{payloads_distinct, NodeVariant, ProtoAnalyzer};
use pg_parse::emit::{render_arm, Arm};
use pg_parse::error::SchemaError;
use pg_parse::names::{identifier, type_identifier, unqualified};
use pg_parse::node_mut::{node_mut_mod, node_mut_source};
use pg_parse::node_ref::{node_ref_mod, node_ref_source};
use pg_parse::node_structs::{node_structs_mod, node_structs_source};
use pg_parse::schema::{Field, FieldType, Message, Schema};

fn variant(name: &str, payload_type: &str, boxed: bool) -> NodeVariant {
    NodeVariant { name: name.to_string(), payload_type: payload_type.to_string(), boxed }
}

fn two() -> Vec<NodeVariant> {
    vec![variant("SelectStmt", "SelectStmt", true), variant("CtesearchClause", "CteSearchClause", false)]
}

fn single(name: &str, target: &str) -> Field {
    Field {
        name: name.to_string(),
        target: FieldType::Message(target.to_string()),
        repeated: false,
        map: false,
        number: 1,
    }
}

fn schema() -> Schema {
    Schema {
        messages: vec![
            Message {
                name: "pg_query.Node".to_string(),
                fields: vec![
                    single("select_stmt", "pg_query.SelectStmt"),
                    single("ctesearch_clause", "pg_query.CTESearchClause"),
                ],
            },
            Message {
                name: "pg_query.SelectStmt".to_string(),
                fields: vec![single("where_clause", "pg_query.Node")],
            },
            Message { name: "pg_query.CTESearchClause".to_string(), fields: vec![] },
        ],
    }
}

const REF_TEXT: &str = "#[derive(Debug, Copy, Clone)]
pub enum NodeRef<'a> {
    SelectStmt(&'a protobuf::SelectStmt),
    CtesearchClause(&'a protobuf::CteSearchClause),
}

impl<'a> From<NodeRef<'a>> for NodeEnum {
    fn from(n: NodeRef<'a>) -> NodeEnum {
        match n {
            NodeRef::SelectStmt(n) => NodeEnum::SelectStmt(::prost::alloc::boxed::Box::new((*n).clone())),
            NodeRef::CtesearchClause(n) => NodeEnum::CtesearchClause((*n).clone()),
        }
    }
}

impl<'a> From<&'a NodeEnum> for NodeRef<'a> {
    fn from(n: &'a NodeEnum) -> NodeRef<'a> {
        match n {
            NodeEnum::SelectStmt(n) => NodeRef::SelectStmt(&n),
            NodeEnum::CtesearchClause(n) => NodeRef::CtesearchClause(&n),
        }
    }
}
";

const MUT_TEXT: &str = "#[derive(Debug, Copy, Clone)]
pub enum NodeMut {
    SelectStmt(*mut protobuf::SelectStmt),
    CtesearchClause(*mut protobuf::CteSearchClause),
}

impl TryFrom<NodeMut> for NodeEnum {
    type Error = Error;

    fn try_from(value: NodeMut) -> Result<Self> {
        unsafe {
            let err = Error::InvalidPointer;
            match value {
                    NodeMut::SelectStmt(n) => Ok(NodeEnum::SelectStmt(Box::new(n.as_ref().ok_or(err)?.clone()))),
                    NodeMut::CtesearchClause(n) => Ok(NodeEnum::CtesearchClause(n.as_ref().ok_or(err)?.clone())),
                _ => Err(Error::InvalidPointer),
            }
        }
    }
}

impl From<&mut NodeEnum> for NodeMut {
    fn from(n: &mut NodeEnum) -> NodeMut {
        match n {
            NodeEnum::SelectStmt(n) => NodeMut::SelectStmt(&mut **n as *mut _),
            NodeEnum::CtesearchClause(n) => NodeMut::CtesearchClause(n as *mut _),
        }
    }
}
";

const STRUCTS_TEXT: &str = "impl protobuf::SelectStmt {
    pub fn as_ref(&self) -> NodeRef {
        NodeRef::SelectStmt(self)
    }

    pub fn as_mut(&mut self) -> NodeMut {
        NodeMut::SelectStmt(self)
    }
}
impl protobuf::CteSearchClause {
    pub fn as_ref(&self) -> NodeRef {
        NodeRef::CtesearchClause(self)
    }

    pub fn as_mut(&mut self) -> NodeMut {
        NodeMut::CtesearchClause(self)
    }
}
";

#[test]
fn borrowing_view_text() {
    assert_eq!(node_ref_source(&two()), REF_TEXT);
}

#[test]
fn exclusive_view_text() {
    assert_eq!(node_mut_source(&two()), MUT_TEXT);
}

#[test]
fn payload_constructors_text() {
    assert_eq!(node_structs_source(&two()), STRUCTS_TEXT);
    assert_eq!(node_structs_source(&vec![]), "");
}

#[test]
fn generation_from_a_schema() {
    let analyser = ProtoAnalyzer::from(schema()).unwrap();
    let root = "pg_query.Node".to_string();
    assert_eq!(analyser.node_variants(&root).unwrap(), two());
    assert_eq!(node_ref_mod(&analyser, &root).unwrap(), REF_TEXT);
    assert_eq!(node_mut_mod(&analyser, &root).unwrap(), MUT_TEXT);
    assert_eq!(node_structs_mod(&analyser, &root).unwrap(), STRUCTS_TEXT);
    assert_eq!(node_ref_mod(&analyser, &root), node_ref_mod(&analyser, &root));
}

#[test]
fn generation_fails_fast() {
    let analyser = ProtoAnalyzer::from(schema()).unwrap();
    let missing = "pg_query.Nope".to_string();
    assert_eq!(node_ref_mod(&analyser, &missing), Err(SchemaError::MissingRoot));
    assert_eq!(node_mut_mod(&analyser, &missing), Err(SchemaError::MissingRoot));
    assert_eq!(node_structs_mod(&analyser, &missing), Err(SchemaError::MissingRoot));
    let leaf = "pg_query.CTESearchClause".to_string();
    assert_eq!(node_ref_mod(&analyser, &leaf), Err(SchemaError::NoVariants));
}

#[test]
fn single_lines() {
    let boxed = variant("AExpr", "AExpr", true);
    let plain = variant("Integer", "Integer", false);
    assert_eq!(render_arm(Arm::RefVariant, &boxed), "    AExpr(&'a protobuf::AExpr),\n");
    assert_eq!(render_arm(Arm::MutVariant, &plain), "    Integer(*mut protobuf::Integer),\n");
    assert_eq!(
        render_arm(Arm::OwnedToMut, &boxed),
        "            NodeEnum::AExpr(n) => NodeMut::AExpr(&mut **n as *mut _),\n"
    );
    assert_eq!(
        render_arm(Arm::OwnedToMut, &plain),
        "            NodeEnum::Integer(n) => NodeMut::Integer(n as *mut _),\n"
    );
    assert_eq!(
        render_arm(Arm::RefToOwned, &plain),
        "            NodeRef::Integer(n) => NodeEnum::Integer((*n).clone()),\n"
    );
    assert_eq!(
        render_arm(Arm::OwnedToRef, &boxed),
        "            NodeEnum::AExpr(n) => NodeRef::AExpr(&n),\n"
    );
}

#[test]
fn identifiers_follow_the_case_rule() {
    assert_eq!(identifier("select_stmt"), "SelectStmt");
    assert_eq!(identifier("ctesearch_clause"), "CtesearchClause");
    assert_eq!(identifier("a_expr"), "AExpr");
    assert_eq!(type_identifier(".pg_query.CTESearchClause"), "CteSearchClause");
    assert_eq!(type_identifier("A_Const"), "AConst");
    assert_eq!(identifier("select_stmt"), identifier("select_stmt"));
}

#[test]
fn unqualified_is_the_last_segment() {
    assert_eq!(unqualified(".pg_query.Node"), "Node");
    assert_eq!(unqualified("Node"), "Node");
    assert_eq!(unqualified("a.b."), "");
    assert_eq!(unqualified(""), "");
    assert_eq!(unqualified("a.b.c"), "c");
}

#[test]
fn shared_payloads_are_detected() {
    assert!(payloads_distinct(&two()));
    assert!(payloads_distinct(&vec![]));
    let mut shared = two();
    shared.push(variant("Other", "SelectStmt", false));
    assert!(!payloads_distinct(&shared));
}

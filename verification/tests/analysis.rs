use pg_parse::analyzer::ProtoAnalyzer;
use pg_parse::error::SchemaError;
use pg_parse::schema::{Field, FieldType, Message, Schema};

fn scalar(name: &str, number: u32) -> Field {
    Field { name: name.to_string(), target: FieldType::Scalar, repeated: false, map: false, number }
}

fn single(name: &str, target: &str, number: u32) -> Field {
    Field {
        name: name.to_string(),
        target: FieldType::Message(target.to_string()),
        repeated: false,
        map: false,
        number,
    }
}

fn many(name: &str, target: &str, number: u32) -> Field {
    Field {
        name: name.to_string(),
        target: FieldType::Message(target.to_string()),
        repeated: true,
        map: false,
        number,
    }
}

fn message(name: &str, fields: Vec<Field>) -> Message {
    Message { name: name.to_string(), fields }
}

fn statement_schema() -> Schema {
    Schema {
        messages: vec![
            message(
                "Root",
                vec![single("select", "SelectStmt", 1), single("insert", "InsertStmt", 2)],
            ),
            message("SelectStmt", vec![single("where_clause", "Expr", 1)]),
            message("InsertStmt", vec![scalar("relation", 1)]),
            message("Expr", vec![single("left", "Expr", 1), single("right", "Expr", 2)]),
        ],
    }
}

fn name(s: &str) -> String {
    s.to_string()
}

#[test]
fn self_recursive_fields_are_boxed_and_outer_field_is_not() {
    let analyzer = ProtoAnalyzer::from(statement_schema()).unwrap();
    let expr = analyzer.message_fields(&name("Expr"));
    assert_eq!(expr.len(), 2);
    assert!(expr[0].boxed);
    assert!(expr[1].boxed);
    assert_eq!(expr[0].name, "left");
    assert_eq!(expr[0].payload_type, "Expr");
    assert_eq!(expr[1].field_number, 2);
    assert!(!expr[0].is_repeated);
    assert!(expr[0].is_optional);
    let select = analyzer.message_fields(&name("SelectStmt"));
    assert_eq!(select.len(), 1);
    assert!(!select[0].boxed);
    let insert = analyzer.message_fields(&name("InsertStmt"));
    assert_eq!(insert[0].payload_type, "unknown");
    assert!(!insert[0].boxed);
}

#[test]
fn mutual_cycle_boxes_both_fields() {
    let schema = Schema {
        messages: vec![
            message("A", vec![single("b", "B", 1)]),
            message("B", vec![single("a", "A", 1)]),
        ],
    };
    let analyzer = ProtoAnalyzer::from(schema).unwrap();
    assert!(analyzer.message_fields(&name("A"))[0].boxed);
    assert!(analyzer.message_fields(&name("B"))[0].boxed);
    assert!(analyzer.is_nested(&name("A"), &name("B")));
    assert!(analyzer.is_nested(&name("B"), &name("A")));
}

#[test]
fn reachability_follows_singular_fields_only() {
    let schema = Schema {
        messages: vec![
            message("A", vec![single("b", "B", 1), many("cs", "C", 2)]),
            message("B", vec![single("d", "D", 1)]),
            message("C", vec![single("a", "A", 1)]),
            message("D", vec![]),
        ],
    };
    let analyzer = ProtoAnalyzer::from(schema).unwrap();
    assert!(analyzer.is_nested(&name("A"), &name("D")));
    assert!(analyzer.is_nested(&name("A"), &name("A")));
    assert!(!analyzer.is_nested(&name("A"), &name("C")));
    assert!(analyzer.is_nested(&name("C"), &name("D")));
    assert!(!analyzer.is_nested(&name("D"), &name("A")));
    assert!(!analyzer.is_nested(&name("A"), &name("Missing")));
    assert!(analyzer.is_nested(&name("Missing"), &name("Missing")));
    assert_eq!(analyzer.message_graph.edges, vec![vec![1], vec![3], vec![0], vec![]]);
    assert!(analyzer.message_graph.is_nested(0, 3));
    assert!(!analyzer.message_graph.is_nested(3, 0));
}

#[test]
fn search_terminates_on_unrelated_cycles() {
    let schema = Schema {
        messages: vec![
            message("A", vec![single("b", "B", 1)]),
            message("B", vec![single("c", "C", 1)]),
            message("C", vec![single("b", "B", 1)]),
            message("Z", vec![]),
        ],
    };
    let analyzer = ProtoAnalyzer::from(schema).unwrap();
    assert!(!analyzer.is_nested(&name("A"), &name("Z")));
    let mut visited = vec![false; 4];
    assert!(!analyzer.message_graph.has_path(0, 3, &mut visited));
    assert_eq!(visited, vec![true, true, true, false]);
}

#[test]
fn acyclic_schema_boxes_nothing() {
    let schema = Schema {
        messages: vec![
            message("Root", vec![single("a", "A", 1), single("b", "B", 2)]),
            message("A", vec![single("b", "B", 1)]),
            message("B", vec![scalar("x", 1)]),
        ],
    };
    let analyzer = ProtoAnalyzer::from(schema).unwrap();
    for m in ["Root", "A", "B"] {
        for f in analyzer.message_fields(&name(m)) {
            assert!(!f.boxed);
        }
    }
    for v in analyzer.node_variants(&name("Root")).unwrap() {
        assert!(!v.boxed);
    }
}

#[test]
fn variants_follow_declaration_order_and_case_rule() {
    let schema = Schema {
        messages: vec![
            message(
                "pg_query.Node",
                vec![
                    single("select_stmt", "pg_query.SelectStmt", 1),
                    single("ctesearch_clause", "pg_query.CTESearchClause", 2),
                    single("a_expr", "pg_query.A_Expr", 3),
                ],
            ),
            message("pg_query.SelectStmt", vec![single("where_clause", "pg_query.Node", 1)]),
            message("pg_query.CTESearchClause", vec![scalar("search_breadth_first", 1)]),
            message(
                "pg_query.A_Expr",
                vec![single("lexpr", "pg_query.Node", 1), many("args", "pg_query.Node", 2)],
            ),
        ],
    };
    let analyzer = ProtoAnalyzer::from(schema).unwrap();
    let variants = analyzer.node_variants(&name("pg_query.Node")).unwrap();
    assert_eq!(variants.len(), 3);
    assert_eq!(variants[0].name, "SelectStmt");
    assert_eq!(variants[0].payload_type, "SelectStmt");
    assert!(variants[0].boxed);
    assert_eq!(variants[1].name, "CtesearchClause");
    assert_eq!(variants[1].payload_type, "CteSearchClause");
    assert!(!variants[1].boxed);
    assert_eq!(variants[2].name, "AExpr");
    assert_eq!(variants[2].payload_type, "AExpr");
    assert!(variants[2].boxed);
    let fields = analyzer.message_fields(&name("pg_query.A_Expr"));
    assert!(fields[0].boxed);
    assert!(!fields[1].boxed);
    assert!(fields[1].is_repeated);
    assert_eq!(fields[1].payload_type, "Node");
}

#[test]
fn regeneration_is_reproducible() {
    let first = ProtoAnalyzer::from(statement_schema()).unwrap();
    let second = ProtoAnalyzer::from(statement_schema()).unwrap();
    assert_eq!(
        first.node_variants(&name("Root")).unwrap(),
        second.node_variants(&name("Root")).unwrap()
    );
    assert_eq!(first.node_variants(&name("Root")).unwrap(), first.node_variants(&name("Root")).unwrap());
}

#[test]
fn root_scenario_variants() {
    let analyzer = ProtoAnalyzer::from(statement_schema()).unwrap();
    let variants = analyzer.node_variants(&name("Root")).unwrap();
    assert_eq!(variants.len(), 2);
    assert_eq!(variants[0].name, "Select");
    assert_eq!(variants[0].payload_type, "SelectStmt");
    assert!(!variants[0].boxed);
    assert_eq!(variants[1].name, "Insert");
    assert_eq!(variants[1].payload_type, "InsertStmt");
    assert!(!variants[1].boxed);
}

#[test]
fn dangling_reference_is_fatal() {
    let schema = Schema { messages: vec![message("A", vec![single("b", "B", 1)])] };
    assert_eq!(ProtoAnalyzer::from(schema).err(), Some(SchemaError::DanglingReference));
    let repeated = Schema { messages: vec![message("A", vec![many("b", "B", 1)])] };
    assert_eq!(ProtoAnalyzer::from(repeated).err(), Some(SchemaError::DanglingReference));
    assert_eq!(
        ProtoAnalyzer::build_message_graph(&Schema {
            messages: vec![message("A", vec![single("b", "B", 1)])]
        })
        .err(),
        Some(SchemaError::DanglingReference)
    );
}

#[test]
fn missing_root_and_empty_root_are_fatal() {
    let analyzer = ProtoAnalyzer::from(statement_schema()).unwrap();
    assert_eq!(analyzer.node_variants(&name("Nope")).err(), Some(SchemaError::MissingRoot));
    assert_eq!(analyzer.node_variants(&name("InsertStmt")).err(), Some(SchemaError::NoVariants));
}

#[test]
fn shared_payload_type_is_fatal() {
    let schema = Schema {
        messages: vec![
            message("Root", vec![single("first", "Stmt", 1), single("second", "Stmt", 2)]),
            message("Stmt", vec![]),
        ],
    };
    let analyzer = ProtoAnalyzer::from(schema).unwrap();
    assert_eq!(analyzer.node_variants(&name("Root")).err(), Some(SchemaError::DuplicatePayload));
}

#[test]
fn pure_self_recursion_boxes_the_recursive_field() {
    let schema = Schema {
        messages: vec![
            message("Root", vec![single("t", "T", 1)]),
            message("T", vec![single("next", "T", 1)]),
        ],
    };
    let analyzer = ProtoAnalyzer::from(schema).unwrap();
    let t = &analyzer.schema.messages[1];
    assert!(analyzer.is_field_boxed(&t.fields[0], t));
    assert!(analyzer.is_boxed(&name("T"), &t.fields[0]));
    assert!(!analyzer.is_boxed(&name("Root"), &t.fields[0]));
    let variants = analyzer.node_variants(&name("Root")).unwrap();
    assert_eq!(variants.len(), 1);
    assert_eq!(variants[0].payload_type, "T");
    assert!(!variants[0].boxed);
}

#[test]
fn payload_that_holds_the_root_is_boxed() {
    let schema = Schema {
        messages: vec![
            message("Root", vec![single("list", "List", 1), single("leaf", "Leaf", 2)]),
            message("List", vec![single("head", "Root", 1)]),
            message("Leaf", vec![scalar("value", 1), many("more", "Root", 2)]),
        ],
    };
    let analyzer = ProtoAnalyzer::from(schema).unwrap();
    let variants = analyzer.node_variants(&name("Root")).unwrap();
    assert!(variants[0].boxed);
    assert!(!variants[1].boxed);
}

#[test]
fn search_skips_marked_messages() {
    let schema = Schema {
        messages: vec![
            message("A", vec![single("b", "B", 1), single("d", "D", 2)]),
            message("B", vec![single("c", "C", 1)]),
            message("C", vec![]),
            message("D", vec![]),
        ],
    };
    let graph = ProtoAnalyzer::build_message_graph(&schema).unwrap();
    let mut visited = vec![false, true, false, false];
    assert!(!graph.has_path(0, 2, &mut visited));
    assert_eq!(visited, vec![true, true, false, true]);
    let mut fresh = vec![false; 4];
    assert!(graph.has_path(0, 2, &mut fresh));
    let mut target_marked = vec![false, false, true, false];
    assert!(!graph.has_path(0, 2, &mut target_marked));
    let mut start_marked = vec![true, false, false, false];
    assert!(!graph.has_path(0, 0, &mut start_marked));
    let mut own = vec![false; 4];
    assert!(graph.has_path(3, 3, &mut own));
    assert_eq!(own, vec![false; 4]);
}

#[test]
fn empty_schema_has_no_root() {
    let analyzer = ProtoAnalyzer::from(Schema { messages: vec![] }).unwrap();
    assert!(analyzer.message_graph.edges.is_empty());
    assert_eq!(analyzer.node_variants(&name("Root")).err(), Some(SchemaError::MissingRoot));
    assert!(analyzer.is_nested(&name("X"), &name("X")));
    assert!(!analyzer.is_nested(&name("X"), &name("Y")));
}

#[test]
fn first_message_of_a_name_is_meant() {
    let schema = Schema {
        messages: vec![
            message("A", vec![single("b", "B", 1)]),
            message("B", vec![]),
            message("B", vec![single("a", "A", 1)]),
        ],
    };
    assert_eq!(schema.find(&name("B")), Some(1));
    assert_eq!(schema.find(&name("C")), None);
    let analyzer = ProtoAnalyzer::from(schema).unwrap();
    assert_eq!(analyzer.message_graph.edges, vec![vec![1], vec![], vec![0]]);
    assert!(!analyzer.is_nested(&name("B"), &name("A")));
}

#[test]
fn repeated_and_scalar_fields_give_no_edge() {
    let schema = Schema {
        messages: vec![
            message("A", vec![many("as", "A", 1), scalar("n", 2), many("bs", "B", 3)]),
            message("B", vec![single("a", "A", 1)]),
        ],
    };
    let analyzer = ProtoAnalyzer::from(schema).unwrap();
    assert_eq!(analyzer.message_graph.edges, vec![Vec::<usize>::new(), vec![0]]);
    let fields = analyzer.message_fields(&name("A"));
    assert!(fields.iter().all(|f| !f.boxed));
    assert_eq!(
        ProtoAnalyzer::add_message_to_graph(&analyzer.schema, 1),
        Ok(vec![0])
    );
}

fn keyed(name: &str, target: &str, number: u32) -> Field {
    Field {
        name: name.to_string(),
        target: FieldType::Message(target.to_string()),
        repeated: false,
        map: true,
        number,
    }
}

#[test]
fn scalar_root_field_is_fatal() {
    let schema = Schema {
        messages: vec![
            message("Root", vec![scalar("count", 1), single("stmt", "Stmt", 2)]),
            message("Stmt", vec![]),
            message("Late", vec![single("stmt", "Stmt", 1), scalar("count", 2)]),
            message("Bare", vec![scalar("a", 1), scalar("b", 2)]),
            message("Empty", vec![]),
        ],
    };
    let analyzer = ProtoAnalyzer::from(schema).unwrap();
    assert_eq!(analyzer.node_variants(&name("Root")).err(), Some(SchemaError::ScalarVariant));
    assert_eq!(analyzer.node_variants(&name("Late")).err(), Some(SchemaError::ScalarVariant));
    assert_eq!(analyzer.node_variants(&name("Bare")).err(), Some(SchemaError::NoVariants));
    assert_eq!(analyzer.node_variants(&name("Empty")).err(), Some(SchemaError::NoVariants));
    assert_eq!(analyzer.node_variants(&name("Stmt")).err(), Some(SchemaError::NoVariants));
}

#[test]
fn one_variant_for_each_root_field_in_order() {
    let schema = Schema {
        messages: vec![
            message(
                "Root",
                vec![
                    single("zeta", "Z", 9),
                    many("alphas", "A", 3),
                    single("mid", "M", 5),
                    keyed("table", "Entry", 1),
                ],
            ),
            message("Z", vec![single("root", "Root", 1)]),
            message("A", vec![single("root", "Root", 1)]),
            message("M", vec![]),
            message("Entry", vec![single("value", "Root", 1)]),
        ],
    };
    let analyzer = ProtoAnalyzer::from(schema).unwrap();
    let variants = analyzer.node_variants(&name("Root")).unwrap();
    let names: Vec<&str> = variants.iter().map(|v| v.name.as_str()).collect();
    assert_eq!(names, vec!["Zeta", "Alphas", "Mid", "Table"]);
    let payloads: Vec<&str> = variants.iter().map(|v| v.payload_type.as_str()).collect();
    assert_eq!(payloads, vec!["Z", "A", "M", "Entry"]);
    let boxed: Vec<bool> = variants.iter().map(|v| v.boxed).collect();
    assert_eq!(boxed, vec![true, false, false, false]);
}

#[test]
fn map_field_is_an_edge_but_never_boxed() {
    let schema = Schema {
        messages: vec![
            message("Holder", vec![keyed("table", "Entry", 1)]),
            message("Entry", vec![single("value", "Holder", 1)]),
        ],
    };
    let analyzer = ProtoAnalyzer::from(schema).unwrap();
    assert_eq!(analyzer.message_graph.edges, vec![vec![1], vec![0]]);
    assert!(analyzer.is_nested(&name("Holder"), &name("Entry")));
    assert!(!analyzer.message_fields(&name("Holder"))[0].boxed);
    assert!(!analyzer.message_fields(&name("Holder"))[0].is_repeated);
    assert!(analyzer.message_fields(&name("Entry"))[0].boxed);
}

use pg_parse::analyzer::NodeVariant;
use pg_parse::error::Error;
use pg_parse::parse::{warnings_from_lines, ParseResult};
use pg_parse::text::{has_prefix, split_lines, trim, whitespace};
use pg_parse::tree::{
    tag_of_payload, Node, NodeEnum, NodeMut, NodeMutIterator, ParseTree, Payload, RawStmt, Slot,
};

fn variants() -> Vec<NodeVariant> {
    vec![
        NodeVariant {
            name: "SelectStmt".to_string(),
            payload_type: "SelectStmt".to_string(),
            boxed: true,
        },
        NodeVariant { name: "Integer".to_string(), payload_type: "Integer".to_string(), boxed: false },
    ]
}

fn boxed_node(bytes: &[u8]) -> NodeEnum {
    NodeEnum { variant: 0, slot: Slot::Boxed(Box::new(Payload { data: bytes.to_vec() })) }
}

fn inline_node(bytes: &[u8]) -> NodeEnum {
    NodeEnum { variant: 1, slot: Slot::Inline(Payload { data: bytes.to_vec() }) }
}

fn statement(node: Option<NodeEnum>) -> RawStmt {
    RawStmt { stmt: Some(Node { node }), stmt_location: 0, stmt_len: 0 }
}

fn tree(stmts: Vec<RawStmt>) -> ParseTree {
    ParseTree { version: 170004, stmts }
}

#[test]
fn borrowed_round_trip_keeps_value_and_storage() {
    let vs = variants();
    let boxed = boxed_node(&[1, 2, 3]);
    assert_eq!(boxed.to_ref().to_enum(&vs), boxed);
    let inline = inline_node(&[]);
    assert_eq!(inline.to_ref().to_enum(&vs), inline);
    let view = boxed.to_ref();
    assert_eq!(view.variant, 0);
    assert_eq!(view.payload.data, vec![1, 2, 3]);
}

#[test]
fn borrowed_to_owned_follows_the_boxing_decision() {
    let vs = variants();
    let payload = Payload { data: vec![9, 8] };
    let as_first = payload.as_ref(0).to_enum(&vs);
    assert_eq!(as_first, boxed_node(&[9, 8]));
    let as_second = payload.as_ref(1).to_enum(&vs);
    assert_eq!(as_second, inline_node(&[9, 8]));
    assert_eq!(NodeEnum::wrap(&vs, 0, Payload { data: vec![7] }), boxed_node(&[7]));
    assert_eq!(payload.deep_clone(), payload);
    assert_eq!(boxed_node(&[4]).payload().data, vec![4]);
}

#[test]
fn null_accessor_is_rejected() {
    let vs = variants();
    let t = tree(vec![statement(Some(inline_node(&[5])))]);
    let null = NodeMut::null(1);
    assert_eq!(null.address, 0);
    assert_eq!(null.to_enum(&t, &vs), Err(Error::InvalidPointer));
    let rendered = null.deparse(&t, &vs, 170004, |_t: &ParseTree| Ok("unreachable".to_string()));
    assert_eq!(rendered, Err(Error::InvalidPointer));
}

#[test]
fn exclusive_round_trip_keeps_value() {
    let vs = variants();
    let mut result = ParseResult::new(
        tree(vec![
            statement(Some(inline_node(&[5]))),
            RawStmt { stmt: None, stmt_location: 3, stmt_len: 4 },
            statement(None),
            statement(Some(boxed_node(&[6, 7]))),
        ]),
        String::new(),
    );
    let accessors = result.stmts_mut();
    assert_eq!(
        accessors,
        vec![NodeMut { variant: 1, address: 1 }, NodeMut { variant: 0, address: 4 }]
    );
    let copy = accessors[1];
    assert_eq!(copy.to_enum(&result.protobuf, &vs), Ok(boxed_node(&[6, 7])));
    assert_eq!(accessors[1].to_enum(&result.protobuf, &vs), Ok(boxed_node(&[6, 7])));
    assert_eq!(accessors[0].to_enum(&result.protobuf, &vs), Ok(inline_node(&[5])));
    let nodes = result.stmts();
    assert_eq!(nodes.len(), 2);
    assert_eq!(*nodes[0], inline_node(&[5]));
    assert_eq!(*nodes[1], boxed_node(&[6, 7]));
    assert_eq!(result.root(), None);
    assert_eq!(result.root_mut(), None);
}

#[test]
fn root_needs_exactly_one_statement() {
    let mut one = ParseResult::new(tree(vec![statement(Some(boxed_node(&[1])))]), String::new());
    assert_eq!(one.root(), Some(&boxed_node(&[1])));
    assert_eq!(one.root_mut(), Some(NodeMut { variant: 0, address: 1 }));
    let mut none = ParseResult::new(tree(vec![]), String::new());
    assert_eq!(none.root(), None);
    assert_eq!(none.root_mut(), None);
    assert!(none.stmts().is_empty());
    assert!(none.stmts_mut().is_empty());
    let mut hollow = ParseResult::new(tree(vec![statement(None)]), String::new());
    assert_eq!(hollow.root(), None);
    assert_eq!(hollow.root_mut(), None);
}

#[test]
fn warnings_are_the_marked_lines_trimmed() {
    let stderr = "WARNING:  first  \nNOTICE: skipped\n  WARNING: indented\nWARNING two\r\nwarning: lower\nWARNING";
    let result = ParseResult::new(tree(vec![]), stderr.to_string());
    assert_eq!(result.warnings, vec!["WARNING:  first", "WARNING two", "WARNING"]);
    assert_eq!(result.protobuf, tree(vec![]));
    let none = ParseResult::new(tree(vec![]), String::new());
    assert!(none.warnings.is_empty());
    let picked = warnings_from_lines(&vec![
        "WARNING x\t".to_string(),
        "WARN".to_string(),
        "".to_string(),
    ]);
    assert_eq!(picked, vec!["WARNING x"]);
}

#[test]
fn trimming_follows_unicode_whitespace() {
    let stderr = "WARNING: nbsp\u{a0}\u{3000}\nWARNING zw\u{200b}\nWARNING tail\r";
    let result = ParseResult::new(tree(vec![]), stderr.to_string());
    assert_eq!(result.warnings, vec!["WARNING: nbsp", "WARNING zw\u{200b}", "WARNING tail"]);
    let crlf = ParseResult::new(tree(vec![]), "x\r\nWARNING a\r\n\r\nWARNING b".to_string());
    assert_eq!(crlf.warnings, vec!["WARNING a", "WARNING b"]);
}

#[test]
fn prefix_test_is_exact() {
    assert!(has_prefix("WARNING: x", "WARNING"));
    assert!(has_prefix("WARNING", "WARNING"));
    assert!(!has_prefix("WARNIN", "WARNING"));
    assert!(!has_prefix(" WARNING", "WARNING"));
    assert!(has_prefix("anything", ""));
    assert!(!has_prefix("WARNINg", "WARNING"));
}

#[test]
fn deparse_wraps_the_node_as_sole_statement() {
    let vs = variants();
    let mut result = ParseResult::new(
        tree(vec![statement(Some(inline_node(&[1]))), statement(Some(boxed_node(&[2, 3])))]),
        String::new(),
    );
    let accessors = result.stmts_mut();
    let rendered = accessors[1].deparse(&result.protobuf, &vs, 170004, |t: &ParseTree| {
        Ok(format!(
            "{} {} {:?}",
            t.version,
            t.stmts.len(),
            t.stmts[0].stmt.as_ref().unwrap().node.as_ref().unwrap()
        ))
    });
    assert_eq!(rendered, Ok(format!("170004 1 {:?}", boxed_node(&[2, 3]))));
    let whole = result.deparse(|t: &ParseTree| Ok(format!("{}", t.stmts.len())));
    assert_eq!(whole, Ok("2".to_string()));
    let failed = result.deparse(|_t: &ParseTree| Err(Error::Deparse("no".to_string())));
    assert_eq!(failed, Err(Error::Deparse("no".to_string())));
    let sole = ParseTree::sole_statement(inline_node(&[8]), 7);
    assert_eq!(
        sole,
        ParseTree { version: 7, stmts: vec![statement(Some(inline_node(&[8])))] }
    );
}

#[test]
fn payload_type_maps_back_to_its_tag() {
    let vs = variants();
    assert_eq!(tag_of_payload(&vs, &"Integer".to_string()), Some(1));
    assert_eq!(tag_of_payload(&vs, &"SelectStmt".to_string()), Some(0));
    assert_eq!(tag_of_payload(&vs, &"Missing".to_string()), None);
}

#[test]
fn traversal_starts_at_the_node() {
    let start = NodeMut { variant: 1, address: 3 };
    let mut iter = start.iter_mut();
    assert_eq!(iter.pending, vec![start]);
    assert_eq!(iter.advance(), Some(start));
    assert_eq!(iter.advance(), None);
    let mut other = NodeMutIterator::new(NodeMut::null(0));
    assert_eq!(other.advance(), Some(NodeMut { variant: 0, address: 0 }));
}

#[test]
fn lines_agree_with_std() {
    let cases = [
        "",
        "a\r",
        "a\r\n",
        "\n",
        "a\n\nb",
        "\r\r\n",
        "a\rb\nc\r",
        "x\n",
        "\r",
        "\n\r",
        "one\ntwo\r\nthree",
        "\n\n\n",
        "h\u{e9}llo\nw\u{f6}rld\r\n",
    ];
    for text in cases {
        let expected: Vec<String> = text.lines().map(String::from).collect();
        assert_eq!(split_lines(text), expected);
    }
    assert_eq!(split_lines("a\r\nb\n"), vec!["a", "b"]);
    assert_eq!(split_lines("a\r"), vec!["a\r"]);
    assert!(split_lines("").is_empty());
}

#[test]
fn trim_agrees_with_std() {
    let cases = [
        "",
        " ",
        "a",
        "  a b  ",
        "\t\n x \r\n",
        "\u{a0}x\u{3000}",
        "\u{200b}x\u{200b}",
        " \u{2028}\u{2029}y\u{85}",
        "x \u{1680} y",
        "\u{180e}z",
    ];
    for text in cases {
        assert_eq!(trim(text), text.trim());
    }
    assert_eq!(trim("  WARNING: x \n"), "WARNING: x");
    assert!(whitespace(' '));
    assert!(whitespace('\u{205f}'));
    assert!(!whitespace('\u{200b}'));
    assert!(!whitespace('a'));
}

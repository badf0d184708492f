//! End-to-end tests of the parser: token streams in, trees or errors out.

use btml::parse::{BtmlAttr, BtmlChild, BtmlElse, BtmlInput, Content, ParseError, Wanted};
use btml::token::{Delim, Tok};

fn id(s: &str) -> Tok {
    Tok::Ident(s.to_string())
}

fn pu(c: char) -> Tok {
    Tok::Punct(c)
}

fn lit(s: &str) -> Tok {
    Tok::Literal(s.to_string())
}

fn ob() -> Tok {
    Tok::Open(Delim::Brace)
}

fn cb() -> Tok {
    Tok::Close(Delim::Brace)
}

fn op() -> Tok {
    Tok::Open(Delim::Paren)
}

fn cp() -> Tok {
    Tok::Close(Delim::Paren)
}

#[test]
fn parse_empty_document() {
    let d = BtmlInput::parse(&vec![]).unwrap();
    assert_eq!(d.spawner, None);
    assert!(d.nodes.is_empty());
}

#[test]
fn parse_self_closing_with_attrs_and_flags() {
    // <Node default, width=10 />
    let toks = vec![
        pu('<'),
        id("Node"),
        id("default"),
        pu(','),
        id("width"),
        pu('='),
        lit("10"),
        pu('/'),
        pu('>'),
    ];
    let d = BtmlInput::parse(&toks).unwrap();
    assert_eq!(d.spawner, None);
    assert_eq!(d.nodes.len(), 1);
    match &d.nodes[0] {
        BtmlChild::Node(n) => {
            assert_eq!(n.tag, "Node");
            assert_eq!(n.constructor, None);
            assert_eq!(n.flags, vec!["default".to_string()]);
            assert_eq!(
                n.attributes,
                vec![BtmlAttr { key: "width".to_string(), value: vec![lit("10")] }]
            );
            assert!(n.children.is_empty());
            assert_eq!(n.content, None);
        },
        other => panic!("expected a node, got {:?}", other),
    }
}

#[test]
fn parse_spawner_prefix() {
    // commands, <M/>
    let toks = vec![id("commands"), pu(','), pu('<'), id("M"), pu('/'), pu('>')];
    let d = BtmlInput::parse(&toks).unwrap();
    assert_eq!(d.spawner, Some("commands".to_string()));
    assert_eq!(d.nodes.len(), 1);
}

#[test]
fn parse_identifier_without_comma_is_not_a_spawner() {
    // commands <M/> — the lookahead must not consume the identifier
    let toks = vec![id("commands"), pu('<'), id("M"), pu('/'), pu('>')];
    let r = BtmlInput::parse(&toks);
    assert_eq!(r.unwrap_err(), ParseError::Expected { at: 0, what: Wanted::Lt });
}

#[test]
fn parse_constructor_and_content() {
    // <Text(new)>"Child"</Text>
    let toks = vec![
        pu('<'),
        id("Text"),
        op(),
        id("new"),
        cp(),
        pu('>'),
        lit("\"Child\""),
        pu('<'),
        pu('/'),
        id("Text"),
        pu('>'),
    ];
    let d = BtmlInput::parse(&toks).unwrap();
    match &d.nodes[0] {
        BtmlChild::Node(n) => {
            assert_eq!(n.tag, "Text");
            assert_eq!(n.constructor, Some("new".to_string()));
            assert_eq!(n.content, Some(Content::Arguments(vec![vec![lit("\"Child\"")]])));
            assert!(n.children.is_empty());
        },
        other => panic!("expected a node, got {:?}", other),
    }
}

#[test]
fn parse_content_splits_on_top_level_commas_only() {
    // <P>f(1, 2), 3</P> — the comma inside the call must not split
    let toks = vec![
        pu('<'),
        id("P"),
        pu('>'),
        id("f"),
        op(),
        lit("1"),
        pu(','),
        lit("2"),
        cp(),
        pu(','),
        lit("3"),
        pu('<'),
        pu('/'),
        id("P"),
        pu('>'),
    ];
    let d = BtmlInput::parse(&toks).unwrap();
    match &d.nodes[0] {
        BtmlChild::Node(n) => {
            assert_eq!(
                n.content,
                Some(Content::Arguments(vec![
                    vec![id("f"), op(), lit("1"), pu(','), lit("2"), cp()],
                    vec![lit("3")],
                ]))
            );
        },
        other => panic!("expected a node, got {:?}", other),
    }
}

#[test]
fn parse_attr_value_keeps_nested_commas() {
    // <A k=f(1, 2), m=3 />
    let toks = vec![
        pu('<'),
        id("A"),
        id("k"),
        pu('='),
        id("f"),
        op(),
        lit("1"),
        pu(','),
        lit("2"),
        cp(),
        pu(','),
        id("m"),
        pu('='),
        lit("3"),
        pu('/'),
        pu('>'),
    ];
    let d = BtmlInput::parse(&toks).unwrap();
    match &d.nodes[0] {
        BtmlChild::Node(n) => {
            assert_eq!(n.attributes.len(), 2);
            assert_eq!(n.attributes[0].key, "k");
            assert_eq!(
                n.attributes[0].value,
                vec![id("f"), op(), lit("1"), pu(','), lit("2"), cp()]
            );
            assert_eq!(n.attributes[1].key, "m");
            assert_eq!(n.attributes[1].value, vec![lit("3")]);
        },
        other => panic!("expected a node, got {:?}", other),
    }
}

#[test]
fn parse_empty_attribute_value_fails() {
    // <A k= />
    let toks = vec![pu('<'), id("A"), id("k"), pu('='), pu('/'), pu('>')];
    let r = BtmlInput::parse(&toks);
    assert_eq!(r.unwrap_err(), ParseError::EmptyValue { at: 4 });
}

#[test]
fn parse_tag_mismatch_fails() {
    // <Foo></Bar>
    let toks = vec![
        pu('<'),
        id("Foo"),
        pu('>'),
        pu('<'),
        pu('/'),
        id("Bar"),
        pu('>'),
    ];
    let r = BtmlInput::parse(&toks);
    assert_eq!(
        r.unwrap_err(),
        ParseError::TagMismatch { at: 5, expected: "Foo".to_string(), found: "Bar".to_string() }
    );
}

#[test]
fn parse_nested_tag_mismatch_fails() {
    // <Foo><Bar></Baz></Foo> — depth does not matter
    let toks = vec![
        pu('<'),
        id("Foo"),
        pu('>'),
        pu('<'),
        id("Bar"),
        pu('>'),
        pu('<'),
        pu('/'),
        id("Baz"),
        pu('>'),
        pu('<'),
        pu('/'),
        id("Foo"),
        pu('>'),
    ];
    let r = BtmlInput::parse(&toks);
    assert_eq!(
        r.unwrap_err(),
        ParseError::TagMismatch { at: 8, expected: "Bar".to_string(), found: "Baz".to_string() }
    );
}

#[test]
fn parse_tag_mismatch_with_content_fails() {
    // <Foo>x</Bar>
    let toks = vec![
        pu('<'),
        id("Foo"),
        pu('>'),
        id("x"),
        pu('<'),
        pu('/'),
        id("Bar"),
        pu('>'),
    ];
    assert!(matches!(
        BtmlInput::parse(&toks),
        Err(ParseError::TagMismatch { .. })
    ));
}

#[test]
fn parse_unterminated_body_fails() {
    // <A>
    let toks = vec![pu('<'), id("A"), pu('>')];
    let r = BtmlInput::parse(&toks);
    assert_eq!(r.unwrap_err(), ParseError::Expected { at: 3, what: Wanted::Lt });
}

#[test]
fn parse_mixed_body_fails() {
    // <A>x <B/></A> — expression content and nested items cannot mix
    let toks = vec![
        pu('<'),
        id("A"),
        pu('>'),
        id("x"),
        pu('<'),
        id("B"),
        pu('/'),
        pu('>'),
        pu('<'),
        pu('/'),
        id("A"),
        pu('>'),
    ];
    let r = BtmlInput::parse(&toks);
    assert_eq!(r.unwrap_err(), ParseError::MixedBody { at: 4 });
}

#[test]
fn parse_for_loop() {
    // s, for i in items { <L/> }
    let toks = vec![
        id("s"),
        pu(','),
        id("for"),
        id("i"),
        id("in"),
        id("items"),
        ob(),
        pu('<'),
        id("L"),
        pu('/'),
        pu('>'),
        cb(),
    ];
    let d = BtmlInput::parse(&toks).unwrap();
    assert_eq!(d.spawner, Some("s".to_string()));
    match &d.nodes[0] {
        BtmlChild::For(f) => {
            assert_eq!(f.pat, vec![id("i")]);
            assert_eq!(f.expr, vec![id("items")]);
            assert_eq!(f.body.len(), 1);
            assert!(matches!(&f.body[0], BtmlChild::Node(n) if n.tag == "L"));
        },
        other => panic!("expected a for loop, got {:?}", other),
    }
}

#[test]
fn parse_for_without_pattern_fails() {
    // s, for in items { }
    let toks = vec![
        id("s"),
        pu(','),
        id("for"),
        id("in"),
        id("items"),
        ob(),
        cb(),
    ];
    let r = BtmlInput::parse(&toks);
    assert_eq!(r.unwrap_err(), ParseError::EmptyPattern { at: 3 });
}

#[test]
fn parse_if_else_if_else_chain() {
    // s, if c1 { <A/> } else if c2 { <B/> } else { <C/> }
    let toks = vec![
        id("s"),
        pu(','),
        id("if"),
        id("c1"),
        ob(),
        pu('<'),
        id("A"),
        pu('/'),
        pu('>'),
        cb(),
        id("else"),
        id("if"),
        id("c2"),
        ob(),
        pu('<'),
        id("B"),
        pu('/'),
        pu('>'),
        cb(),
        id("else"),
        ob(),
        pu('<'),
        id("C"),
        pu('/'),
        pu('>'),
        cb(),
    ];
    let d = BtmlInput::parse(&toks).unwrap();
    match &d.nodes[0] {
        BtmlChild::If(i) => {
            assert_eq!(i.condition, vec![id("c1")]);
            assert!(matches!(&i.then_branch[0], BtmlChild::Node(n) if n.tag == "A"));
            match i.else_branch.as_deref() {
                Some(BtmlElse::If(i2)) => {
                    assert_eq!(i2.condition, vec![id("c2")]);
                    assert!(matches!(&i2.then_branch[0], BtmlChild::Node(n) if n.tag == "B"));
                    match i2.else_branch.as_deref() {
                        Some(BtmlElse::Block(b)) => {
                            assert!(matches!(&b[0], BtmlChild::Node(n) if n.tag == "C"));
                        },
                        other => panic!("expected an else block, got {:?}", other),
                    }
                },
                other => panic!("expected an else-if, got {:?}", other),
            }
        },
        other => panic!("expected an if chain, got {:?}", other),
    }
}

#[test]
fn parse_if_without_else() {
    // s, if c { <A/> }
    let toks = vec![
        id("s"),
        pu(','),
        id("if"),
        id("c"),
        ob(),
        pu('<'),
        id("A"),
        pu('/'),
        pu('>'),
        cb(),
    ];
    let d = BtmlInput::parse(&toks).unwrap();
    match &d.nodes[0] {
        BtmlChild::If(i) => assert!(i.else_branch.is_none()),
        other => panic!("expected an if chain, got {:?}", other),
    }
}

#[test]
fn parse_if_with_empty_condition_fails() {
    // s, if { }
    let toks = vec![id("s"), pu(','), id("if"), ob(), cb()];
    let r = BtmlInput::parse(&toks);
    assert_eq!(r.unwrap_err(), ParseError::EmptyExpr { at: 3 });
}

#[test]
fn parse_children_marker_nests() {
    // s, <A><children><D/></children></A>
    let toks = vec![
        id("s"),
        pu(','),
        pu('<'),
        id("A"),
        pu('>'),
        pu('<'),
        id("children"),
        pu('>'),
        pu('<'),
        id("D"),
        pu('/'),
        pu('>'),
        pu('<'),
        pu('/'),
        id("children"),
        pu('>'),
        pu('<'),
        pu('/'),
        id("A"),
        pu('>'),
    ];
    let d = BtmlInput::parse(&toks).unwrap();
    match &d.nodes[0] {
        BtmlChild::Node(a) => {
            assert_eq!(a.tag, "A");
            assert_eq!(a.children.len(), 1);
            match &a.children[0] {
                BtmlChild::Node(m) => {
                    assert_eq!(m.tag, "children");
                    assert!(matches!(&m.children[0], BtmlChild::Node(d2) if d2.tag == "D"));
                },
                other => panic!("expected the marker node, got {:?}", other),
            }
        },
        other => panic!("expected a node, got {:?}", other),
    }
}

#[test]
fn parse_empty_argument_fails() {
    // <P>,x</P> — an expression list may not have an empty element
    let toks = vec![
        pu('<'),
        id("P"),
        pu('>'),
        pu(','),
        id("x"),
        pu('<'),
        pu('/'),
        id("P"),
        pu('>'),
    ];
    let r = BtmlInput::parse(&toks);
    assert_eq!(r.unwrap_err(), ParseError::EmptyArgument { at: 3 });
}

#[test]
fn parse_trailing_comma_in_content_is_allowed() {
    // <P>1, 2,</P>
    let toks = vec![
        pu('<'),
        id("P"),
        pu('>'),
        lit("1"),
        pu(','),
        lit("2"),
        pu(','),
        pu('<'),
        pu('/'),
        id("P"),
        pu('>'),
    ];
    let d = BtmlInput::parse(&toks).unwrap();
    match &d.nodes[0] {
        BtmlChild::Node(n) => {
            assert_eq!(
                n.content,
                Some(Content::Arguments(vec![vec![lit("1")], vec![lit("2")]]))
            );
        },
        other => panic!("expected a node, got {:?}", other),
    }
}

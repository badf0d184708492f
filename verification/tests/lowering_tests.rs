//! End-to-end tests of the lowerer: parsed documents in, construction
//! expression trees or errors out.

use btml::codegen::{Component, ElseStmt, LowerError, SpawnStmt, generate_bundle_code,
    generate_spawn_code};
use btml::parse::{BtmlAttr, BtmlInput};
use btml::token::{Delim, Tok};

fn id(s: &str) -> Tok {
    Tok::Ident(s.to_string())
}

fn pu(c: char) -> Tok {
    Tok::Punct(c)
}

fn lit(s: &str) -> Tok {
    Tok::Literal(s.to_string())
}

fn ob() -> Tok {
    Tok::Open(Delim::Brace)
}

fn cb() -> Tok {
    Tok::Close(Delim::Brace)
}

#[test]
fn bundle_fieldwise_with_default_fill() {
    // <X a=1 /> lowers to X { a: 1, ..Default::default() }
    let toks = vec![pu('<'), id("X"), id("a"), pu('='), lit("1"), pu('/'), pu('>')];
    let d = BtmlInput::parse(&toks).unwrap();
    assert_eq!(d.spawner, None);
    let cs = generate_bundle_code(&d.nodes).unwrap();
    assert_eq!(
        cs,
        vec![Component::Fieldwise {
            tag: "X".to_string(),
            fields: vec![BtmlAttr { key: "a".to_string(), value: vec![lit("1")] }],
            fill_default: true,
        }]
    );
}

#[test]
fn bundle_fieldwise_no_default_keeps_given_fields_only() {
    // <X no_default, a=1 /> lowers to X { a: 1 } with no default fill
    let toks = vec![
        pu('<'),
        id("X"),
        id("no_default"),
        pu(','),
        id("a"),
        pu('='),
        lit("1"),
        pu('/'),
        pu('>'),
    ];
    let d = BtmlInput::parse(&toks).unwrap();
    let cs = generate_bundle_code(&d.nodes).unwrap();
    assert_eq!(
        cs,
        vec![Component::Fieldwise {
            tag: "X".to_string(),
            fields: vec![BtmlAttr { key: "a".to_string(), value: vec![lit("1")] }],
            fill_default: false,
        }]
    );
}

#[test]
fn bundle_unit_and_default_forms() {
    // <M/><X default/>
    let toks = vec![
        pu('<'),
        id("M"),
        pu('/'),
        pu('>'),
        pu('<'),
        id("X"),
        id("default"),
        pu('/'),
        pu('>'),
    ];
    let d = BtmlInput::parse(&toks).unwrap();
    let cs = generate_bundle_code(&d.nodes).unwrap();
    assert_eq!(
        cs,
        vec![
            Component::Unit { tag: "M".to_string() },
            Component::DefaultCall { tag: "X".to_string() },
        ]
    );
}

#[test]
fn bundle_constructor_and_positional_forms() {
    // <Text(new)>"hi"</Text><Color>BLACK</Color><Empty(new)></Empty>
    let toks = vec![
        pu('<'),
        id("Text"),
        Tok::Open(Delim::Paren),
        id("new"),
        Tok::Close(Delim::Paren),
        pu('>'),
        lit("\"hi\""),
        pu('<'),
        pu('/'),
        id("Text"),
        pu('>'),
        pu('<'),
        id("Color"),
        pu('>'),
        id("BLACK"),
        pu('<'),
        pu('/'),
        id("Color"),
        pu('>'),
        pu('<'),
        id("Empty"),
        Tok::Open(Delim::Paren),
        id("new"),
        Tok::Close(Delim::Paren),
        pu('>'),
        pu('<'),
        pu('/'),
        id("Empty"),
        pu('>'),
    ];
    let d = BtmlInput::parse(&toks).unwrap();
    let cs = generate_bundle_code(&d.nodes).unwrap();
    assert_eq!(
        cs,
        vec![
            Component::ConstructorCall {
                tag: "Text".to_string(),
                constructor: "new".to_string(),
                args: vec![vec![lit("\"hi\"")]],
            },
            Component::Positional { tag: "Color".to_string(), args: vec![vec![id("BLACK")]] },
            Component::ConstructorCall {
                tag: "Empty".to_string(),
                constructor: "new".to_string(),
                args: vec![],
            },
        ]
    );
}

#[test]
fn conflicting_flags_fail_both_modes() {
    // <X default, no_default /> always fails lowering
    let toks = vec![
        pu('<'),
        id("X"),
        id("default"),
        pu(','),
        id("no_default"),
        pu('/'),
        pu('>'),
    ];
    let d = BtmlInput::parse(&toks).unwrap();
    assert_eq!(
        generate_bundle_code(&d.nodes).unwrap_err(),
        LowerError::ConflictingFlags { tag: "X".to_string() }
    );
    assert_eq!(
        generate_spawn_code("commands", &d.nodes).unwrap_err(),
        LowerError::ConflictingFlags { tag: "X".to_string() }
    );
}

#[test]
fn sibling_flattening_ignores_nesting_depth() {
    // c, <A a=1><B b=2><C c=3 /></B></A> — one spawn, components [A, B, C]
    let toks = vec![
        id("c"),
        pu(','),
        pu('<'),
        id("A"),
        id("a"),
        pu('='),
        lit("1"),
        pu('>'),
        pu('<'),
        id("B"),
        id("b"),
        pu('='),
        lit("2"),
        pu('>'),
        pu('<'),
        id("C"),
        id("c"),
        pu('='),
        lit("3"),
        pu('/'),
        pu('>'),
        pu('<'),
        pu('/'),
        id("B"),
        pu('>'),
        pu('<'),
        pu('/'),
        id("A"),
        pu('>'),
    ];
    let d = BtmlInput::parse(&toks).unwrap();
    let e = generate_spawn_code(&d.spawner.clone().unwrap(), &d.nodes).unwrap();
    assert_eq!(e.spawner, "c");
    let tags: Vec<&str> = e
        .components
        .iter()
        .map(|c| match c {
            Component::Fieldwise { tag, .. } => tag.as_str(),
            other => panic!("expected fieldwise components, got {:?}", other),
        })
        .collect();
    assert_eq!(tags, vec!["A", "B", "C"]);
    assert!(e.children.is_empty());
}

#[test]
fn grouping_marker_creates_descendants() {
    // c, <A default><children><D/></children></A>
    let toks = vec![
        id("c"),
        pu(','),
        pu('<'),
        id("A"),
        id("default"),
        pu('>'),
        pu('<'),
        id("children"),
        pu('>'),
        pu('<'),
        id("D"),
        pu('/'),
        pu('>'),
        pu('<'),
        pu('/'),
        id("children"),
        pu('>'),
        pu('<'),
        pu('/'),
        id("A"),
        pu('>'),
    ];
    let d = BtmlInput::parse(&toks).unwrap();
    let e = generate_spawn_code("c", &d.nodes).unwrap();
    assert_eq!(e.components, vec![Component::DefaultCall { tag: "A".to_string() }]);
    assert_eq!(e.children.len(), 1);
    match &e.children[0] {
        SpawnStmt::Spawn(inner) => {
            assert_eq!(inner.spawner, "parent");
            assert_eq!(inner.components, vec![Component::Unit { tag: "D".to_string() }]);
            assert!(inner.children.is_empty());
        },
        other => panic!("expected a nested spawn, got {:?}", other),
    }
}

#[test]
fn loop_lowers_without_wrapper_object() {
    // c, <children>for x in [1,2,3] { <Leaf/> }</children>
    let toks = vec![
        id("c"),
        pu(','),
        pu('<'),
        id("children"),
        pu('>'),
        id("for"),
        id("x"),
        id("in"),
        Tok::Open(Delim::Bracket),
        lit("1"),
        pu(','),
        lit("2"),
        pu(','),
        lit("3"),
        Tok::Close(Delim::Bracket),
        ob(),
        pu('<'),
        id("Leaf"),
        pu('/'),
        pu('>'),
        cb(),
        pu('<'),
        pu('/'),
        id("children"),
        pu('>'),
    ];
    let d = BtmlInput::parse(&toks).unwrap();
    let e = generate_spawn_code("c", &d.nodes).unwrap();
    assert!(e.components.is_empty());
    assert_eq!(e.children.len(), 1);
    match &e.children[0] {
        SpawnStmt::Spawn(inner) => {
            assert!(inner.components.is_empty());
            assert_eq!(inner.children.len(), 1);
            match &inner.children[0] {
                SpawnStmt::For { pat, iter, body } => {
                    assert_eq!(pat, &vec![id("x")]);
                    assert_eq!(
                        iter,
                        &vec![
                            Tok::Open(Delim::Bracket),
                            lit("1"),
                            pu(','),
                            lit("2"),
                            pu(','),
                            lit("3"),
                            Tok::Close(Delim::Bracket),
                        ]
                    );
                    // each iteration spawns directly on the enclosing child
                    // builder: no wrapper object from the loop itself
                    assert_eq!(body.spawner, "parent");
                    assert_eq!(
                        body.components,
                        vec![Component::Unit { tag: "Leaf".to_string() }]
                    );
                    assert!(body.children.is_empty());
                },
                other => panic!("expected a for statement, got {:?}", other),
            }
        },
        other => panic!("expected a nested spawn, got {:?}", other),
    }
}

#[test]
fn mode_rejection_for_loop() {
    // the same document fails in pure composition mode and succeeds with a
    // spawner
    let toks = vec![
        id("for"),
        id("x"),
        id("in"),
        id("xs"),
        ob(),
        pu('<'),
        id("Leaf"),
        pu('/'),
        pu('>'),
        cb(),
    ];
    let d = BtmlInput::parse(&toks).unwrap();
    assert_eq!(d.spawner, None);
    assert_eq!(
        generate_bundle_code(&d.nodes).unwrap_err(),
        LowerError::ControlFlowInBundle
    );
    assert!(generate_spawn_code("commands", &d.nodes).is_ok());
}

#[test]
fn bundle_rejects_grouping_marker() {
    // <A><children><D/></children></A> without a spawner
    let toks = vec![
        pu('<'),
        id("A"),
        pu('>'),
        pu('<'),
        id("children"),
        pu('>'),
        pu('<'),
        id("D"),
        pu('/'),
        pu('>'),
        pu('<'),
        pu('/'),
        id("children"),
        pu('>'),
        pu('<'),
        pu('/'),
        id("A"),
        pu('>'),
    ];
    let d = BtmlInput::parse(&toks).unwrap();
    assert_eq!(
        generate_bundle_code(&d.nodes).unwrap_err(),
        LowerError::ControlFlowInBundle
    );
}

#[test]
fn if_else_chain_lowers_faithfully() {
    // c, if c1 { <A/> } else if c2 { <B/> } else { <C/> }
    let toks = vec![
        id("c"),
        pu(','),
        id("if"),
        id("c1"),
        ob(),
        pu('<'),
        id("A"),
        pu('/'),
        pu('>'),
        cb(),
        id("else"),
        id("if"),
        id("c2"),
        ob(),
        pu('<'),
        id("B"),
        pu('/'),
        pu('>'),
        cb(),
        id("else"),
        ob(),
        pu('<'),
        id("C"),
        pu('/'),
        pu('>'),
        cb(),
    ];
    let d = BtmlInput::parse(&toks).unwrap();
    let e = generate_spawn_code("c", &d.nodes).unwrap();
    assert!(e.components.is_empty());
    match &e.children[0] {
        SpawnStmt::If(outer) => {
            assert_eq!(outer.condition, vec![id("c1")]);
            assert_eq!(
                outer.then_branch.components,
                vec![Component::Unit { tag: "A".to_string() }]
            );
            match outer.else_branch.as_deref() {
                Some(ElseStmt::ElseIf(inner)) => {
                    assert_eq!(inner.condition, vec![id("c2")]);
                    assert_eq!(
                        inner.then_branch.components,
                        vec![Component::Unit { tag: "B".to_string() }]
                    );
                    match inner.else_branch.as_deref() {
                        Some(ElseStmt::Block(blk)) => {
                            assert_eq!(
                                blk.components,
                                vec![Component::Unit { tag: "C".to_string() }]
                            );
                        },
                        other => panic!("expected an else block, got {:?}", other),
                    }
                },
                other => panic!("expected an else-if, got {:?}", other),
            }
        },
        other => panic!("expected an if statement, got {:?}", other),
    }
}

#[test]
fn if_without_else_has_no_else_branch() {
    // c, if c1 { <A/> }
    let toks = vec![
        id("c"),
        pu(','),
        id("if"),
        id("c1"),
        ob(),
        pu('<'),
        id("A"),
        pu('/'),
        pu('>'),
        cb(),
    ];
    let d = BtmlInput::parse(&toks).unwrap();
    let e = generate_spawn_code("c", &d.nodes).unwrap();
    match &e.children[0] {
        SpawnStmt::If(st) => assert!(st.else_branch.is_none()),
        other => panic!("expected an if statement, got {:?}", other),
    }
}

#[test]
fn generators_nested_in_plain_nodes_are_hoisted() {
    // c, <A default><B default><children><D/></children></B></A>:
    // B flattens into A's components; the marker inside B still produces a
    // child of the single spawned object
    let toks = vec![
        id("c"),
        pu(','),
        pu('<'),
        id("A"),
        id("default"),
        pu('>'),
        pu('<'),
        id("B"),
        id("default"),
        pu('>'),
        pu('<'),
        id("children"),
        pu('>'),
        pu('<'),
        id("D"),
        pu('/'),
        pu('>'),
        pu('<'),
        pu('/'),
        id("children"),
        pu('>'),
        pu('<'),
        pu('/'),
        id("B"),
        pu('>'),
        pu('<'),
        pu('/'),
        id("A"),
        pu('>'),
    ];
    let d = BtmlInput::parse(&toks).unwrap();
    let e = generate_spawn_code("c", &d.nodes).unwrap();
    assert_eq!(
        e.components,
        vec![
            Component::DefaultCall { tag: "A".to_string() },
            Component::DefaultCall { tag: "B".to_string() },
        ]
    );
    assert_eq!(e.children.len(), 1);
    assert!(matches!(&e.children[0], SpawnStmt::Spawn(inner)
        if inner.components == vec![Component::Unit { tag: "D".to_string() }]));
}

#[test]
fn full_document_lowers_end_to_end() {
    // commands,
    //     <Node display=Display::Flex, justify_content=JustifyContent::Center>
    //         <BackgroundColor>Color::BLACK</BackgroundColor>
    //         <children>
    //             <Text(new)>"Hello World"</Text>
    //             <TextFont font_size=30.0 />
    //             <TextColor>Color::WHITE</TextColor>
    //         </children>
    //     </Node>
    let toks = vec![
        id("commands"),
        pu(','),
        pu('<'),
        id("Node"),
        id("display"),
        pu('='),
        id("Display"),
        pu(':'),
        pu(':'),
        id("Flex"),
        pu(','),
        id("justify_content"),
        pu('='),
        id("JustifyContent"),
        pu(':'),
        pu(':'),
        id("Center"),
        pu('>'),
        pu('<'),
        id("BackgroundColor"),
        pu('>'),
        id("Color"),
        pu(':'),
        pu(':'),
        id("BLACK"),
        pu('<'),
        pu('/'),
        id("BackgroundColor"),
        pu('>'),
        pu('<'),
        id("children"),
        pu('>'),
        pu('<'),
        id("Text"),
        Tok::Open(Delim::Paren),
        id("new"),
        Tok::Close(Delim::Paren),
        pu('>'),
        lit("\"Hello World\""),
        pu('<'),
        pu('/'),
        id("Text"),
        pu('>'),
        pu('<'),
        id("TextFont"),
        id("font_size"),
        pu('='),
        lit("30.0"),
        pu('/'),
        pu('>'),
        pu('<'),
        id("TextColor"),
        pu('>'),
        id("Color"),
        pu(':'),
        pu(':'),
        id("WHITE"),
        pu('<'),
        pu('/'),
        id("TextColor"),
        pu('>'),
        pu('<'),
        pu('/'),
        id("children"),
        pu('>'),
        pu('<'),
        pu('/'),
        id("Node"),
        pu('>'),
    ];
    let d = BtmlInput::parse(&toks).unwrap();
    assert_eq!(d.spawner, Some("commands".to_string()));
    let e = generate_spawn_code("commands", &d.nodes).unwrap();
    assert_eq!(e.spawner, "commands");
    assert_eq!(
        e.components,
        vec![
            Component::Fieldwise {
                tag: "Node".to_string(),
                fields: vec![
                    BtmlAttr {
                        key: "display".to_string(),
                        value: vec![id("Display"), pu(':'), pu(':'), id("Flex")],
                    },
                    BtmlAttr {
                        key: "justify_content".to_string(),
                        value: vec![id("JustifyContent"), pu(':'), pu(':'), id("Center")],
                    },
                ],
                fill_default: true,
            },
            Component::Positional {
                tag: "BackgroundColor".to_string(),
                args: vec![vec![id("Color"), pu(':'), pu(':'), id("BLACK")]],
            },
        ]
    );
    assert_eq!(e.children.len(), 1);
    match &e.children[0] {
        SpawnStmt::Spawn(inner) => {
            assert_eq!(inner.spawner, "parent");
            assert_eq!(
                inner.components,
                vec![
                    Component::ConstructorCall {
                        tag: "Text".to_string(),
                        constructor: "new".to_string(),
                        args: vec![vec![lit("\"Hello World\"")]],
                    },
                    Component::Fieldwise {
                        tag: "TextFont".to_string(),
                        fields: vec![BtmlAttr {
                            key: "font_size".to_string(),
                            value: vec![lit("30.0")],
                        }],
                        fill_default: true,
                    },
                    Component::Positional {
                        tag: "TextColor".to_string(),
                        args: vec![vec![id("Color"), pu(':'), pu(':'), id("WHITE")]],
                    },
                ]
            );
            assert!(inner.children.is_empty());
        },
        other => panic!("expected a nested spawn, got {:?}", other),
    }
}

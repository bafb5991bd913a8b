use stainless::{
    keyword, sanitize, Bench, Block, DescribeState, ErrorKind, Generate, Item, Keyword, Marker, Module, Parse,
    ParseError, Parser, Punct, SubBlock, Test, TestConfig, Token, UnitFn,
};

fn block(stmts: &[&str]) -> Block {
    Block { stmts: stmts.iter().map(|s| s.to_string()).collect() }
}

fn strings(v: &[&str]) -> Vec<String> {
    v.iter().map(|s| s.to_string()).collect()
}

#[test]
fn sanitize_replaces_spaces_only() {
    assert_eq!(sanitize("should add 5 and 6 together"), "should_add_5_and_6_together");
    assert_eq!(sanitize("it's ok!"), "it's_ok!");
    assert_eq!(sanitize("  two  spaces "), "__two__spaces_");
    assert_eq!(sanitize("Upper Case"), "Upper_Case");
    assert_eq!(sanitize(""), "");
    assert_eq!(sanitize("déjà vu"), "déjà_vu");
}

#[test]
fn keywords_and_aliases_classify() {
    assert_eq!(keyword("before_each"), Some(Keyword::BeforeEach));
    assert_eq!(keyword("given"), Some(Keyword::BeforeEach));
    assert_eq!(keyword("after_each"), Some(Keyword::AfterEach));
    assert_eq!(keyword("then"), Some(Keyword::AfterEach));
    assert_eq!(keyword("it"), Some(Keyword::It));
    assert_eq!(keyword("when"), Some(Keyword::It));
    assert_eq!(keyword("failing"), Some(Keyword::Failing));
    assert_eq!(keyword("ignore"), Some(Keyword::Ignore));
    assert_eq!(keyword("bench"), Some(Keyword::Bench));
    assert_eq!(keyword("describe"), Some(Keyword::Describe));
    assert_eq!(keyword("before"), None);
    assert_eq!(keyword("Given"), None);
    assert_eq!(keyword(""), None);
}

#[test]
fn configs_set_their_flags() {
    assert_eq!(TestConfig::test(), TestConfig { ignored: false, failing: false, failing_msg: None });
    assert_eq!(TestConfig::ignored_test(), TestConfig { ignored: true, failing: false, failing_msg: None });
    assert_eq!(
        TestConfig::failing_test(Some("boom".to_string())),
        TestConfig { ignored: false, failing: true, failing_msg: Some("boom".to_string()) }
    );
    assert_eq!(TestConfig::failing_test(None), TestConfig { ignored: false, failing: true, failing_msg: None });
}

#[test]
fn test_parse_reads_description_and_body() {
    let mut parser = Parser::new(vec![Token::Str("a test".to_string()), Token::Block(block(&["x()"])), Token::Other(";".to_string())]);
    let t = Test::parse(&mut parser, TestConfig::ignored_test()).unwrap();
    assert_eq!(parser.pos, 2);
    assert_eq!(t, Test { description: "a test".to_string(), block: block(&["x()"]), test_config: TestConfig::ignored_test() });
}

#[test]
fn bench_parse_reads_signature() {
    let mut parser = Parser::new(vec![
        Token::Str("fast".to_string()),
        Token::Punct(Punct::OpenParen),
        Token::Ident("bencher".to_string()),
        Token::Punct(Punct::CloseParen),
        Token::Block(block(&["bencher.iter(|| 2 * 2)"])),
    ]);
    let b = Bench::parse(&mut parser, ()).unwrap();
    assert_eq!(parser.pos, 5);
    assert_eq!(b, Bench { bench: "bencher".to_string(), description: "fast".to_string(), block: block(&["bencher.iter(|| 2 * 2)"]) });
}

#[test]
fn nested_parse_stops_before_closing_brace() {
    let mut parser = Parser::new(vec![
        Token::Ident("inner".to_string()),
        Token::Punct(Punct::OpenBrace),
        Token::Ident("then".to_string()),
        Token::Block(block(&["done()"])),
        Token::Punct(Punct::CloseBrace),
    ]);
    let d = DescribeState::parse(&mut parser, None).unwrap();
    assert_eq!(parser.pos, 4);
    assert_eq!(d, DescribeState { name: "inner".to_string(), before_each: None, after_each: Some(block(&["done()"])), subblocks: vec![] });
}

#[test]
fn parse_error_points_at_offending_token() {
    let mut parser = Parser::new(vec![Token::Ident("it".to_string()), Token::Other("42".to_string())]);
    let e = DescribeState::parse(&mut parser, Some("top".to_string())).unwrap_err();
    assert_eq!(e, ParseError { kind: ErrorKind::MissingDescription, pos: 1 });
}

fn hooks(before: &[&str], after: &[&str]) -> DescribeState {
    DescribeState {
        name: "ctx".to_string(),
        before_each: Some(block(before)),
        after_each: Some(block(after)),
        subblocks: vec![],
    }
}

#[test]
fn test_generate_splices_hooks_and_marks() {
    let t = Test {
        description: "Big Case".to_string(),
        block: block(&["body()"]),
        test_config: TestConfig { ignored: true, failing: true, failing_msg: Some("oops".to_string()) },
    };
    let item = t.generate(&hooks(&["b1()", "b2()"], &["a1()"]));
    assert_eq!(
        item,
        Item::Unit(UnitFn {
            name: "Big_Case".to_string(),
            bencher: None,
            body: strings(&["b1()", "b2()", "body()", "a1()"]),
            markers: vec![
                Marker::Test,
                Marker::AllowNonSnakeCase,
                Marker::ShouldPanicExpected("oops".to_string()),
                Marker::Ignore
            ],
        })
    );
}

#[test]
fn test_generate_without_hooks_keeps_body() {
    let t = Test { description: "plain".to_string(), block: block(&["body()"]), test_config: TestConfig::test() };
    let ctx = DescribeState { name: "ctx".to_string(), before_each: None, after_each: None, subblocks: vec![] };
    match t.generate(&ctx) {
        Item::Unit(u) => assert_eq!(u.body, strings(&["body()"])),
        other => panic!("expected a unit, found {:?}", other),
    }
}

#[test]
fn bench_generate_keeps_body() {
    let b = Bench { bench: "b".to_string(), description: "x y".to_string(), block: block(&["b.iter(f)"]) };
    assert_eq!(
        b.generate(()),
        Item::Unit(UnitFn {
            name: "x_y".to_string(),
            bencher: Some("b".to_string()),
            body: strings(&["b.iter(f)"]),
            markers: vec![Marker::Bench],
        })
    );
}

#[test]
fn subblock_generate_dispatches() {
    let b = SubBlock::Bench(Bench { bench: "b".to_string(), description: "bb".to_string(), block: block(&["x"]) });
    match b.generate(&hooks(&["h()"], &["g()"])) {
        Item::Unit(u) => assert_eq!(u.body, strings(&["x"])),
        other => panic!("expected a unit, found {:?}", other),
    }
    let t = SubBlock::Test(Test { description: "tt".to_string(), block: block(&["y"]), test_config: TestConfig::test() });
    match t.generate(&hooks(&["h()"], &["g()"])) {
        Item::Unit(u) => assert_eq!(u.body, strings(&["h()", "y", "g()"])),
        other => panic!("expected a unit, found {:?}", other),
    }
}

#[test]
fn suite_generate_chains_parent_hooks() {
    let child = DescribeState {
        name: "child".to_string(),
        before_each: Some(block(&["cb()"])),
        after_each: None,
        subblocks: vec![SubBlock::Test(Test { description: "t".to_string(), block: block(&["t()"]), test_config: TestConfig::test() })],
    };
    let parent = hooks(&["pb()"], &["pa()"]);
    assert_eq!(
        child.generate(Some(&parent)),
        Item::Module(Module {
            name: "child".to_string(),
            items: vec![
                Item::UseParent,
                Item::Unit(UnitFn {
                    name: "t".to_string(),
                    bencher: None,
                    body: strings(&["pb()", "cb()", "t()", "pa()"]),
                    markers: vec![Marker::Test, Marker::AllowNonSnakeCase],
                }),
            ],
        })
    );
}

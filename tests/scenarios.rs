use stainless::{describe, Block, Item, Marker, Module, Punct, Token, UnitFn};

fn ident(s: &str) -> Token {
    Token::Ident(s.to_string())
}

fn text(s: &str) -> Token {
    Token::Str(s.to_string())
}

fn code(stmts: &[&str]) -> Token {
    Token::Block(Block { stmts: stmts.iter().map(|s| s.to_string()).collect() })
}

fn punct(p: Punct) -> Token {
    Token::Punct(p)
}

/// `describe ! name {`
fn open_suite(name: &str) -> Vec<Token> {
    vec![ident("describe"), punct(Punct::Not), ident(name), punct(Punct::OpenBrace)]
}

fn module(item: &Item) -> &Module {
    match item {
        Item::Module(m) => m,
        other => panic!("expected a module, found {:?}", other),
    }
}

fn unit(item: &Item) -> &UnitFn {
    match item {
        Item::Unit(u) => u,
        other => panic!("expected a unit, found {:?}", other),
    }
}

fn strings(v: &[&str]) -> Vec<String> {
    v.iter().map(|s| s.to_string()).collect()
}

fn compile(name: &str, tokens: Vec<Token>) -> Item {
    describe(name.to_string(), tokens).expect("the suite compiles")
}

#[test]
fn nested_hooks_run_outermost_first() {
    let mut tokens = vec![ident("before_each"), code(&["x=1"])];
    tokens.extend(open_suite("inner"));
    tokens.extend(vec![
        ident("before_each"),
        code(&["x+=1"]),
        ident("it"),
        text("t"),
        code(&["assert x==2"]),
        ident("after_each"),
        code(&["x+=1"]),
        punct(Punct::CloseBrace),
        ident("after_each"),
        code(&["assert_final"]),
    ]);
    let top = compile("top", tokens);
    let top = module(&top);
    assert_eq!(top.name, "top");
    assert_eq!(top.items.len(), 2);
    assert_eq!(top.items[0], Item::UseParent);
    let inner = module(&top.items[1]);
    assert_eq!(inner.name, "inner");
    assert_eq!(inner.items.len(), 2);
    assert_eq!(inner.items[0], Item::UseParent);
    let t = unit(&inner.items[1]);
    assert_eq!(t.name, "t");
    assert_eq!(t.body, strings(&["x=1", "x+=1", "assert x==2", "x+=1", "assert_final"]));
    assert_eq!(t.markers, vec![Marker::Test, Marker::AllowNonSnakeCase]);
    assert_eq!(t.bencher, None);
}

#[test]
fn failing_with_message_expects_it() {
    let tokens = vec![
        ident("it"),
        text("should add"),
        code(&["assert_eq!(5 + 6, 11)"]),
        ident("failing"),
        punct(Punct::OpenParen),
        text("boom"),
        punct(Punct::CloseParen),
        text("should explode"),
        code(&["panic!(\"boom\")"]),
    ];
    let m = compile("arith", tokens);
    let m = module(&m);
    assert_eq!(m.items.len(), 3);
    let add = unit(&m.items[1]);
    assert_eq!(add.name, "should_add");
    assert_eq!(add.markers, vec![Marker::Test, Marker::AllowNonSnakeCase]);
    let explode = unit(&m.items[2]);
    assert_eq!(explode.name, "should_explode");
    assert_eq!(
        explode.markers,
        vec![Marker::Test, Marker::AllowNonSnakeCase, Marker::ShouldPanicExpected("boom".to_string())]
    );
    assert_eq!(explode.body, strings(&["panic!(\"boom\")"]));
}

#[test]
fn benchmark_ignores_enclosing_hooks() {
    let mut tokens = vec![ident("before_each"), code(&["setup_outer()"]), ident("after_each"), code(&["teardown_outer()"])];
    tokens.extend(open_suite("middle"));
    tokens.extend(vec![ident("before_each"), code(&["setup_middle()"]), ident("after_each"), code(&["teardown_middle()"])]);
    tokens.extend(open_suite("inner"));
    tokens.extend(vec![
        ident("bench"),
        text("double"),
        punct(Punct::OpenParen),
        ident("b"),
        punct(Punct::CloseParen),
        code(&["b.iter(|| 2 * 2)"]),
        punct(Punct::CloseBrace),
        punct(Punct::CloseBrace),
    ]);
    let top = compile("top", tokens);
    let middle = module(&module(&top).items[1]);
    let inner = module(&middle.items[1]);
    let b = unit(&inner.items[1]);
    assert_eq!(b.name, "double");
    assert_eq!(b.body, strings(&["b.iter(|| 2 * 2)"]));
    assert_eq!(b.bencher, Some("b".to_string()));
    assert_eq!(b.markers, vec![Marker::Bench]);
}

#[test]
fn equal_descriptions_give_equal_names() {
    let tokens = vec![ident("it"), text("works"), code(&["a()"]), ident("it"), text("works"), code(&["b()"])];
    let m = compile("dup", tokens);
    let m = module(&m);
    assert_eq!(m.items.len(), 3);
    let first = unit(&m.items[1]);
    let second = unit(&m.items[2]);
    assert_eq!(first.name, "works");
    assert_eq!(second.name, "works");
    assert_eq!(first.body, strings(&["a()"]));
    assert_eq!(second.body, strings(&["b()"]));
}

fn hooked_suite(before: &str, after: &str, it: &str) -> Vec<Token> {
    let mut tokens = vec![ident(before), code(&["let mut foo = 1;"])];
    tokens.extend(open_suite("nested"));
    tokens.extend(vec![
        ident(before),
        code(&["assert_eq!(foo, 1);", "foo += 1;"]),
        ident(it),
        text("we check foo"),
        code(&["assert_eq!(foo, 2);", "foo += 1;"]),
        ident(after),
        code(&["assert_eq!(foo, 3);", "foo += 1;"]),
        punct(Punct::CloseBrace),
        ident(after),
        code(&["assert_eq!(foo, 4);"]),
    ]);
    tokens
}

#[test]
fn aliases_give_the_same_tree() {
    let plain = compile("top_level", hooked_suite("before_each", "after_each", "it"));
    let aliased = compile("top_level", hooked_suite("given", "then", "when"));
    assert_eq!(plain, aliased);
    let t = unit(&module(&module(&aliased).items[1]).items[1]);
    assert_eq!(t.name, "we_check_foo");
    assert_eq!(
        t.body,
        strings(&[
            "let mut foo = 1;",
            "assert_eq!(foo, 1);",
            "foo += 1;",
            "assert_eq!(foo, 2);",
            "foo += 1;",
            "assert_eq!(foo, 3);",
            "foo += 1;",
            "assert_eq!(foo, 4);",
        ])
    );
}

#[test]
fn compiling_twice_gives_the_same_output() {
    let tokens = hooked_suite("before_each", "then", "it");
    let first = describe("top_level".to_string(), tokens.clone());
    let second = describe("top_level".to_string(), tokens);
    assert_eq!(first, second);
    assert_eq!(format!("{:?}", first), format!("{:?}", second));
}

#[test]
fn simple_suite_splices_hooks() {
    let tokens = vec![
        ident("before_each"),
        code(&["let x = 5;", "let y = 6;"]),
        ident("it"),
        text("should add 5 and 6 together"),
        code(&["assert_eq!(x + y, 11);"]),
        ident("after_each"),
        code(&["assert_eq!(x, 5);", "assert_eq!(y, 6);"]),
    ];
    let m = compile("addition", tokens);
    let m = module(&m);
    assert_eq!(m.name, "addition");
    let t = unit(&m.items[1]);
    assert_eq!(t.name, "should_add_5_and_6_together");
    assert_eq!(
        t.body,
        strings(&["let x = 5;", "let y = 6;", "assert_eq!(x + y, 11);", "assert_eq!(x, 5);", "assert_eq!(y, 6);"])
    );
}

#[test]
fn nested_suite_without_hooks_keeps_bodies() {
    let mut tokens = vec![ident("it"), text("should be less specific"), code(&["assert_eq!(1, 1);"])];
    tokens.extend(open_suite("nested"));
    tokens.extend(vec![
        ident("it"),
        text("should be more specific"),
        code(&["assert_eq!(2, 2);"]),
        punct(Punct::CloseBrace),
    ]);
    let top = compile("top_level", tokens);
    let top = module(&top);
    assert_eq!(top.items.len(), 3);
    let outer = unit(&top.items[1]);
    assert_eq!(outer.name, "should_be_less_specific");
    assert_eq!(outer.body, strings(&["assert_eq!(1, 1);"]));
    let nested = module(&top.items[2]);
    assert_eq!(nested.name, "nested");
    assert_eq!(nested.items[0], Item::UseParent);
    let inner = unit(&nested.items[1]);
    assert_eq!(inner.name, "should_be_more_specific");
    assert_eq!(inner.body, strings(&["assert_eq!(2, 2);"]));
}

#[test]
fn failing_without_message_expects_any_failure() {
    let tokens = vec![
        ident("failing"),
        text("should fail"),
        code(&["panic!(\"should still pass\");"]),
        ident("failing"),
        punct(Punct::OpenParen),
        text("should still pass"),
        punct(Punct::CloseParen),
        text("should fail with message"),
        code(&["panic!(\"should still pass\");"]),
    ];
    let m = compile("failing", tokens);
    let m = module(&m);
    let plain = unit(&m.items[1]);
    assert_eq!(plain.name, "should_fail");
    assert_eq!(plain.markers, vec![Marker::Test, Marker::AllowNonSnakeCase, Marker::ShouldPanic]);
    let with_msg = unit(&m.items[2]);
    assert_eq!(with_msg.name, "should_fail_with_message");
    assert_eq!(
        with_msg.markers,
        vec![Marker::Test, Marker::AllowNonSnakeCase, Marker::ShouldPanicExpected("should still pass".to_string())]
    );
}

#[test]
fn ignored_test_is_not_run_by_default() {
    let tokens = vec![ident("ignore"), text("slow one"), code(&["sleep()"])];
    let m = compile("slow", tokens);
    let t = unit(&module(&m).items[1]);
    assert_eq!(t.name, "slow_one");
    assert_eq!(t.markers, vec![Marker::Test, Marker::AllowNonSnakeCase, Marker::Ignore]);
}

#[test]
fn empty_suite_has_only_the_parent_import() {
    let m = compile("empty", vec![]);
    let m = module(&m);
    assert_eq!(m.name, "empty");
    assert_eq!(m.items, vec![Item::UseParent]);
}

#[test]
fn hooks_do_not_reach_tests_declared_outside_their_suite() {
    let mut tokens = vec![ident("it"), text("outer"), code(&["o()"])];
    tokens.extend(open_suite("inner"));
    tokens.extend(vec![ident("before_each"), code(&["setup()"]), ident("it"), text("inner"), code(&["i()"]), punct(Punct::CloseBrace)]);
    let top = compile("top", tokens);
    let top = module(&top);
    assert_eq!(unit(&top.items[1]).body, strings(&["o()"]));
    assert_eq!(unit(&module(&top.items[2]).items[1]).body, strings(&["setup()", "i()"]));
}

#[test]
fn three_levels_of_hooks_nest_in_order() {
    let mut tokens = vec![ident("before_each"), code(&["b1"]), ident("after_each"), code(&["a1"])];
    tokens.extend(open_suite("two"));
    tokens.extend(vec![ident("given"), code(&["b2"]), ident("then"), code(&["a2"])]);
    tokens.extend(open_suite("three"));
    tokens.extend(vec![
        ident("after_each"),
        code(&["a3"]),
        ident("when"),
        text("deep"),
        code(&["body"]),
        ident("before_each"),
        code(&["b3"]),
        punct(Punct::CloseBrace),
        punct(Punct::CloseBrace),
    ]);
    let one = compile("one", tokens);
    let two = module(&module(&one).items[1]);
    let three = module(&two.items[1]);
    assert_eq!(two.name, "two");
    assert_eq!(three.name, "three");
    let deep = unit(&three.items[1]);
    assert_eq!(deep.body, strings(&["b1", "b2", "b3", "body", "a3", "a2", "a1"]));
}

#[test]
fn hook_declared_after_a_test_still_applies() {
    let tokens = vec![ident("it"), text("early"), code(&["t()"]), ident("before_each"), code(&["setup()"])];
    let m = compile("late_hook", tokens);
    assert_eq!(unit(&module(&m).items[1]).body, strings(&["setup()", "t()"]));
}

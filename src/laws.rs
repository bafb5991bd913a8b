use vstd::prelude::*;

use crate::bench::BenchModel;
use crate::describe::{BlockModel, SuiteModel, compiles_to};
use crate::generate::{
    Item, ItemModel, MarkerModel, block_item, blocks_items, bench_unit, hook, suite_module, test_unit,
};
use crate::parse::{
    ErrorKind, ParseError, blocks_from, err, lemma_suite_progress, next_block, suite_at, with_block,
};
use crate::test::{TestModel, failing_config};
use crate::token::{Block, Keyword, Punct, Token, keyword_of};

verus! {

/// The block reached from the suite `s` by `path`: each index but the last
/// picks a nested suite among the blocks, the last picks the block itself.
pub open spec fn block_on_path(s: SuiteModel, path: Seq<int>) -> Option<BlockModel>
    decreases path.len(),
{
    if path.len() == 0 || !(0 <= path[0] < s.subblocks.len()) {
        None
    } else if path.len() == 1 {
        Some(s.subblocks[path[0]])
    } else {
        match s.subblocks[path[0]] {
            BlockModel::Describe(c) => block_on_path(c, path.drop_first()),
            _ => None,
        }
    }
}

/// The `before_each` hooks of the suites that `path` passes through, from
/// the outermost in.
pub open spec fn befores_on_path(s: SuiteModel, path: Seq<int>) -> Seq<String>
    decreases path.len(),
{
    if path.len() > 1 && 0 <= path[0] < s.subblocks.len() && s.subblocks[path[0]] is Describe {
        hook(s.before_each) + befores_on_path(s.subblocks[path[0]]->Describe_0, path.drop_first())
    } else {
        hook(s.before_each)
    }
}

/// The `after_each` hooks of the suites that `path` passes through, from
/// the innermost out.
pub open spec fn afters_on_path(s: SuiteModel, path: Seq<int>) -> Seq<String>
    decreases path.len(),
{
    if path.len() > 1 && 0 <= path[0] < s.subblocks.len() && s.subblocks[path[0]] is Describe {
        afters_on_path(s.subblocks[path[0]]->Describe_0, path.drop_first()) + hook(s.after_each)
    } else {
        hook(s.after_each)
    }
}

/// The item reached from the module `m` by `path`, read as `block_on_path`
/// reads it: the index `i` picks the item made from block `i`, which follows
/// the module's leading `UseParent` item.
pub open spec fn item_on_path(m: ItemModel, path: Seq<int>) -> Option<ItemModel>
    decreases path.len(),
{
    match m {
        ItemModel::Module(_, items) => if path.len() == 0 || !(0 <= path[0] && path[0] + 1 < items.len()) {
            None
        } else if path.len() == 1 {
            Some(items[path[0] + 1])
        } else {
            item_on_path(items[path[0] + 1], path.drop_first())
        },
        _ => None,
    }
}

proof fn lemma_blocks_items_index(bs: Seq<BlockModel>, before: Seq<String>, after: Seq<String>)
    ensures
        blocks_items(bs, before, after).len() == bs.len(),
        forall|i: int| 0 <= i < bs.len() ==> #[trigger] blocks_items(bs, before, after)[i] == block_item(bs[i], before, after),
    decreases bs.len(),
{
    if bs.len() > 0 {
        lemma_blocks_items_index(bs.drop_last(), before, after);
    }
}

/// The item of the block on `path`, under the outer hooks `before` and `after`.
proof fn lemma_item_on_path(s: SuiteModel, path: Seq<int>, before: Seq<String>, after: Seq<String>)
    requires
        block_on_path(s, path) is Some,
    ensures
        match block_on_path(s, path)->0 {
            BlockModel::Test(t) => item_on_path(suite_module(s, before, after), path)
                == Some(ItemModel::Unit(test_unit(t, before + befores_on_path(s, path), afters_on_path(s, path) + after))),
            BlockModel::Bench(x) => item_on_path(suite_module(s, before, after), path) == Some(ItemModel::Unit(bench_unit(x))),
            BlockModel::Describe(_) => true,
        },
    decreases path.len(),
{
    let b = before + hook(s.before_each);
    let a = hook(s.after_each) + after;
    lemma_blocks_items_index(s.subblocks, b, a);
    let items = seq![ItemModel::UseParent] + blocks_items(s.subblocks, b, a);
    let i = path[0];
    assert(items[i + 1] == block_item(s.subblocks[i], b, a));
    if path.len() > 1 {
        let c = s.subblocks[i]->Describe_0;
        let rest = path.drop_first();
        lemma_item_on_path(c, rest, b, a);
        assert(b + befores_on_path(c, rest) =~= before + befores_on_path(s, path));
        assert(afters_on_path(c, rest) + a =~= afters_on_path(s, path) + after);
    }
}

/// Hook ordering: a test nested in suites with hooks at each level gets, as
/// its body, the `before_each` hooks from the outermost suite in, its own
/// statements, then the `after_each` hooks from the innermost suite out.
pub proof fn hook_ordering(s: SuiteModel, path: Seq<int>, t: TestModel)
    requires
        block_on_path(s, path) == Some(BlockModel::Test(t)),
    ensures
        item_on_path(suite_module(s, Seq::empty(), Seq::empty()), path) matches Some(ItemModel::Unit(u))
            && u.body == befores_on_path(s, path) + t.body + afters_on_path(s, path),
{
    lemma_item_on_path(s, path, Seq::empty(), Seq::empty());
    assert(Seq::<String>::empty() + befores_on_path(s, path) =~= befores_on_path(s, path));
    assert(afters_on_path(s, path) + Seq::<String>::empty() =~= afters_on_path(s, path));
}

/// Benchmark isolation: whatever hooks the enclosing suites declare, and
/// whatever hooks surround the whole tree, a benchmark's unit has exactly the
/// body it was declared with.
pub proof fn benchmark_isolation(s: SuiteModel, path: Seq<int>, x: BenchModel, before: Seq<String>, after: Seq<String>)
    requires
        block_on_path(s, path) == Some(BlockModel::Bench(x)),
    ensures
        item_on_path(suite_module(s, before, after), path) matches Some(ItemModel::Unit(u))
            && u.body == x.body && u.bencher == Some(x.param),
{
    lemma_item_on_path(s, path, before, after);
}

/// Determinism: compiling the same suite twice gives the same output, to the
/// last character, or the same error.
pub proof fn compilation_is_deterministic(
    name: Seq<char>,
    toks: Seq<Token>,
    r1: Result<Item, ParseError>,
    r2: Result<Item, ParseError>,
)
    requires
        compiles_to(r1, name, toks),
        compiles_to(r2, name, toks),
    ensures
        r1 is Ok <==> r2 is Ok,
        r1 is Ok ==> r1->Ok_0@ == r2->Ok_0@,
        r1 is Err ==> r1 == r2,
{
}


proof fn lemma_frame_suite(t1: Seq<Token>, t2: Seq<Token>, p: int, name: Option<Seq<char>>)
    requires
        0 <= p <= t1.len(),
        t1.len() == t2.len(),
        forall|j: int| p <= j < t1.len() ==> t1[j] == t2[j],
    ensures
        suite_at(t1, p, name) == suite_at(t2, p, name),
    decreases t1.len() - p, 2int,
{
    match name {
        Some(n) => lemma_frame_blocks(t1, t2, p, crate::parse::empty_suite(n)),
        None => {
            if p + 1 < t1.len() {
                lemma_frame_blocks(t1, t2, p + 2, crate::parse::empty_suite(crate::parse::ident_at(t1, p)->0));
            }
        },
    }
}

proof fn lemma_frame_blocks(t1: Seq<Token>, t2: Seq<Token>, p: int, acc: SuiteModel)
    requires
        0 <= p <= t1.len(),
        t1.len() == t2.len(),
        forall|j: int| p <= j < t1.len() ==> t1[j] == t2[j],
    ensures
        blocks_from(t1, p, acc) == blocks_from(t2, p, acc),
    decreases t1.len() - p, 1int,
{
    if p < t1.len() && !crate::parse::punct_at(t1, p, Punct::CloseBrace) {
        lemma_frame_next(t1, t2, p, acc);
        if let Ok((s, q)) = next_block(t1, p, acc) {
            if p < q <= t1.len() {
                lemma_frame_blocks(t1, t2, q, s);
            }
        }
    }
}

proof fn lemma_frame_next(t1: Seq<Token>, t2: Seq<Token>, p: int, acc: SuiteModel)
    requires
        0 <= p <= t1.len(),
        t1.len() == t2.len(),
        forall|j: int| p <= j < t1.len() ==> t1[j] == t2[j],
    ensures
        next_block(t1, p, acc) == next_block(t2, p, acc),
    decreases t1.len() - p, 0int,
{
    if p + 1 < t1.len() {
        lemma_frame_suite(t1, t2, p + 2, None);
        lemma_suite_progress(t1, p + 2, None);
    }
}

/// What each spelling of a keyword classifies as.
proof fn lemma_spellings()
    ensures
        keyword_of("before_each"@) == Some(Keyword::BeforeEach),
        keyword_of("given"@) == Some(Keyword::BeforeEach),
        keyword_of("after_each"@) == Some(Keyword::AfterEach),
        keyword_of("then"@) == Some(Keyword::AfterEach),
        keyword_of("it"@) == Some(Keyword::It),
        keyword_of("when"@) == Some(Keyword::It),
        keyword_of("failing"@) == Some(Keyword::Failing),
{
    reveal_strlit("before_each");
    reveal_strlit("given");
    reveal_strlit("after_each");
    reveal_strlit("then");
    reveal_strlit("it");
    reveal_strlit("when");
    reveal_strlit("failing");
    assert("before_each"@.len() == 11);
    assert("given"@.len() == 5);
    assert("after_each"@.len() == 10);
    assert("then"@.len() == 4 && "then"@[0] == 't');
    assert("it"@.len() == 2);
    assert("when"@.len() == 4 && "when"@[0] == 'w');
    assert("failing"@.len() == 7);
}

/// Whether `a` and `b` are the two spellings of one keyword.
pub open spec fn aliases(a: Seq<char>, b: Seq<char>) -> bool {
    ||| (a == "given"@ && b == "before_each"@)
    ||| (a == "then"@ && b == "after_each"@)
    ||| (a == "when"@ && b == "it"@)
}

/// Alias equivalence: `given` and `before_each`, `then` and `after_each`,
/// `when` and `it` are interchangeable. A block whose head is spelt one way
/// parses exactly as the same block spelt the other way, and so does
/// everything after it.
pub proof fn aliases_are_interchangeable(toks: Seq<Token>, p: int, acc: SuiteModel, a: String, b: String)
    requires
        0 <= p < toks.len(),
        toks[p] == Token::Ident(a),
        aliases(a@, b@) || aliases(b@, a@),
    ensures
        keyword_of(a@) == keyword_of(b@),
        next_block(toks, p, acc) == next_block(toks.update(p, Token::Ident(b)), p, acc),
        blocks_from(toks, p, acc) == blocks_from(toks.update(p, Token::Ident(b)), p, acc),
{
    lemma_spellings();
    let other = toks.update(p, Token::Ident(b));
    assert(keyword_of(a@) == keyword_of(b@));
    if p + 1 < toks.len() {
        lemma_frame_suite(toks, other, p + 2, None);
        lemma_suite_progress(toks, p + 2, None);
    }
    if let Ok((s, q)) = next_block(toks, p, acc) {
        if p < q <= toks.len() {
            lemma_frame_blocks(toks, other, q, s);
        }
    }
}

/// Duplicate hook rejection: a `before_each` (or `after_each`), under either
/// spelling, in a suite that already has one is an error at its head, and
/// reading the suite's blocks from there fails with that error.
pub proof fn duplicate_hook_rejected(toks: Seq<Token>, p: int, acc: SuiteModel, head: String)
    requires
        0 <= p < toks.len(),
        toks[p] == Token::Ident(head),
        (keyword_of(head@) == Some(Keyword::BeforeEach) && acc.before_each is Some)
            || (keyword_of(head@) == Some(Keyword::AfterEach) && acc.after_each is Some),
    ensures
        next_block(toks, p, acc) == Err::<(SuiteModel, int), ParseError>(err(ErrorKind::DuplicateHook, p)),
        blocks_from(toks, p, acc) == Err::<(SuiteModel, int), ParseError>(err(ErrorKind::DuplicateHook, p)),
{
}

/// Failure-message precision, with a message: `failing ( "X" ) "desc" { .. }`
/// reads as a failing test that carries `X`, and its unit, under any hooks,
/// expects a failure whose message contains `X`, and no other failure.
pub proof fn failure_message_expected(
    toks: Seq<Token>,
    p: int,
    acc: SuiteModel,
    msg: String,
    desc: String,
    body: Block,
    before: Seq<String>,
    after: Seq<String>,
)
    requires
        0 <= p && p + 5 < toks.len(),
        toks[p] matches Token::Ident(head) && head@ == "failing"@,
        toks[p + 1] == Token::Punct(Punct::OpenParen),
        toks[p + 2] == Token::Str(msg),
        toks[p + 3] == Token::Punct(Punct::CloseParen),
        toks[p + 4] == Token::Str(desc),
        toks[p + 5] == Token::Block(body),
    ensures
        ({
            let t = TestModel { description: desc@, body: body.stmts@, config: failing_config(Some(msg@)) };
            let ms = test_unit(t, before, after).markers;
            &&& next_block(toks, p, acc) == Ok::<(SuiteModel, int), ParseError>(
                (with_block(acc, BlockModel::Test(t)), p + 6),
            )
            &&& ms.contains(MarkerModel::ShouldPanicExpected(msg@))
            &&& !ms.contains(MarkerModel::ShouldPanic)
        }),
{
    lemma_spellings();
    let t = TestModel { description: desc@, body: body.stmts@, config: failing_config(Some(msg@)) };
    assert(test_unit(t, before, after).markers[2] == MarkerModel::ShouldPanicExpected(msg@));
}

/// Failure-message precision, without a message: `failing "desc" { .. }` reads
/// as a failing test with no message, and its unit, under any hooks, expects
/// any failure, with no constraint on the message.
pub proof fn failure_without_message(
    toks: Seq<Token>,
    p: int,
    acc: SuiteModel,
    desc: String,
    body: Block,
    before: Seq<String>,
    after: Seq<String>,
)
    requires
        0 <= p && p + 2 < toks.len(),
        toks[p] matches Token::Ident(head) && head@ == "failing"@,
        toks[p + 1] == Token::Str(desc),
        toks[p + 2] == Token::Block(body),
    ensures
        ({
            let t = TestModel { description: desc@, body: body.stmts@, config: failing_config(None) };
            let ms = test_unit(t, before, after).markers;
            &&& next_block(toks, p, acc) == Ok::<(SuiteModel, int), ParseError>(
                (with_block(acc, BlockModel::Test(t)), p + 3),
            )
            &&& ms.contains(MarkerModel::ShouldPanic)
            &&& forall|m: Seq<char>| !(#[trigger] ms.contains(MarkerModel::ShouldPanicExpected(m)))
        }),
{
    lemma_spellings();
    let t = TestModel { description: desc@, body: body.stmts@, config: failing_config(None) };
    assert(test_unit(t, before, after).markers[2] == MarkerModel::ShouldPanic);
}

} // verus!

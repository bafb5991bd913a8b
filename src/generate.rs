use vstd::prelude::*;

use crate::bench::{Bench, BenchModel};
use crate::describe::{
    BlockModel, DescribeState, SubBlock, SuiteModel, lemma_subblocks_view_push, stmts_of, subblocks_view,
};
use crate::test::{ConfigModel, Test, TestModel, text_of};
use crate::token::Block;

verus! {

/// How the harness is to treat a generated unit.
#[derive(Debug, PartialEq, Eq)]
pub enum Marker {
    /// Run as a test.
    Test,
    /// The unit's name may hold upper-case letters.
    AllowNonSnakeCase,
    /// Passes only if it fails.
    ShouldPanic,
    /// Passes only if it fails with a message that contains the text.
    ShouldPanicExpected(String),
    /// Not run by default.
    Ignore,
    /// Run as a benchmark.
    Bench,
}

/// What a `Marker` holds, as plain values.
pub enum MarkerModel {
    Test,
    AllowNonSnakeCase,
    ShouldPanic,
    ShouldPanicExpected(Seq<char>),
    Ignore,
    Bench,
}

impl View for Marker {
    type V = MarkerModel;

    open spec fn view(&self) -> MarkerModel {
        match self {
            Marker::Test => MarkerModel::Test,
            Marker::AllowNonSnakeCase => MarkerModel::AllowNonSnakeCase,
            Marker::ShouldPanic => MarkerModel::ShouldPanic,
            Marker::ShouldPanicExpected(m) => MarkerModel::ShouldPanicExpected(m@),
            Marker::Ignore => MarkerModel::Ignore,
            Marker::Bench => MarkerModel::Bench,
        }
    }
}

/// A generated test or benchmark: a function with no result.
#[derive(Debug, PartialEq, Eq)]
pub struct UnitFn {
    pub name: String,
    /// For a benchmark, the name of its one parameter, the harness's argument.
    pub bencher: Option<String>,
    pub body: Vec<String>,
    pub markers: Vec<Marker>,
}

/// What a `UnitFn` holds, as plain values.
pub struct UnitModel {
    pub name: Seq<char>,
    pub bencher: Option<Seq<char>>,
    pub body: Seq<String>,
    pub markers: Seq<MarkerModel>,
}

/// The plain values of a sequence of markers, one for one.
pub open spec fn markers_view(s: Seq<Marker>) -> Seq<MarkerModel> {
    s.map_values(|m: Marker| m@)
}

impl View for UnitFn {
    type V = UnitModel;

    open spec fn view(&self) -> UnitModel {
        UnitModel {
            name: self.name@,
            bencher: text_of(self.bencher),
            body: self.body@,
            markers: markers_view(self.markers@),
        }
    }
}

/// A generated module, mirroring one suite.
#[derive(Debug, PartialEq, Eq)]
pub struct Module {
    pub name: String,
    pub items: Vec<Item>,
}

/// An item of a generated module.
#[derive(Debug, PartialEq, Eq)]
pub enum Item {
    /// Makes everything visible in the enclosing module visible here too.
    UseParent,
    Unit(UnitFn),
    Module(Module),
}

/// What an `Item` holds, as plain values.
pub enum ItemModel {
    UseParent,
    Unit(UnitModel),
    Module(Seq<char>, Seq<ItemModel>),
}

/// The plain values of an item, nested modules included.
pub open spec fn item_view(i: Item) -> ItemModel
    decreases i,
{
    match i {
        Item::UseParent => ItemModel::UseParent,
        Item::Unit(u) => ItemModel::Unit(u@),
        Item::Module(m) => {
            proof {
                assert(decreases_to!(m.items => m.items@));
            }
            ItemModel::Module(m.name@, items_view(m.items@))
        },
    }
}

/// The plain values of a sequence of items, one for one.
pub open spec fn items_view(s: Seq<Item>) -> Seq<ItemModel>
    decreases s,
{
    if s.len() == 0 {
        Seq::empty()
    } else {
        items_view(s.drop_last()).push(item_view(s.last()))
    }
}

impl View for Item {
    type V = ItemModel;

    open spec fn view(&self) -> ItemModel {
        item_view(*self)
    }
}

/// Adding an item adds its plain values at the end.
pub proof fn lemma_items_view_push(s: Seq<Item>, i: Item)
    ensures
        items_view(s.push(i)) == items_view(s).push(item_view(i)),
{
    assert(s.push(i).drop_last() =~= s);
}


/// The statements of an optional hook; none where it is absent.
pub open spec fn hook(h: Option<Seq<String>>) -> Seq<String> {
    match h {
        Some(s) => s,
        None => Seq::empty(),
    }
}

/// A unit's name: the description with each space made an underscore, and
/// nothing else changed.
pub open spec fn sanitized(d: Seq<char>) -> Seq<char> {
    d.map_values(|c: char| if c == ' ' { '_' } else { c })
}

/// The markers of a test unit: always run-as-test, then the expected failure
/// (with its message, if one was given), then not-run-by-default.
pub open spec fn test_markers(c: ConfigModel) -> Seq<MarkerModel> {
    let failing = if !c.failing {
        Seq::empty()
    } else {
        match c.failing_msg {
            Some(m) => seq![MarkerModel::ShouldPanicExpected(m)],
            None => seq![MarkerModel::ShouldPanic],
        }
    };
    let ignored = if c.ignored { seq![MarkerModel::Ignore] } else { Seq::empty() };
    seq![MarkerModel::Test, MarkerModel::AllowNonSnakeCase] + failing + ignored
}

/// The unit of a test under the effective hooks `before` and `after`: its body
/// is `before`, then its own statements, then `after`.
pub open spec fn test_unit(t: TestModel, before: Seq<String>, after: Seq<String>) -> UnitModel {
    UnitModel {
        name: sanitized(t.description),
        bencher: None,
        body: before + t.body + after,
        markers: test_markers(t.config),
    }
}

/// The unit of a benchmark, which no hook reaches.
pub open spec fn bench_unit(b: BenchModel) -> UnitModel {
    UnitModel {
        name: sanitized(b.description),
        bencher: Some(b.param),
        body: b.body,
        markers: seq![MarkerModel::Bench],
    }
}

/// The module of a suite whose enclosing suites have the effective hooks
/// `before` and `after`. Its own `before_each` runs after theirs, its own
/// `after_each` before theirs.
pub open spec fn suite_module(s: SuiteModel, before: Seq<String>, after: Seq<String>) -> ItemModel
    decreases s,
{
    let b = before + hook(s.before_each);
    let a = hook(s.after_each) + after;
    ItemModel::Module(s.name, seq![ItemModel::UseParent] + blocks_items(s.subblocks, b, a))
}

/// The items of a sequence of blocks under the same effective hooks, one for one.
pub open spec fn blocks_items(bs: Seq<BlockModel>, before: Seq<String>, after: Seq<String>) -> Seq<ItemModel>
    decreases bs,
{
    if bs.len() == 0 {
        Seq::empty()
    } else {
        blocks_items(bs.drop_last(), before, after).push(block_item(bs.last(), before, after))
    }
}

/// The item of one block under the effective hooks `before` and `after`.
pub open spec fn block_item(b: BlockModel, before: Seq<String>, after: Seq<String>) -> ItemModel
    decreases b,
{
    match b {
        BlockModel::Test(t) => ItemModel::Unit(test_unit(t, before, after)),
        BlockModel::Bench(x) => ItemModel::Unit(bench_unit(x)),
        BlockModel::Describe(s) => suite_module(s, before, after),
    }
}

/// Something that can be turned into an item, given a configuration.
pub trait Generate<Cfg>: Sized {
    /// The item that `self` becomes under `cfg`.
    spec fn generated(&self, cfg: Cfg) -> ItemModel;

    fn generate(self, cfg: Cfg) -> (r: Item)
        ensures
            r@ == self.generated(cfg),
    ;
}

/// A unit's name from its description: each space made an underscore.
pub fn sanitize(description: &str) -> (r: String)
    ensures
        r@ == sanitized(description@),
{
    let n = description.unicode_len();
    let mut out = String::new();
    let mut i: usize = 0;
    while i < n
        invariant
            n == description@.len(),
            i <= n,
            out@ == sanitized(description@).take(i as int),
        decreases n - i,
    {
        let ghost before = out@;
        if description.get_char(i) == ' ' {
            proof {
                reveal_strlit("_");
            }
            out.append("_");
            assert(out@ =~= before.push('_'));
        } else {
            let c = description.substring_char(i, i + 1);
            out.append(c);
            assert(out@ =~= before.push(description@[i as int]));
        }
        assert(sanitized(description@).take(i + 1) =~= sanitized(description@).take(i as int).push(
            sanitized(description@)[i as int],
        ));
        i = i + 1;
    }
    assert(sanitized(description@).take(n as int) =~= sanitized(description@));
    out
}

/// Appends copies of `src`'s statements to `dst`.
fn extend_cloned(dst: &mut Vec<String>, src: &Vec<String>)
    ensures
        final(dst)@ == old(dst)@ + src@,
{
    let ghost start = dst@;
    let mut i: usize = 0;
    while i < src.len()
        invariant
            i <= src.len(),
            dst@ == start + src@.take(i as int),
        decreases src.len() - i,
    {
        dst.push(src[i].clone());
        assert(src@.take(i + 1) =~= src@.take(i as int).push(src@[i as int]));
        i = i + 1;
    }
    assert(src@.take(src.len() as int) =~= src@);
}


/// The statements of `first`, then those of `second`, as one hook; none if
/// neither is there.
fn join(first: Option<Block>, second: Option<Block>) -> (r: Option<Block>)
    ensures
        hook(stmts_of(r)) == hook(stmts_of(first)) + hook(stmts_of(second)),
{
    match (first, second) {
        (None, second) => {
            assert(hook(stmts_of(second)) =~= Seq::<String>::empty() + hook(stmts_of(second)));
            second
        },
        (Some(first), None) => {
            assert(first.stmts@ =~= first.stmts@ + Seq::<String>::empty());
            Some(first)
        },
        (Some(first), Some(second)) => {
            let mut stmts = first.stmts;
            let mut rest = second.stmts;
            stmts.append(&mut rest);
            Some(Block { stmts })
        },
    }
}

/// A copy of an optional hook.
fn copy_hook(h: &Option<Block>) -> (r: Option<Block>)
    ensures
        stmts_of(r) == stmts_of(*h),
{
    match h {
        Some(b) => Some(b.duplicate()),
        None => None,
    }
}

/// The effective `before_each` that a parent suite hands down.
pub open spec fn parent_before(parent: Option<&DescribeState>) -> Seq<String> {
    match parent {
        Some(p) => hook(p@.before_each),
        None => Seq::empty(),
    }
}

/// The effective `after_each` that a parent suite hands down.
pub open spec fn parent_after(parent: Option<&DescribeState>) -> Seq<String> {
    match parent {
        Some(p) => hook(p@.after_each),
        None => Seq::empty(),
    }
}

impl<'a> Generate<&'a DescribeState> for Test {
    /// `state` holds the effective hooks of the enclosing suite.
    open spec fn generated(&self, state: &'a DescribeState) -> ItemModel {
        ItemModel::Unit(test_unit(self@, hook(state@.before_each), hook(state@.after_each)))
    }

    fn generate(self, state: &'a DescribeState) -> (r: Item) {
        let ghost model = self@;
        let Test { description, block, test_config } = self;
        let mut body: Vec<String> = Vec::new();
        match &state.before_each {
            Some(b) => extend_cloned(&mut body, &b.stmts),
            None => {},
        }
        let mut own = block.stmts;
        body.append(&mut own);
        match &state.after_each {
            Some(a) => extend_cloned(&mut body, &a.stmts),
            None => {},
        }
        assert(body@ =~= hook(state@.before_each) + model.body + hook(state@.after_each));
        let mut markers: Vec<Marker> = Vec::new();
        markers.push(Marker::Test);
        markers.push(Marker::AllowNonSnakeCase);
        let ghost config = test_config@;
        if test_config.failing {
            match test_config.failing_msg {
                Some(msg) => markers.push(Marker::ShouldPanicExpected(msg)),
                None => markers.push(Marker::ShouldPanic),
            }
        }
        if test_config.ignored {
            markers.push(Marker::Ignore);
        }
        assert(markers_view(markers@) =~= test_markers(config));
        let name = sanitize(description.as_str());
        Item::Unit(UnitFn { name, bencher: None, body, markers })
    }
}

impl Generate<()> for Bench {
    open spec fn generated(&self, cfg: ()) -> ItemModel {
        ItemModel::Unit(bench_unit(self@))
    }

    fn generate(self, cfg: ()) -> (r: Item) {
        let Bench { bench, description, block } = self;
        let mut markers: Vec<Marker> = Vec::new();
        markers.push(Marker::Bench);
        assert(markers_view(markers@) =~= seq![MarkerModel::Bench]);
        let name = sanitize(description.as_str());
        Item::Unit(UnitFn { name, bencher: Some(bench), body: block.stmts, markers })
    }
}

/// The item of one block, under the effective hooks held by `state`.
fn generate_block(b: SubBlock, state: &DescribeState) -> (r: Item)
    ensures
        r@ == block_item(b@, hook(state@.before_each), hook(state@.after_each)),
    decreases b,
{
    match b {
        SubBlock::Test(t) => t.generate(state),
        SubBlock::Bench(x) => x.generate(()),
        SubBlock::Describe(d) => generate_suite(d, Some(state)),
    }
}

/// The module of a suite, under the effective hooks of its parent, if any.
fn generate_suite(d: DescribeState, parent: Option<&DescribeState>) -> (r: Item)
    ensures
        r@ == suite_module(d@, parent_before(parent), parent_after(parent)),
    decreases d,
{
    let ghost whole = d;
    let ghost model = d@;
    let DescribeState { name, before_each, after_each, subblocks } = d;
    let (before_each, after_each) = match parent {
        Some(p) => (join(copy_hook(&p.before_each), before_each), join(after_each, copy_hook(&p.after_each))),
        None => {
            assert(hook(stmts_of(before_each)) =~= Seq::<String>::empty() + hook(stmts_of(before_each)));
            assert(hook(stmts_of(after_each)) =~= hook(stmts_of(after_each)) + Seq::<String>::empty());
            (before_each, after_each)
        },
    };
    let ghost b = parent_before(parent) + hook(model.before_each);
    let ghost a = hook(model.after_each) + parent_after(parent);
    let state = DescribeState { name: name.clone(), before_each, after_each, subblocks: Vec::new() };
    assert(hook(state@.before_each) == b);
    assert(hook(state@.after_each) == a);
    let mut items: Vec<Item> = Vec::new();
    proof {
        lemma_items_view_push(items@, Item::UseParent);
    }
    items.push(Item::UseParent);
    let ghost all = whole.subblocks@;
    let mut rest = subblocks;
    let ghost mut k: int = 0;
    assert(rest@ == all.subrange(0, all.len() as int));
    assert(all.take(0) =~= Seq::<SubBlock>::empty());
    assert(items_view(items@) =~= seq![ItemModel::UseParent] + blocks_items(subblocks_view(all.take(0)), b, a));
    while rest.len() > 0
        invariant
            all == whole.subblocks@,
            whole == d,
            0 <= k <= all.len(),
            rest@ == all.subrange(k, all.len() as int),
            hook(state@.before_each) == b,
            hook(state@.after_each) == a,
            items_view(items@) == seq![ItemModel::UseParent] + blocks_items(subblocks_view(all.take(k)), b, a),
        decreases rest.len(),
    {
        let sub = rest.remove(0);
        assert(sub == all[k]);
        proof {
            assert(decreases_to!(whole.subblocks => whole.subblocks@));
            assert(decreases_to!(whole => all[k]));
        }
        let item = generate_block(sub, &state);
        proof {
            lemma_items_view_push(items@, item);
            assert(all.take(k + 1) =~= all.take(k).push(sub));
            lemma_subblocks_view_push(all.take(k), sub);
            let bs = subblocks_view(all.take(k + 1));
            assert(bs.drop_last() =~= subblocks_view(all.take(k)));
        }
        items.push(item);
        proof {
            k = k + 1;
        }
        assert(rest@ =~= all.subrange(k, all.len() as int));
    }
    assert(all.take(k) =~= all);
    Item::Module(Module { name, items })
}

impl<'a> Generate<&'a DescribeState> for SubBlock {
    /// `state` holds the effective hooks of the enclosing suite.
    open spec fn generated(&self, state: &'a DescribeState) -> ItemModel {
        block_item(self@, hook(state@.before_each), hook(state@.after_each))
    }

    fn generate(self, state: &'a DescribeState) -> (r: Item) {
        generate_block(self, state)
    }
}

impl<'a> Generate<Option<&'a DescribeState>> for DescribeState {
    /// `parent`, where there is one, holds the effective hooks of the
    /// enclosing suite.
    open spec fn generated(&self, parent: Option<&'a DescribeState>) -> ItemModel {
        suite_module(self@, parent_before(parent), parent_after(parent))
    }

    fn generate(self, parent: Option<&'a DescribeState>) -> (r: Item) {
        generate_suite(self, parent)
    }
}

} // verus!

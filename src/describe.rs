use vstd::prelude::*;

use crate::bench::{Bench, BenchModel};
use crate::generate::{Generate, Item, ItemModel, suite_module};
use crate::parse::{ErrorKind, Parse, ParseError, Parser, err, suite_at};
use crate::test::{Test, TestModel};
use crate::token::{Block, Token};

verus! {

/// A suite: its name, its hooks and its blocks in the order written.
#[derive(Debug, PartialEq, Eq)]
pub struct DescribeState {
    pub name: String,
    pub before_each: Option<Block>,
    pub after_each: Option<Block>,
    pub subblocks: Vec<SubBlock>,
}

/// Any block of a suite other than a hook.
#[derive(Debug, PartialEq, Eq)]
pub enum SubBlock {
    Test(Test),
    Bench(Bench),
    Describe(DescribeState),
}

/// What a suite holds, as plain values.
pub struct SuiteModel {
    pub name: Seq<char>,
    pub before_each: Option<Seq<String>>,
    pub after_each: Option<Seq<String>>,
    pub subblocks: Seq<BlockModel>,
}

/// What a block holds, as plain values.
pub enum BlockModel {
    Test(TestModel),
    Bench(BenchModel),
    Describe(SuiteModel),
}

/// The statements of an optional block.
pub open spec fn stmts_of(b: Option<Block>) -> Option<Seq<String>> {
    match b {
        Some(b) => Some(b.stmts@),
        None => None,
    }
}

/// The plain values of a suite, nested suites included.
pub open spec fn suite_view(d: DescribeState) -> SuiteModel
    decreases d,
{
    proof {
        assert(decreases_to!(d.subblocks => d.subblocks@));
    }
    SuiteModel {
        name: d.name@,
        before_each: stmts_of(d.before_each),
        after_each: stmts_of(d.after_each),
        subblocks: subblocks_view(d.subblocks@),
    }
}

/// The plain values of a sequence of blocks, one for one.
pub open spec fn subblocks_view(s: Seq<SubBlock>) -> Seq<BlockModel>
    decreases s,
{
    if s.len() == 0 {
        Seq::empty()
    } else {
        subblocks_view(s.drop_last()).push(subblock_view(s.last()))
    }
}

/// The plain values of a block.
pub open spec fn subblock_view(b: SubBlock) -> BlockModel
    decreases b,
{
    match b {
        SubBlock::Test(t) => BlockModel::Test(t@),
        SubBlock::Bench(b) => BlockModel::Bench(b@),
        SubBlock::Describe(d) => BlockModel::Describe(suite_view(d)),
    }
}

/// Adding a block adds its plain values at the end.
pub proof fn lemma_subblocks_view_push(s: Seq<SubBlock>, b: SubBlock)
    ensures
        subblocks_view(s.push(b)) == subblocks_view(s).push(subblock_view(b)),
{
    assert(s.push(b).drop_last() =~= s);
}

impl View for DescribeState {
    type V = SuiteModel;

    open spec fn view(&self) -> SuiteModel {
        suite_view(*self)
    }
}

impl View for SubBlock {
    type V = BlockModel;

    open spec fn view(&self) -> BlockModel {
        subblock_view(*self)
    }
}


/// What a top-level suite named `name` with the tokens `toks` compiles to: its
/// module, or the first error. The tokens are the suite's blocks alone, so a
/// closing brace left over after them is an error.
pub open spec fn compiled(name: Seq<char>, toks: Seq<Token>) -> Result<ItemModel, ParseError> {
    match suite_at(toks, 0, Some(name)) {
        Err(e) => Err(e),
        Ok((s, q)) => if q < toks.len() {
            Err(err(ErrorKind::Syntax, q))
        } else {
            Ok(suite_module(s, Seq::empty(), Seq::empty()))
        },
    }
}

/// Whether `r` is what the suite named `name` with the tokens `toks` compiles to.
pub open spec fn compiles_to(r: Result<Item, ParseError>, name: Seq<char>, toks: Seq<Token>) -> bool {
    match compiled(name, toks) {
        Ok(m) => r is Ok && r->Ok_0@ == m,
        Err(e) => r == Err::<Item, ParseError>(e),
    }
}

/// Compiles a top-level suite: parses its blocks, then generates its module.
/// Nothing is generated if any error is found.
pub fn describe(name: String, tokens: Vec<Token>) -> (r: Result<Item, ParseError>)
    ensures
        compiles_to(r, name@, tokens@),
{
    let mut parser = Parser::new(tokens);
    let state = match DescribeState::parse(&mut parser, Some(name)) {
        Ok(s) => s,
        Err(e) => return Err(e),
    };
    if parser.pos < parser.tokens.len() {
        return Err(parser.error(ErrorKind::Syntax));
    }
    Ok(state.generate(None))
}

} // verus!

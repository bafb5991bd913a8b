use vstd::prelude::*;

use crate::token::Block;

verus! {

/// A benchmark: its description, its body, and the name that the body uses
/// for the benchmark harness's argument.
#[derive(Debug, PartialEq, Eq)]
pub struct Bench {
    pub bench: String,
    pub description: String,
    pub block: Block,
}

/// What a `Bench` holds, as plain values.
pub struct BenchModel {
    pub description: Seq<char>,
    pub param: Seq<char>,
    pub body: Seq<String>,
}

impl View for Bench {
    type V = BenchModel;

    open spec fn view(&self) -> BenchModel {
        BenchModel { description: self.description@, param: self.bench@, body: self.block.stmts@ }
    }
}

} // verus!

//! A compiler for a nested, hook-aware test-suite language.
//!
//! A suite is read from the tokens of its body (`parse`) into a tree of
//! hooks, tests, benchmarks and nested suites (`describe`), and the tree is
//! expanded (`generate`) into a tree of modules that hold independently
//! runnable units, each test with the hooks of its enclosing suites spliced
//! around its body. `laws` states and proves what holds of every compilation.

pub mod bench;
pub mod describe;
pub mod generate;
pub mod laws;
pub mod parse;
pub mod token;

pub use bench::{Bench, BenchModel};
pub use describe::{BlockModel, DescribeState, SubBlock, SuiteModel, describe};
pub use generate::{Generate, Item, ItemModel, Marker, MarkerModel, Module, UnitFn, UnitModel, sanitize};
pub use parse::{ErrorKind, Parse, ParseError, Parser};
pub use test::{ConfigModel, Test, TestConfig, TestModel};
pub use token::{Block, Keyword, Punct, Token, keyword};

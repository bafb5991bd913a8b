use vstd::prelude::*;

use crate::bench::{Bench, BenchModel};
use crate::describe::{
    BlockModel, DescribeState, SubBlock, SuiteModel, lemma_subblocks_view_push, stmts_of,
};
use crate::test::{
    ConfigModel, Test, TestConfig, TestModel, failing_config, ignored_config, plain_config, text_of,
};
use crate::token::{Block, Keyword, Punct, Token, keyword, keyword_of};

verus! {

/// The kinds of structural error; each one ends the whole compilation.
#[derive(Clone, Copy, PartialEq, Eq, Structural, Debug)]
pub enum ErrorKind {
    /// A token that no rule accepts where it stands.
    Syntax,
    /// A second `before_each` or `after_each` in one suite.
    DuplicateHook,
    /// A block head that is no keyword.
    UnknownBlockKeyword,
    /// A benchmark whose argument is not `( identifier )`.
    MalformedBenchSignature,
    /// A nested suite without its closing brace.
    UnterminatedSuite,
    /// A test or benchmark without its description.
    MissingDescription,
}

/// A structural error, with the index of the offending token (the number of
/// tokens where input ran out).
#[derive(Clone, Copy, PartialEq, Eq, Structural, Debug)]
pub struct ParseError {
    pub kind: ErrorKind,
    pub pos: usize,
}

/// The error `kind` at the token `p`.
pub open spec fn err(kind: ErrorKind, p: int) -> ParseError {
    ParseError { kind, pos: p as usize }
}

/// A cursor over the token stream.
#[derive(Debug)]
pub struct Parser {
    pub tokens: Vec<Token>,
    pub pos: usize,
}

/// The word of the token at `p`, if it is an identifier.
pub open spec fn ident_at(toks: Seq<Token>, p: int) -> Option<Seq<char>> {
    if 0 <= p < toks.len() {
        match toks[p] {
            Token::Ident(s) => Some(s@),
            _ => None,
        }
    } else {
        None
    }
}

/// The text of the token at `p`, if it is a string literal.
pub open spec fn str_at(toks: Seq<Token>, p: int) -> Option<Seq<char>> {
    if 0 <= p < toks.len() {
        match toks[p] {
            Token::Str(s) => Some(s@),
            _ => None,
        }
    } else {
        None
    }
}

/// The statements of the token at `p`, if it is a code fragment.
pub open spec fn block_at(toks: Seq<Token>, p: int) -> Option<Seq<String>> {
    if 0 <= p < toks.len() {
        match toks[p] {
            Token::Block(b) => Some(b.stmts@),
            _ => None,
        }
    } else {
        None
    }
}

/// Whether the token at `p` is the punctuation `q`.
pub open spec fn punct_at(toks: Seq<Token>, p: int, q: Punct) -> bool {
    0 <= p < toks.len() && toks[p] == Token::Punct(q)
}

/// A test at `p`: its description, then its body.
pub open spec fn test_at(toks: Seq<Token>, p: int, config: ConfigModel) -> Result<TestModel, ParseError> {
    match str_at(toks, p) {
        None => Err(err(ErrorKind::MissingDescription, p)),
        Some(d) => match block_at(toks, p + 1) {
            None => Err(err(ErrorKind::Syntax, p + 1)),
            Some(b) => Ok(TestModel { description: d, body: b, config }),
        },
    }
}

/// A benchmark at `p`: its description, `( identifier )`, then its body.
pub open spec fn bench_at(toks: Seq<Token>, p: int) -> Result<BenchModel, ParseError> {
    match str_at(toks, p) {
        None => Err(err(ErrorKind::MissingDescription, p)),
        Some(d) => if punct_at(toks, p + 1, Punct::OpenParen) && ident_at(toks, p + 2) is Some
            && punct_at(toks, p + 3, Punct::CloseParen) {
            match block_at(toks, p + 4) {
                None => Err(err(ErrorKind::Syntax, p + 4)),
                Some(b) => Ok(BenchModel { description: d, param: ident_at(toks, p + 2)->0, body: b }),
            }
        } else {
            Err(err(ErrorKind::MalformedBenchSignature, p + 1))
        },
    }
}

/// A suite with a name and nothing else yet.
pub open spec fn empty_suite(name: Seq<char>) -> SuiteModel {
    SuiteModel { name, before_each: None, after_each: None, subblocks: Seq::empty() }
}

/// A suite at `p`. A nested suite (`name` is `None`) starts with its name and
/// an opening brace; one named by the caller starts with its first block.
/// The result stops at the closing brace that ends the suite, or at the end.
pub open spec fn suite_at(toks: Seq<Token>, p: int, name: Option<Seq<char>>) -> Result<(SuiteModel, int), ParseError>
    decreases toks.len() - p, 2int,
{
    match name {
        Some(n) => blocks_from(toks, p, empty_suite(n)),
        None => match ident_at(toks, p) {
            None => Err(err(ErrorKind::Syntax, p)),
            Some(n) => if punct_at(toks, p + 1, Punct::OpenBrace) {
                blocks_from(toks, p + 2, empty_suite(n))
            } else {
                Err(err(ErrorKind::Syntax, p + 1))
            },
        },
    }
}

/// `acc` with one more block.
pub open spec fn with_block(acc: SuiteModel, b: BlockModel) -> SuiteModel {
    SuiteModel { subblocks: acc.subblocks.push(b), ..acc }
}

/// The rest of a test block at `p` (its head stands before `p`), added to `acc`.
pub open spec fn test_step(toks: Seq<Token>, p: int, acc: SuiteModel, config: ConfigModel) -> Result<(SuiteModel, int), ParseError> {
    match test_at(toks, p, config) {
        Err(e) => Err(e),
        Ok(t) => Ok((with_block(acc, BlockModel::Test(t)), p + 2)),
    }
}

/// The block at `p`, added to the suite `acc`, and the position after it.
pub open spec fn next_block(toks: Seq<Token>, p: int, acc: SuiteModel) -> Result<(SuiteModel, int), ParseError>
    decreases toks.len() - p, 0int,
{
    match ident_at(toks, p) {
        None => Err(err(ErrorKind::Syntax, p)),
        Some(head) => match keyword_of(head) {
            None => Err(err(ErrorKind::UnknownBlockKeyword, p)),
            Some(Keyword::BeforeEach) => if acc.before_each is Some {
                Err(err(ErrorKind::DuplicateHook, p))
            } else {
                match block_at(toks, p + 1) {
                    None => Err(err(ErrorKind::Syntax, p + 1)),
                    Some(b) => Ok((SuiteModel { before_each: Some(b), ..acc }, p + 2)),
                }
            },
            Some(Keyword::AfterEach) => if acc.after_each is Some {
                Err(err(ErrorKind::DuplicateHook, p))
            } else {
                match block_at(toks, p + 1) {
                    None => Err(err(ErrorKind::Syntax, p + 1)),
                    Some(b) => Ok((SuiteModel { after_each: Some(b), ..acc }, p + 2)),
                }
            },
            Some(Keyword::Describe) => if !punct_at(toks, p + 1, Punct::Not) {
                Err(err(ErrorKind::Syntax, p + 1))
            } else {
                match suite_at(toks, p + 2, None) {
                    Err(e) => Err(e),
                    Ok((s, q)) => if punct_at(toks, q, Punct::CloseBrace) {
                        Ok((with_block(acc, BlockModel::Describe(s)), q + 1))
                    } else {
                        Err(err(ErrorKind::UnterminatedSuite, q))
                    },
                }
            },
            Some(Keyword::Bench) => match bench_at(toks, p + 1) {
                Err(e) => Err(e),
                Ok(b) => Ok((with_block(acc, BlockModel::Bench(b)), p + 6)),
            },
            Some(Keyword::It) => test_step(toks, p + 1, acc, plain_config()),
            Some(Keyword::Ignore) => test_step(toks, p + 1, acc, ignored_config()),
            Some(Keyword::Failing) => if punct_at(toks, p + 1, Punct::OpenParen) {
                match str_at(toks, p + 2) {
                    None => Err(err(ErrorKind::Syntax, p + 2)),
                    Some(m) => if punct_at(toks, p + 3, Punct::CloseParen) {
                        test_step(toks, p + 4, acc, failing_config(Some(m)))
                    } else {
                        Err(err(ErrorKind::Syntax, p + 3))
                    },
                }
            } else {
                test_step(toks, p + 1, acc, failing_config(None))
            },
        },
    }
}

/// The blocks from `p` on, added to the suite `acc`, up to the closing brace
/// that ends the suite or the end of input.
pub open spec fn blocks_from(toks: Seq<Token>, p: int, acc: SuiteModel) -> Result<(SuiteModel, int), ParseError>
    decreases toks.len() - p, 1int,
{
    if p >= toks.len() || punct_at(toks, p, Punct::CloseBrace) {
        Ok((acc, p))
    } else {
        match next_block(toks, p, acc) {
            Err(e) => Err(e),
            // Every block takes at least one token (`lemma_block_progress`);
            // the bound on `q` is what lets this definition terminate.
            Ok((s, q)) => if p < q <= toks.len() {
                blocks_from(toks, q, s)
            } else {
                Err(err(ErrorKind::Syntax, q))
            },
        }
    }
}

/// A suite ends at or after where it begins, and within the tokens.
pub proof fn lemma_suite_progress(toks: Seq<Token>, p: int, name: Option<Seq<char>>)
    requires
        0 <= p <= toks.len(),
    ensures
        suite_at(toks, p, name) matches Ok((_, q)) ==> p <= q <= toks.len(),
    decreases toks.len() - p, 2int,
{
    match name {
        Some(n) => lemma_blocks_progress(toks, p, empty_suite(n)),
        None => {
            if p + 1 < toks.len() {
                lemma_blocks_progress(toks, p + 2, empty_suite(ident_at(toks, p)->0));
            }
        },
    }
}

/// The blocks of a suite end at or after where they begin, and within the tokens.
pub proof fn lemma_blocks_progress(toks: Seq<Token>, p: int, acc: SuiteModel)
    requires
        0 <= p <= toks.len(),
    ensures
        blocks_from(toks, p, acc) matches Ok((_, q)) ==> p <= q <= toks.len(),
    decreases toks.len() - p, 1int,
{
    if p < toks.len() && !punct_at(toks, p, Punct::CloseBrace) {
        if let Ok((s, q)) = next_block(toks, p, acc) {
            if p < q <= toks.len() {
                lemma_blocks_progress(toks, q, s);
            }
        }
    }
}

/// A block takes at least one token, and no more than there are.
pub proof fn lemma_block_progress(toks: Seq<Token>, p: int, acc: SuiteModel)
    requires
        0 <= p < toks.len(),
    ensures
        next_block(toks, p, acc) matches Ok((_, q)) ==> p < q <= toks.len(),
    decreases toks.len() - p, 0int,
{
    if p + 1 < toks.len() {
        lemma_suite_progress(toks, p + 2, None);
    }
}

/// A parse outcome against what the grammar gives: on success the value's
/// model and the position after it, on failure the same error.
pub open spec fn parsed<T: View>(r: Result<T, ParseError>, s: Result<(T::V, int), ParseError>, end: int) -> bool {
    match s {
        Ok((v, q)) => r is Ok && r->Ok_0@ == v && end == q,
        Err(e) => r == Err::<T, ParseError>(e),
    }
}

/// Something that can be read from a parser, given a configuration.
pub trait Parse<Cfg>: Sized + View {
    /// What the grammar gives for the tokens `toks` from `p` on.
    spec fn parse_spec(toks: Seq<Token>, p: int, cfg: Cfg) -> Result<(Self::V, int), ParseError>;

    /// Reads `Self` from the parser's position on.
    fn parse(parser: &mut Parser, cfg: Cfg) -> (r: Result<Self, ParseError>)
        requires
            old(parser).pos <= old(parser).tokens.len(),
        ensures
            final(parser).tokens@ == old(parser).tokens@,
            old(parser).pos <= final(parser).pos <= final(parser).tokens.len(),
            parsed(r, Self::parse_spec(old(parser).tokens@, old(parser).pos as int, cfg), final(parser).pos as int),
    ;
}

impl Parser {
    /// A parser at the first of `tokens`.
    pub fn new(tokens: Vec<Token>) -> (r: Parser)
        ensures
            r.tokens@ == tokens@,
            r.pos == 0,
    {
        Parser { tokens, pos: 0 }
    }

    /// Whether the current token is the punctuation `q`.
    pub fn is_punct(&self, q: Punct) -> (r: bool)
        ensures
            r == punct_at(self.tokens@, self.pos as int, q),
    {
        if self.pos < self.tokens.len() {
            match &self.tokens[self.pos] {
                Token::Punct(t) => *t == q,
                _ => false,
            }
        } else {
            false
        }
    }

    /// The current token, if it is an identifier.
    pub fn ident(&self) -> (r: Option<String>)
        ensures
            text_of(r) == ident_at(self.tokens@, self.pos as int),
    {
        if self.pos < self.tokens.len() {
            match &self.tokens[self.pos] {
                Token::Ident(s) => Some(s.clone()),
                _ => None,
            }
        } else {
            None
        }
    }

    /// The current token, if it is a string literal.
    pub fn string(&self) -> (r: Option<String>)
        ensures
            text_of(r) == str_at(self.tokens@, self.pos as int),
    {
        if self.pos < self.tokens.len() {
            match &self.tokens[self.pos] {
                Token::Str(s) => Some(s.clone()),
                _ => None,
            }
        } else {
            None
        }
    }

    /// The current token, if it is a code fragment.
    pub fn block(&self) -> (r: Option<Block>)
        ensures
            stmts_of(r) == block_at(self.tokens@, self.pos as int),
    {
        if self.pos < self.tokens.len() {
            match &self.tokens[self.pos] {
                Token::Block(b) => Some(b.duplicate()),
                _ => None,
            }
        } else {
            None
        }
    }

    /// Moves past the current token.
    pub fn bump(&mut self)
        requires
            old(self).pos < old(self).tokens.len(),
        ensures
            final(self).pos == old(self).pos + 1,
            final(self).tokens == old(self).tokens,
    {
        self.pos = self.pos + 1;
    }

    /// The error `kind` at the current token.
    pub fn error(&self, kind: ErrorKind) -> (e: ParseError)
        ensures
            e == err(kind, self.pos as int),
    {
        ParseError { kind, pos: self.pos }
    }
}


/// Moves past the current token if it is the punctuation `q`; otherwise the
/// error `kind` at the current token.
fn expect(parser: &mut Parser, q: Punct, kind: ErrorKind) -> (r: Result<(), ParseError>)
    ensures
        final(parser).tokens == old(parser).tokens,
        punct_at(old(parser).tokens@, old(parser).pos as int, q) ==> r is Ok && final(parser).pos == old(parser).pos + 1,
        !punct_at(old(parser).tokens@, old(parser).pos as int, q) ==> r == Err::<(), ParseError>(err(kind, old(parser).pos as int))
            && final(parser).pos == old(parser).pos,
{
    if !parser.is_punct(q) {
        return Err(parser.error(kind));
    }
    parser.bump();
    Ok(())
}

/// The error for a block head that is no keyword.
fn illegal(parser: &Parser) -> (e: ParseError)
    ensures
        e == err(ErrorKind::UnknownBlockKeyword, parser.pos as int),
{
    parser.error(ErrorKind::UnknownBlockKeyword)
}

impl Parse<TestConfig> for Test {
    open spec fn parse_spec(toks: Seq<Token>, p: int, cfg: TestConfig) -> Result<(TestModel, int), ParseError> {
        match test_at(toks, p, cfg@) {
            Ok(t) => Ok((t, p + 2)),
            Err(e) => Err(e),
        }
    }

    fn parse(parser: &mut Parser, test_config: TestConfig) -> (r: Result<Test, ParseError>) {
        let description = match parser.string() {
            Some(d) => d,
            None => return Err(parser.error(ErrorKind::MissingDescription)),
        };
        parser.bump();
        let block = match parser.block() {
            Some(b) => b,
            None => return Err(parser.error(ErrorKind::Syntax)),
        };
        parser.bump();
        Ok(Test { description, block, test_config })
    }
}

impl Parse<()> for Bench {
    open spec fn parse_spec(toks: Seq<Token>, p: int, cfg: ()) -> Result<(BenchModel, int), ParseError> {
        match bench_at(toks, p) {
            Ok(b) => Ok((b, p + 5)),
            Err(e) => Err(e),
        }
    }

    fn parse(parser: &mut Parser, cfg: ()) -> (r: Result<Bench, ParseError>) {
        let description = match parser.string() {
            Some(d) => d,
            None => return Err(parser.error(ErrorKind::MissingDescription)),
        };
        parser.bump();
        let signature = parser.error(ErrorKind::MalformedBenchSignature);
        if !parser.is_punct(Punct::OpenParen) {
            return Err(signature);
        }
        parser.bump();
        let bench = match parser.ident() {
            Some(b) => b,
            None => return Err(signature),
        };
        parser.bump();
        if !parser.is_punct(Punct::CloseParen) {
            return Err(signature);
        }
        parser.bump();
        let block = match parser.block() {
            Some(b) => b,
            None => return Err(parser.error(ErrorKind::Syntax)),
        };
        parser.bump();
        Ok(Bench { bench, description, block })
    }
}


/// Reads a suite: for a nested one (`name` is `None`) its name and opening
/// brace first, then its blocks, up to the closing brace that ends it (which is
/// left for the caller) or the end of input.
fn parse_suite(parser: &mut Parser, name: Option<String>) -> (r: Result<DescribeState, ParseError>)
    requires
        old(parser).pos <= old(parser).tokens.len(),
    ensures
        final(parser).tokens@ == old(parser).tokens@,
        old(parser).pos <= final(parser).pos <= final(parser).tokens.len(),
        parsed(r, suite_at(old(parser).tokens@, old(parser).pos as int, text_of(name)), final(parser).pos as int),
    decreases old(parser).tokens@.len() - old(parser).pos, 2int,
{
    let ghost toks = parser.tokens@;
    let ghost start = parser.pos as int;
    let ghost whole = suite_at(toks, start, text_of(name));
    let title = match name {
        Some(n) => n,
        None => {
            let n = match parser.ident() {
                Some(n) => n,
                None => return Err(parser.error(ErrorKind::Syntax)),
            };
            parser.bump();
            match expect(parser, Punct::OpenBrace, ErrorKind::Syntax) {
                Ok(()) => {},
                Err(e) => return Err(e),
            }
            n
        },
    };
    let mut state = DescribeState { name: title, before_each: None, after_each: None, subblocks: Vec::new() };
    assert(state.subblocks@ =~= Seq::<SubBlock>::empty());
    assert(state@.subblocks =~= Seq::<BlockModel>::empty());
    while parser.pos < parser.tokens.len() && !parser.is_punct(Punct::CloseBrace)
        invariant
            toks == old(parser).tokens@,
            start == old(parser).pos,
            whole == suite_at(toks, start, text_of(name)),
            parser.tokens@ == toks,
            start <= parser.pos <= toks.len(),
            blocks_from(toks, parser.pos as int, state@) == whole,
        decreases toks.len() - parser.pos,
    {
        match parse_block(parser, &mut state) {
            Ok(()) => {},
            Err(e) => return Err(e),
        }
    }
    Ok(state)
}

/// Reads the block at the parser's position into `state`.
fn parse_block(parser: &mut Parser, state: &mut DescribeState) -> (r: Result<(), ParseError>)
    requires
        old(parser).pos < old(parser).tokens.len(),
    ensures
        final(parser).tokens@ == old(parser).tokens@,
        old(parser).pos <= final(parser).pos <= final(parser).tokens.len(),
        match next_block(old(parser).tokens@, old(parser).pos as int, old(state)@) {
            Ok((s, q)) => r is Ok && final(state)@ == s && final(parser).pos == q && old(parser).pos < q,
            Err(e) => r == Err::<(), ParseError>(e),
        },
    decreases old(parser).tokens@.len() - old(parser).pos, 0int,
{
    let head = match parser.ident() {
        Some(w) => w,
        None => return Err(parser.error(ErrorKind::Syntax)),
    };
    let kw = match keyword(head.as_str()) {
        Some(k) => k,
        None => return Err(illegal(parser)),
    };
    match kw {
        Keyword::BeforeEach => {
            if state.before_each.is_some() {
                return Err(parser.error(ErrorKind::DuplicateHook));
            }
            parser.bump();
            let b = match parser.block() {
                Some(b) => b,
                None => return Err(parser.error(ErrorKind::Syntax)),
            };
            parser.bump();
            state.before_each = Some(b);
        },
        Keyword::AfterEach => {
            if state.after_each.is_some() {
                return Err(parser.error(ErrorKind::DuplicateHook));
            }
            parser.bump();
            let b = match parser.block() {
                Some(b) => b,
                None => return Err(parser.error(ErrorKind::Syntax)),
            };
            parser.bump();
            state.after_each = Some(b);
        },
        Keyword::Describe => {
            parser.bump();
            match expect(parser, Punct::Not, ErrorKind::Syntax) {
                Ok(()) => {},
                Err(e) => return Err(e),
            }
            let child = match parse_suite(parser, None) {
                Ok(c) => c,
                Err(e) => return Err(e),
            };
            match expect(parser, Punct::CloseBrace, ErrorKind::UnterminatedSuite) {
                Ok(()) => {},
                Err(e) => return Err(e),
            }
            let b = SubBlock::Describe(child);
            proof {
                lemma_subblocks_view_push(state.subblocks@, b);
            }
            state.subblocks.push(b);
        },
        Keyword::Bench => {
            parser.bump();
            let bench = match Bench::parse(parser, ()) {
                Ok(b) => b,
                Err(e) => return Err(e),
            };
            let b = SubBlock::Bench(bench);
            proof {
                lemma_subblocks_view_push(state.subblocks@, b);
            }
            state.subblocks.push(b);
        },
        _ => {
            parser.bump();
            let config = if kw == Keyword::It {
                TestConfig::test()
            } else if kw == Keyword::Ignore {
                TestConfig::ignored_test()
            } else {
                let mut fail_msg = None;
                if parser.is_punct(Punct::OpenParen) {
                    parser.bump();
                    fail_msg = match parser.string() {
                        Some(m) => Some(m),
                        None => return Err(parser.error(ErrorKind::Syntax)),
                    };
                    parser.bump();
                    match expect(parser, Punct::CloseParen, ErrorKind::Syntax) {
                        Ok(()) => {},
                        Err(e) => return Err(e),
                    }
                }
                TestConfig::failing_test(fail_msg)
            };
            let test = match Test::parse(parser, config) {
                Ok(t) => t,
                Err(e) => return Err(e),
            };
            let b = SubBlock::Test(test);
            proof {
                lemma_subblocks_view_push(state.subblocks@, b);
            }
            state.subblocks.push(b);
        },
    }
    Ok(())
}

impl Parse<Option<String>> for DescribeState {
    open spec fn parse_spec(toks: Seq<Token>, p: int, cfg: Option<String>) -> Result<(SuiteModel, int), ParseError> {
        suite_at(toks, p, text_of(cfg))
    }

    fn parse(parser: &mut Parser, name: Option<String>) -> (r: Result<DescribeState, ParseError>) {
        parse_suite(parser, name)
    }
}

} // verus!

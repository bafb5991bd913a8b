use vstd::prelude::*;

verus! {

/// Punctuation that the suite grammar reads.
#[derive(Clone, Copy, PartialEq, Eq, Structural, Debug)]
pub enum Punct {
    OpenParen,
    CloseParen,
    OpenBrace,
    CloseBrace,
    Not,
}

/// A code fragment: the statements that the reader captured verbatim.
/// Its statements are never looked into, only moved and concatenated.
#[derive(Clone, Debug, PartialEq, Eq)]
pub struct Block {
    pub stmts: Vec<String>,
}

impl Block {
    /// A copy of the block, with the same statements.
    pub fn duplicate(&self) -> (r: Block)
        ensures
            r.stmts@ == self.stmts@,
    {
        let stmts = self.stmts.clone();
        assert(stmts@ =~= self.stmts@);
        Block { stmts }
    }
}

/// One atom supplied by the token reader.
#[derive(Clone, Debug, PartialEq, Eq)]
pub enum Token {
    Ident(String),
    /// A string literal, unquoted.
    Str(String),
    Punct(Punct),
    /// A braced code fragment, captured whole.
    Block(Block),
    /// Any other token; no rule of the grammar accepts it.
    Other(String),
}

/// The block keywords, with their aliases folded together.
#[derive(Clone, Copy, PartialEq, Eq, Structural, Debug)]
pub enum Keyword {
    BeforeEach,
    AfterEach,
    It,
    Failing,
    Ignore,
    Bench,
    Describe,
}

/// The keyword that a block head spells, if any: `given` is `before_each`,
/// `then` is `after_each` and `when` is `it`.
pub open spec fn keyword_of(w: Seq<char>) -> Option<Keyword> {
    if w == "before_each"@ || w == "given"@ {
        Some(Keyword::BeforeEach)
    } else if w == "after_each"@ || w == "then"@ {
        Some(Keyword::AfterEach)
    } else if w == "it"@ || w == "when"@ {
        Some(Keyword::It)
    } else if w == "failing"@ {
        Some(Keyword::Failing)
    } else if w == "ignore"@ {
        Some(Keyword::Ignore)
    } else if w == "bench"@ {
        Some(Keyword::Bench)
    } else if w == "describe"@ {
        Some(Keyword::Describe)
    } else {
        None
    }
}

/// Whether two words are the same sequence of characters.
fn same_word(w: &str, lit: &str) -> (r: bool)
    ensures
        r == (w@ == lit@),
{
    let n = w.unicode_len();
    if n != lit.unicode_len() {
        return false;
    }
    let mut i: usize = 0;
    while i < n
        invariant
            n == w@.len(),
            n == lit@.len(),
            i <= n,
            forall|j: int| 0 <= j < i ==> w@[j] == lit@[j],
        decreases n - i,
    {
        if w.get_char(i) != lit.get_char(i) {
            return false;
        }
        i = i + 1;
    }
    assert(w@ =~= lit@);
    true
}

/// Classifies the word at the head of a block.
pub fn keyword(word: &str) -> (r: Option<Keyword>)
    ensures
        r == keyword_of(word@),
{
    if same_word(word, "before_each") || same_word(word, "given") {
        Some(Keyword::BeforeEach)
    } else if same_word(word, "after_each") || same_word(word, "then") {
        Some(Keyword::AfterEach)
    } else if same_word(word, "it") || same_word(word, "when") {
        Some(Keyword::It)
    } else if same_word(word, "failing") {
        Some(Keyword::Failing)
    } else if same_word(word, "ignore") {
        Some(Keyword::Ignore)
    } else if same_word(word, "bench") {
        Some(Keyword::Bench)
    } else if same_word(word, "describe") {
        Some(Keyword::Describe)
    } else {
        None
    }
}

} // verus!

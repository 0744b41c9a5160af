//! Tokens and the tokenizer.

use vstd::prelude::*;
use crate::compiler::grammar::{
    classify, classify_identifier_or_constant, follows_grammar, has_minus_pair, lemma_lex_total,
    lemma_lexemes_cover_source, lemma_merge_decrements_leaves_no_pair, lexed, lexemes,
    merge_decrements, scan, significant, symbol_of, token_for_matches, Lexed,
};
use crate::compiler::machine::{run, Run};
use crate::compiler::pattern::{pattern_is_match, CONSTANT_PATTERN, IDENTIFIER_PATTERN};
use crate::compiler::text::chars_of;

verus! {

/// The kind of a comment. `PendingComment` is the state after the comment
/// marker `/` and before the character that decides between the other two.
#[derive(Clone, Copy, Debug, PartialEq, Eq, Structural)]
pub enum CommentToken {
    LineComment,
    BlockComment,
    PendingComment,
}

/// Punctuation. `Whitespace` stands for any of line feed, space and tab;
/// `Decrement` is only ever produced by [`postprocess_tokens`].
#[derive(Clone, Copy, Debug, PartialEq, Eq, Structural)]
pub enum SymbolToken {
    OpenParen,
    CloseParen,
    OpenBrace,
    CloseBrace,
    Semicolon,
    Quote,
    Whitespace,
    CommentSymbol,
    Minus,
    Decrement,
    Tilde,
}

/// The reserved words.
#[derive(Clone, Copy, Debug, PartialEq, Eq, Structural)]
pub enum KeywordToken {
    Int,
    Void,
    Return,
}

/// A token. Identifiers and constants carry their text. Whitespace and
/// comments are tokens too; a comment token does not keep the comment's
/// text.
#[derive(Clone, Debug, PartialEq, Eq)]
pub enum Token {
    Identifier(String),
    Constant(String),
    Keyword(KeywordToken),
    Symbol(SymbolToken),
    Comment(CommentToken),
}

/// A token as a mathematical value: the text of an identifier or constant is
/// a sequence of characters.
pub enum TokenView {
    Identifier(Seq<char>),
    Constant(Seq<char>),
    Keyword(KeywordToken),
    Symbol(SymbolToken),
    Comment(CommentToken),
}

impl View for Token {
    type V = TokenView;

    open spec fn view(&self) -> TokenView {
        match self {
            Token::Identifier(text) => TokenView::Identifier(text@),
            Token::Constant(text) => TokenView::Constant(text@),
            Token::Keyword(keyword) => TokenView::Keyword(*keyword),
            Token::Symbol(symbol) => TokenView::Symbol(*symbol),
            Token::Comment(comment) => TokenView::Comment(*comment),
        }
    }
}

impl DeepView for Token {
    type V = TokenView;

    open spec fn deep_view(&self) -> TokenView {
        self@
    }
}

/// Why a source text has no token sequence.
#[derive(Clone, Debug, PartialEq, Eq)]
pub enum LexError {
    /// A word that is neither a keyword, an identifier nor a constant; it
    /// carries the word.
    Classification(String),
    /// The text ended inside a comment of the given kind (`PendingComment`:
    /// directly behind the comment marker).
    UnterminatedConstruct(CommentToken),
}

/// An error as a mathematical value.
pub enum LexErrorView {
    Classification(Seq<char>),
    UnterminatedConstruct(CommentToken),
}

impl View for LexError {
    type V = LexErrorView;

    open spec fn view(&self) -> LexErrorView {
        match self {
            LexError::Classification(word) => LexErrorView::Classification(word@),
            LexError::UnterminatedConstruct(comment) => LexErrorView::UnterminatedConstruct(
                *comment,
            ),
        }
    }
}

impl LexErrorView {
    /// The error in words.
    pub open spec fn message(self) -> Seq<char> {
        match self {
            LexErrorView::Classification(word) => word
                + " did not match an identifier or a constant"@,
            LexErrorView::UnterminatedConstruct(_) => "Unexpected EOF"@,
        }
    }
}

impl LexError {
    /// The error in words, for a diagnostic.
    pub fn message(&self) -> (text: String)
        ensures
            text@ == self@.message(),
    {
        match self {
            LexError::Classification(word) => {
                let mut text = word.clone();
                text.append(" did not match an identifier or a constant");
                text
            },
            LexError::UnterminatedConstruct(_) => "Unexpected EOF".to_owned(),
        }
    }
}

/// The view of a classification result.
pub open spec fn classified(result: Result<Token, LexError>) -> Result<TokenView, LexErrorView> {
    match result {
        Ok(token) => Ok(token@),
        Err(error) => Err(error@),
    }
}

/// The symbol that `ch` stands for, if it is one of the punctuation and
/// whitespace characters.
pub fn check_for_symbol(ch: char) -> (symbol: Option<SymbolToken>)
    ensures
        symbol == symbol_of(ch),
{
    match ch {
        '(' => Some(SymbolToken::OpenParen),
        ')' => Some(SymbolToken::CloseParen),
        '{' => Some(SymbolToken::OpenBrace),
        '}' => Some(SymbolToken::CloseBrace),
        ';' => Some(SymbolToken::Semicolon),
        '"' => Some(SymbolToken::Quote),
        '/' => Some(SymbolToken::CommentSymbol),
        '\n' | ' ' | '\t' => Some(SymbolToken::Whitespace),
        '-' => Some(SymbolToken::Minus),
        '~' => Some(SymbolToken::Tilde),
        _ => None,
    }
}

/// Classifies a finished word: a keyword where it is one, else an identifier
/// or a constant.
pub fn match_non_symbol_token(value: String) -> (result: Result<Token, LexError>)
    ensures
        classified(result) == classify(value@),
{
    if value == "int".to_owned() {
        Ok(Token::Keyword(KeywordToken::Int))
    } else if value == "void".to_owned() {
        Ok(Token::Keyword(KeywordToken::Void))
    } else if value == "return".to_owned() {
        Ok(Token::Keyword(KeywordToken::Return))
    } else {
        match_identifier_or_constant(value)
    }
}

/// Classifies a word that is no keyword: an identifier where the identifier
/// pattern matches it, else a constant where the constant pattern does, else
/// an error that carries the word.
pub fn match_identifier_or_constant(value: String) -> (result: Result<Token, LexError>)
    ensures
        classified(result) == classify_identifier_or_constant(value@),
{
    let identifier = matches!(pattern_is_match(IDENTIFIER_PATTERN, value.as_str()), Some(true));
    let constant = !identifier && matches!(
        pattern_is_match(CONSTANT_PATTERN, value.as_str()),
        Some(true)
    );
    word_token(value, identifier, constant)
}

/// Makes the token of a word that is no keyword from the answers of the two
/// patterns.
pub fn word_token(value: String, identifier: bool, constant: bool) -> (result: Result<
    Token,
    LexError,
>)
    ensures
        classified(result) == token_for_matches(value@, identifier, constant),
{
    if identifier {
        Ok(Token::Identifier(value))
    } else if constant {
        Ok(Token::Constant(value))
    } else {
        Err(LexError::Classification(value))
    }
}

/// The view of what [`consume`] and [`lex`] return.
pub open spec fn lexed_result(result: Result<Vec<Token>, LexError>) -> Lexed {
    match result {
        Ok(tokens) => Lexed::Tokens(tokens.deep_view()),
        Err(error) => Lexed::Rejected(error@),
    }
}

/// Tokenizes `chars` and appends the tokens to `vec`. Adjacent minus signs
/// are left as they are. A text in which a comment marker is followed by
/// anything but `/` or `*` has no outcome and must not be passed.
pub fn consume(chars: &[char], vec: Vec<Token>) -> (result: Result<Vec<Token>, LexError>)
    requires
        !(scan(chars@) is Malformed),
    ensures
        lexed_result(result) == scan(chars@).after(vec.deep_view()),
{
    match run(chars, vec) {
        Run::Finished(tokens) => Ok(tokens),
        Run::Failed(error) => Err(error),
        // Ruled out by the precondition.
        Run::Malformed => unreached(),
    }
}

fn is_minus(token: &Token) -> (minus: bool)
    ensures
        minus == (token@ == TokenView::Symbol(SymbolToken::Minus)),
{
    matches!(token, Token::Symbol(SymbolToken::Minus))
}

/// Merges each pair of adjacent minus tokens into one decrement token, in
/// one pass from left to right.
pub fn postprocess_tokens(tokens: Vec<Token>) -> (merged: Vec<Token>)
    ensures
        merged.deep_view() == merge_decrements(tokens.deep_view()),
        !has_minus_pair(merged.deep_view()),
{
    let ghost given = tokens.deep_view();
    proof {
        lemma_merge_decrements_leaves_no_pair(given);
    }
    let mut tokens = tokens;
    let mut i: usize = 0;
    let mut length: usize = tokens.len();
    assert(given.skip(0) == given);
    while length - i > 1
        invariant
            length == tokens.len(),
            i <= length,
            merge_decrements(given) == tokens.deep_view().take(i as int) + merge_decrements(
                tokens.deep_view().skip(i as int),
            ),
        decreases length - i,
    {
        let ghost before = tokens.deep_view();
        let ghost rest = before.skip(i as int);
        if is_minus(&tokens[i]) && is_minus(&tokens[i + 1]) {
            tokens.set(i, Token::Symbol(SymbolToken::Decrement));
            tokens.remove(i + 1);
            length -= 1;
            assert(tokens.deep_view().skip(i + 1) == rest.skip(2));
        } else {
            assert(tokens.deep_view().skip(i + 1) == rest.skip(1));
        }
        i += 1;
    }
    tokens
}

/// The tokens of a source text. The text is read once from left to right;
/// then adjacent minus signs are merged. Nothing is skipped: every
/// whitespace character gives a `Whitespace` token and every comment a
/// `Comment` token. The first word that cannot be classified, or the end of
/// the text inside a comment, ends lexing with an error.
///
/// A text in which a comment marker is followed by anything but `/` or `*`
/// has no outcome and must not be passed: [`has_malformed_comment`] tells,
/// and [`try_lex`] asks it first.
pub fn lex(code: String) -> (result: Result<Vec<Token>, LexError>)
    requires
        !(lexed(code@) is Malformed),
    ensures
        lexed_result(result) == lexed(code@),
        follows_grammar(code@) ==> result is Ok,
        result matches Ok(tokens) ==> lexemes(tokens.deep_view()) == significant(code@),
{
    proof {
        if follows_grammar(code@) {
            lemma_lex_total(code@);
        }
        if lexed(code@) is Tokens {
            lemma_lexemes_cover_source(code@);
        }
    }
    let chars = chars_of(code.as_str());
    match consume(chars.as_slice(), Vec::new()) {
        Ok(tokens) => Ok(postprocess_tokens(tokens)),
        Err(error) => Err(error),
    }
}

/// The tokens of a source text as [`lex`] gives them, for any text: `None`
/// where lexing comes to a comment marker that is followed by neither `/`
/// nor `*`.
pub fn try_lex(code: String) -> (result: Option<Result<Vec<Token>, LexError>>)
    ensures
        result is None <==> lexed(code@) is Malformed,
        result matches Some(lexing) ==> lexed_result(lexing) == lexed(code@),
        follows_grammar(code@) ==> result matches Some(Ok(_)),
{
    proof {
        if follows_grammar(code@) {
            lemma_lex_total(code@);
        }
    }
    if has_malformed_comment(code.as_str()) {
        None
    } else {
        Some(lex(code))
    }
}

/// Whether lexing `code` comes to a comment marker that is followed by
/// neither `/` nor `*`, before it comes to an error.
pub fn has_malformed_comment(code: &str) -> (malformed: bool)
    ensures
        malformed == (lexed(code@) is Malformed),
{
    let chars = chars_of(code);
    match run(chars.as_slice(), Vec::new()) {
        Run::Malformed => true,
        _ => false,
    }
}

} // verus!

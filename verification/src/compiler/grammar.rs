//! The lexical grammar: what the token sequence of a source text is.

use vstd::prelude::*;
use crate::compiler::lexer::{CommentToken, KeywordToken, LexErrorView, SymbolToken, TokenView};
use crate::compiler::pattern::{
    is_ascii_word_char, is_constant, is_digit, is_identifier, is_identifier_start,
};
use vstd::utf8::is_ascii_chars;

verus! {

/// The symbol that a single character stands for, if any.
pub open spec fn symbol_of(ch: char) -> Option<SymbolToken> {
    if ch == '(' {
        Some(SymbolToken::OpenParen)
    } else if ch == ')' {
        Some(SymbolToken::CloseParen)
    } else if ch == '{' {
        Some(SymbolToken::OpenBrace)
    } else if ch == '}' {
        Some(SymbolToken::CloseBrace)
    } else if ch == ';' {
        Some(SymbolToken::Semicolon)
    } else if ch == '"' {
        Some(SymbolToken::Quote)
    } else if ch == '/' {
        Some(SymbolToken::CommentSymbol)
    } else if ch == '\n' || ch == ' ' || ch == '\t' {
        Some(SymbolToken::Whitespace)
    } else if ch == '-' {
        Some(SymbolToken::Minus)
    } else if ch == '~' {
        Some(SymbolToken::Tilde)
    } else {
        None
    }
}

/// A character that ends the word before it.
pub open spec fn is_delimiter(ch: char) -> bool {
    symbol_of(ch) is Some
}

/// The keyword that `word` spells, if any.
pub open spec fn keyword_of(word: Seq<char>) -> Option<KeywordToken> {
    if word == "int"@ {
        Some(KeywordToken::Int)
    } else if word == "void"@ {
        Some(KeywordToken::Void)
    } else if word == "return"@ {
        Some(KeywordToken::Return)
    } else {
        None
    }
}

/// The token of a word that is no keyword, given whether the identifier
/// pattern and the constant pattern match it: the identifier pattern is
/// asked first, and a word that neither matches is an error.
pub open spec fn token_for_matches(word: Seq<char>, identifier: bool, constant: bool) -> Result<
    TokenView,
    LexErrorView,
> {
    if identifier {
        Ok(TokenView::Identifier(word))
    } else if constant {
        Ok(TokenView::Constant(word))
    } else {
        Err(LexErrorView::Classification(word))
    }
}

/// The token of a word that is no keyword.
pub open spec fn classify_identifier_or_constant(word: Seq<char>) -> Result<
    TokenView,
    LexErrorView,
> {
    token_for_matches(word, is_identifier(word), is_constant(word))
}

/// The token of a word: keywords come first, then identifiers, then
/// constants; any other word is an error.
pub open spec fn classify(word: Seq<char>) -> Result<TokenView, LexErrorView> {
    match keyword_of(word) {
        Some(keyword) => Ok(TokenView::Keyword(keyword)),
        None => classify_identifier_or_constant(word),
    }
}

/// Where the word that has begun before `pos` ends: the first position from
/// `pos` on that holds a delimiter, or the end of the text.
pub open spec fn word_end(source: Seq<char>, pos: int) -> int
    decreases source.len() - pos,
{
    if pos >= source.len() || is_delimiter(source[pos]) {
        pos
    } else {
        word_end(source, pos + 1)
    }
}

/// The position behind the first line feed from `pos` on, if there is one.
pub open spec fn line_end(source: Seq<char>, pos: int) -> Option<int>
    decreases source.len() - pos,
{
    if pos >= source.len() {
        None
    } else if source[pos] == '\n' {
        Some(pos + 1)
    } else {
        line_end(source, pos + 1)
    }
}

/// The position behind the first `*/` that begins at `pos` or later, if
/// there is one.
pub open spec fn block_end(source: Seq<char>, pos: int) -> Option<int>
    decreases source.len() - pos,
{
    if pos >= source.len() {
        None
    } else if source[pos] == '*' && pos + 1 < source.len() && source[pos + 1] == '/' {
        Some(pos + 2)
    } else {
        block_end(source, pos + 1)
    }
}

/// One lexical item of a source text: a token and the position where the
/// next item begins, or the reason why there is none.
pub enum Item {
    Token { token: TokenView, next: int },
    Rejected(LexErrorView),
    Malformed,
}

/// The item that goes on at `pos` as a line comment.
pub open spec fn line_comment_item(source: Seq<char>, pos: int) -> Item {
    match line_end(source, pos) {
        Some(next) => Item::Token { token: TokenView::Comment(CommentToken::LineComment), next },
        None => Item::Rejected(LexErrorView::UnterminatedConstruct(CommentToken::LineComment)),
    }
}

/// The item that goes on at `pos` as a block comment.
pub open spec fn block_comment_item(source: Seq<char>, pos: int) -> Item {
    match block_end(source, pos) {
        Some(next) => Item::Token { token: TokenView::Comment(CommentToken::BlockComment), next },
        None => Item::Rejected(LexErrorView::UnterminatedConstruct(CommentToken::BlockComment)),
    }
}

/// The item whose comment marker stands just before `pos`: the character at
/// `pos` decides between a line comment and a block comment. Any other
/// character there makes the text malformed.
pub open spec fn comment_item(source: Seq<char>, pos: int) -> Item {
    if pos >= source.len() {
        Item::Rejected(LexErrorView::UnterminatedConstruct(CommentToken::PendingComment))
    } else if source[pos] == '/' {
        line_comment_item(source, pos + 1)
    } else if source[pos] == '*' {
        block_comment_item(source, pos + 1)
    } else {
        Item::Malformed
    }
}

/// The item of the word that begins with the characters `begun` and goes on
/// at `pos`.
pub open spec fn word_item(source: Seq<char>, begun: Seq<char>, pos: int) -> Item {
    let end = word_end(source, pos);
    match classify(begun + source.subrange(pos, end)) {
        Ok(token) => Item::Token { token, next: end },
        Err(error) => Item::Rejected(error),
    }
}

/// The item that begins at `pos`, a position inside the text.
pub open spec fn item_at(source: Seq<char>, pos: int) -> Item
    recommends
        0 <= pos < source.len(),
{
    match symbol_of(source[pos]) {
        Some(SymbolToken::CommentSymbol) => comment_item(source, pos + 1),
        Some(symbol) => Item::Token { token: TokenView::Symbol(symbol), next: pos + 1 },
        None => word_item(source, seq![source[pos]], pos + 1),
    }
}

/// What lexing makes of a text: its tokens, the error that ends it, or the
/// verdict that a comment marker in it is malformed.
pub enum Lexed {
    Tokens(Seq<TokenView>),
    Rejected(LexErrorView),
    Malformed,
}

impl Lexed {
    /// This outcome behind tokens that were produced earlier.
    pub open spec fn after(self, earlier: Seq<TokenView>) -> Lexed {
        match self {
            Lexed::Tokens(tokens) => Lexed::Tokens(earlier + tokens),
            Lexed::Rejected(error) => Lexed::Rejected(error),
            Lexed::Malformed => Lexed::Malformed,
        }
    }
}

/// The outcome for the text from `pos` on, where `pos` is the beginning of
/// an item or the end of the text.
pub open spec fn scan_from(source: Seq<char>, pos: int) -> Lexed
    decreases source.len() - pos,
    via scan_from_decreases
{
    if pos < 0 || pos >= source.len() {
        Lexed::Tokens(Seq::empty())
    } else {
        match item_at(source, pos) {
            Item::Token { token, next } => scan_from(source, next).after(seq![token]),
            Item::Rejected(error) => Lexed::Rejected(error),
            Item::Malformed => Lexed::Malformed,
        }
    }
}

#[via_fn]
proof fn scan_from_decreases(source: Seq<char>, pos: int) {
    if 0 <= pos < source.len() {
        lemma_item_advances(source, pos);
    }
}

/// The outcome for the item `item` and the text behind it.
pub open spec fn scan_behind(source: Seq<char>, item: Item) -> Lexed {
    match item {
        Item::Token { token, next } => scan_from(source, next).after(seq![token]),
        Item::Rejected(error) => Lexed::Rejected(error),
        Item::Malformed => Lexed::Malformed,
    }
}

/// The outcome for a whole text, before adjacent minus signs are merged.
pub open spec fn scan(source: Seq<char>) -> Lexed {
    scan_from(source, 0)
}

/// Merges adjacent minus signs into decrements, from left to right: each
/// pair of two minus tokens in a row becomes one decrement token, and a
/// minus sign that has been merged takes part in no second pair. Of three
/// minus signs in a row the first two are merged and the third stays.
pub open spec fn merge_decrements(tokens: Seq<TokenView>) -> Seq<TokenView>
    decreases tokens.len(),
{
    if tokens.len() < 2 {
        tokens
    } else if tokens[0] == TokenView::Symbol(SymbolToken::Minus) && tokens[1] == TokenView::Symbol(
        SymbolToken::Minus,
    ) {
        seq![TokenView::Symbol(SymbolToken::Decrement)] + merge_decrements(tokens.skip(2))
    } else {
        seq![tokens[0]] + merge_decrements(tokens.skip(1))
    }
}

/// The outcome for a whole text: the tokens of [`scan`] with adjacent minus
/// signs merged.
pub open spec fn lexed(source: Seq<char>) -> Lexed {
    match scan(source) {
        Lexed::Tokens(tokens) => Lexed::Tokens(merge_decrements(tokens)),
        Lexed::Rejected(error) => Lexed::Rejected(error),
        Lexed::Malformed => Lexed::Malformed,
    }
}

/// Behind no tokens an outcome is itself.
pub proof fn lemma_after_nothing(outcome: Lexed)
    ensures
        outcome.after(Seq::empty()) == outcome,
{
    if let Lexed::Tokens(tokens) = outcome {
        assert(Seq::<TokenView>::empty() + tokens == tokens);
    }
}

/// Putting an outcome behind `second` and then behind `first` puts it behind
/// both, in this order.
pub proof fn lemma_after_after(outcome: Lexed, first: Seq<TokenView>, second: Seq<TokenView>)
    ensures
        outcome.after(second).after(first) == outcome.after(first + second),
{
    if let Lexed::Tokens(tokens) = outcome {
        assert(first + (second + tokens) == (first + second) + tokens);
    }
}

/// [`word_end`] is the nearest end: no delimiter stands between `pos` and
/// it, and a delimiter or the end of the text stands at it.
pub proof fn lemma_word_end(source: Seq<char>, pos: int)
    requires
        0 <= pos <= source.len(),
    ensures
        pos <= word_end(source, pos) <= source.len(),
        word_end(source, pos) < source.len() ==> is_delimiter(source[word_end(source, pos)]),
        forall|i: int| pos <= i < word_end(source, pos) ==> !is_delimiter(#[trigger] source[i]),
    decreases source.len() - pos,
{
    if pos < source.len() && !is_delimiter(source[pos]) {
        lemma_word_end(source, pos + 1);
    }
}

/// [`line_end`] finds the nearest line feed: it stands just before the
/// position found, and none stands between `pos` and it.
pub proof fn lemma_line_end(source: Seq<char>, pos: int)
    requires
        0 <= pos <= source.len(),
    ensures
        line_end(source, pos) matches Some(next) ==> pos < next <= source.len() && source[next - 1]
            == '\n',
        forall|i: int|
            pos <= i < source.len() && (line_end(source, pos) matches Some(next) ==> i < next - 1)
                ==> #[trigger] source[i] != '\n',
    decreases source.len() - pos,
{
    if pos < source.len() && source[pos] != '\n' {
        lemma_line_end(source, pos + 1);
    }
}

/// [`block_end`] finds the nearest `*/`: it stands just before the position
/// found, and none begins between `pos` and it.
pub proof fn lemma_block_end(source: Seq<char>, pos: int)
    requires
        0 <= pos <= source.len(),
    ensures
        block_end(source, pos) matches Some(next) ==> pos + 2 <= next <= source.len()
            && source[next - 2] == '*' && source[next - 1] == '/',
        forall|i: int|
            pos <= i < source.len() - 1 && (block_end(source, pos) matches Some(next) ==> i < next
                - 2) ==> !(#[trigger] source[i] == '*' && source[i + 1] == '/'),
    decreases source.len() - pos,
{
    if pos < source.len() && !(source[pos] == '*' && pos + 1 < source.len() && source[pos + 1]
        == '/') {
        lemma_block_end(source, pos + 1);
    }
}

/// Every item is at least one character long and ends inside the text.
pub proof fn lemma_item_advances(source: Seq<char>, pos: int)
    requires
        0 <= pos < source.len(),
    ensures
        item_at(source, pos) is Token ==> pos < item_at(source, pos)->next <= source.len(),
{
    lemma_word_end(source, pos + 1);
    if pos + 1 < source.len() {
        lemma_line_end(source, pos + 2);
        lemma_block_end(source, pos + 2);
    }
}

/// The three rules for words exclude each other as far as constants go: no
/// word is both a constant and an identifier, and no keyword is a constant,
/// so no word matches all three rules. Every keyword also matches the
/// identifier rule, and there the keyword wins.
pub proof fn lemma_classification_exclusive(word: Seq<char>)
    ensures
        !(is_identifier(word) && is_constant(word)),
        !(keyword_of(word) is Some && is_constant(word)),
        !(keyword_of(word) is Some && is_identifier(word) && is_constant(word)),
        keyword_of(word) matches Some(keyword) ==> is_identifier(word) && classify(word) == Ok::<
            TokenView,
            LexErrorView,
        >(TokenView::Keyword(keyword)),
{
    reveal_strlit("int");
    reveal_strlit("void");
    reveal_strlit("return");
    if is_constant(word) {
        // Digits are ASCII, so the identifier rule is the one for ASCII
        // text, and that asks for a first character that is no digit.
        assert forall|i: int| 0 <= i < word.len() implies '\0' <= #[trigger] word[i]
            <= '\u{7f}' by {
            assert(is_digit(word[i]));
        }
        assert(is_ascii_chars(word));
    }
    if keyword_of(word) is Some {
        // The keywords are made of lower-case letters.
        assert forall|i: int| 0 <= i < word.len() implies is_identifier_start(
            #[trigger] word[i],
        ) by {}
        assert(is_ascii_chars(word));
    }
}

/// The first token of a merged sequence is the first token of the sequence,
/// unless that is a minus sign.
proof fn lemma_merge_decrements_head(tokens: Seq<TokenView>)
    requires
        tokens.len() > 0,
        tokens[0] != TokenView::Symbol(SymbolToken::Minus),
    ensures
        merge_decrements(tokens).len() > 0,
        merge_decrements(tokens)[0] == tokens[0],
{
}

/// Whether two minus signs stand in a row somewhere in `tokens`.
pub open spec fn has_minus_pair(tokens: Seq<TokenView>) -> bool {
    exists|i: int|
        0 <= i < tokens.len() - 1 && #[trigger] tokens[i] == TokenView::Symbol(SymbolToken::Minus)
            && tokens[i + 1] == TokenView::Symbol(SymbolToken::Minus)
}

/// Merging leaves no pair behind: in a merged sequence no two minus signs
/// stand in a row.
pub proof fn lemma_merge_decrements_leaves_no_pair(tokens: Seq<TokenView>)
    ensures
        !has_minus_pair(merge_decrements(tokens)),
    decreases tokens.len(),
{
    let minus = TokenView::Symbol(SymbolToken::Minus);
    if tokens.len() >= 2 {
        let rest = if tokens[0] == minus && tokens[1] == minus {
            tokens.skip(2)
        } else {
            tokens.skip(1)
        };
        let merged = merge_decrements(tokens);
        lemma_merge_decrements_leaves_no_pair(rest);
        assert(merged.skip(1) == merge_decrements(rest));
        if merged[0] == minus && rest.len() > 0 {
            lemma_merge_decrements_head(rest);
        }
        assert forall|i: int| 0 <= i < merged.len() - 1 && #[trigger] merged[i] == minus implies
            merged[i + 1] != minus by {
            if i > 0 {
                assert(merged.skip(1)[i - 1] == merged[i]);
                assert(merged.skip(1)[i] == merged[i + 1]);
            }
        }
    }
}

/// A sequence without two minus signs in a row is left as it is.
pub proof fn lemma_merge_decrements_without_pair(tokens: Seq<TokenView>)
    requires
        !has_minus_pair(tokens),
    ensures
        merge_decrements(tokens) == tokens,
    decreases tokens.len(),
{
    let minus = TokenView::Symbol(SymbolToken::Minus);
    if tokens.len() >= 2 {
        assert(!(tokens[0] == minus && tokens[1] == minus));
        let rest = tokens.skip(1);
        assert forall|i: int| 0 <= i < rest.len() - 1 && #[trigger] rest[i] == minus implies rest[i
            + 1] != minus by {
            assert(tokens[i + 1] == rest[i]);
        }
        lemma_merge_decrements_without_pair(rest);
        assert(seq![tokens[0]] + rest == tokens);
    }
}

/// Merging is idempotent: merging a merged sequence once more changes
/// nothing.
pub proof fn lemma_merge_decrements_idempotent(tokens: Seq<TokenView>)
    ensures
        merge_decrements(merge_decrements(tokens)) == merge_decrements(tokens),
{
    lemma_merge_decrements_leaves_no_pair(tokens);
    lemma_merge_decrements_without_pair(merge_decrements(tokens));
}

/// The characters that a symbol was read from; none for whitespace, which
/// stands for any of three characters and is not counted as text.
pub open spec fn symbol_lexeme(symbol: SymbolToken) -> Seq<char> {
    match symbol {
        SymbolToken::OpenParen => seq!['('],
        SymbolToken::CloseParen => seq![')'],
        SymbolToken::OpenBrace => seq!['{'],
        SymbolToken::CloseBrace => seq!['}'],
        SymbolToken::Semicolon => seq![';'],
        SymbolToken::Quote => seq!['"'],
        SymbolToken::Whitespace => Seq::empty(),
        SymbolToken::CommentSymbol => seq!['/'],
        SymbolToken::Minus => seq!['-'],
        SymbolToken::Decrement => seq!['-', '-'],
        SymbolToken::Tilde => seq!['~'],
    }
}

/// The spelling of a keyword.
pub open spec fn keyword_lexeme(keyword: KeywordToken) -> Seq<char> {
    match keyword {
        KeywordToken::Int => "int"@,
        KeywordToken::Void => "void"@,
        KeywordToken::Return => "return"@,
    }
}

/// The text that a token was read from. A comment token does not keep its
/// text and counts as empty, as whitespace does.
pub open spec fn lexeme(token: TokenView) -> Seq<char> {
    match token {
        TokenView::Identifier(text) => text,
        TokenView::Constant(text) => text,
        TokenView::Keyword(keyword) => keyword_lexeme(keyword),
        TokenView::Symbol(symbol) => symbol_lexeme(symbol),
        TokenView::Comment(_) => Seq::empty(),
    }
}

/// The texts of the tokens, one behind the other.
pub open spec fn lexemes(tokens: Seq<TokenView>) -> Seq<char>
    decreases tokens.len(),
{
    if tokens.len() == 0 {
        Seq::empty()
    } else {
        lexeme(tokens[0]) + lexemes(tokens.skip(1))
    }
}

/// Line feed, space and tab.
pub open spec fn is_whitespace(ch: char) -> bool {
    symbol_of(ch) == Some(SymbolToken::Whitespace)
}

/// The characters from `pos` on that stand outside comments and are not
/// whitespace, in order; `pos` is the beginning of an item or the end of the
/// text.
pub open spec fn significant_from(source: Seq<char>, pos: int) -> Seq<char>
    decreases source.len() - pos,
    via significant_from_decreases
{
    if pos < 0 || pos >= source.len() {
        Seq::empty()
    } else if source[pos] == '/' {
        match comment_item(source, pos + 1) {
            Item::Token { next, .. } => significant_from(source, next),
            _ => Seq::empty(),
        }
    } else if is_whitespace(source[pos]) {
        significant_from(source, pos + 1)
    } else {
        seq![source[pos]] + significant_from(source, pos + 1)
    }
}

#[via_fn]
proof fn significant_from_decreases(source: Seq<char>, pos: int) {
    if 0 <= pos < source.len() {
        lemma_item_advances(source, pos);
    }
}

/// The characters of a text that stand outside comments and are not
/// whitespace.
pub open spec fn significant(source: Seq<char>) -> Seq<char> {
    significant_from(source, 0)
}

/// A word in the supported characters that the language accepts: letters,
/// digits and underscores, and digits only where it begins with a digit.
pub open spec fn is_plain_word(word: Seq<char>) -> bool {
    &&& word.len() > 0
    &&& forall|i: int| 0 <= i < word.len() ==> is_ascii_word_char(#[trigger] word[i])
    &&& is_digit(word[0]) ==> forall|i: int| 0 <= i < word.len() ==> is_digit(#[trigger] word[i])
}

/// Whether the text from `pos` on is made of symbols, closed comments and
/// plain words; `pos` is the beginning of an item or the end of the text.
pub open spec fn follows_grammar_from(source: Seq<char>, pos: int) -> bool
    decreases source.len() - pos,
    via follows_grammar_from_decreases
{
    if pos < 0 || pos >= source.len() {
        true
    } else if source[pos] == '/' {
        match comment_item(source, pos + 1) {
            Item::Token { next, .. } => follows_grammar_from(source, next),
            _ => false,
        }
    } else if is_delimiter(source[pos]) {
        follows_grammar_from(source, pos + 1)
    } else {
        let end = word_end(source, pos + 1);
        is_plain_word(source.subrange(pos, end)) && follows_grammar_from(source, end)
    }
}

#[via_fn]
proof fn follows_grammar_from_decreases(source: Seq<char>, pos: int) {
    if 0 <= pos < source.len() {
        lemma_item_advances(source, pos);
        lemma_word_end(source, pos + 1);
    }
}

/// Whether a text is written in the language: symbols, closed comments, and
/// words of letters, digits and underscores that are digits only where they
/// begin with a digit.
pub open spec fn follows_grammar(source: Seq<char>) -> bool {
    follows_grammar_from(source, 0)
}

/// Every plain word has a token.
pub proof fn lemma_plain_word_classifies(word: Seq<char>)
    requires
        is_plain_word(word),
    ensures
        classify(word) is Ok,
{
    assert forall|i: int| 0 <= i < word.len() implies '\0' <= #[trigger] word[i]
        <= '\u{7f}' by {
        assert(is_ascii_word_char(word[i]));
    }
    assert(is_ascii_chars(word));
    if is_digit(word[0]) {
        assert(is_constant(word));
    } else {
        assert(is_identifier(word));
    }
}

proof fn lemma_scan_total_from(source: Seq<char>, pos: int)
    requires
        0 <= pos <= source.len(),
        follows_grammar_from(source, pos),
    ensures
        scan_from(source, pos) is Tokens,
    decreases source.len() - pos,
{
    if pos < source.len() {
        lemma_item_advances(source, pos);
        if source[pos] != '/' && !is_delimiter(source[pos]) {
            let end = word_end(source, pos + 1);
            lemma_word_end(source, pos + 1);
            assert(seq![source[pos]] + source.subrange(pos + 1, end) == source.subrange(pos, end));
            lemma_plain_word_classifies(source.subrange(pos, end));
        }
        match item_at(source, pos) {
            Item::Token { next, .. } => {
                lemma_scan_total_from(source, next);
            },
            _ => {},
        }
    }
}

/// Lexing is total on the language: a text that follows the grammar has a
/// token sequence. No error is reported for it, and no comment marker in it
/// is malformed.
pub proof fn lemma_lex_total(source: Seq<char>)
    requires
        follows_grammar(source),
    ensures
        lexed(source) is Tokens,
{
    lemma_scan_total_from(source, 0);
}

/// Inside a word every character is significant.
proof fn lemma_significant_word(source: Seq<char>, pos: int, end: int)
    requires
        0 <= pos <= end <= source.len(),
        forall|i: int| pos <= i < end ==> !is_delimiter(#[trigger] source[i]),
    ensures
        significant_from(source, pos) == source.subrange(pos, end) + significant_from(source, end),
    decreases end - pos,
{
    if pos < end {
        assert(!is_delimiter(source[pos]));
        lemma_significant_word(source, pos + 1, end);
    }
}

proof fn lemma_scan_lexemes_from(source: Seq<char>, pos: int)
    requires
        0 <= pos <= source.len(),
        scan_from(source, pos) is Tokens,
    ensures
        lexemes(scan_from(source, pos)->Tokens_0) == significant_from(source, pos),
    decreases source.len() - pos,
{
    if pos < source.len() {
        lemma_item_advances(source, pos);
        let tokens = scan_from(source, pos)->Tokens_0;
        let token = item_at(source, pos)->token;
        let next = item_at(source, pos)->next;
        let rest = scan_from(source, next)->Tokens_0;
        lemma_scan_lexemes_from(source, next);
        assert(tokens.skip(1) == rest);
        assert(lexemes(tokens) == lexeme(token) + significant_from(source, next));
        if !is_delimiter(source[pos]) {
            // A word: its token keeps its text, and all of it is significant.
            lemma_word_end(source, pos + 1);
            assert(lexeme(token) == source.subrange(pos, next));
            lemma_significant_word(source, pos, next);
        }
    }
}

/// Taken together, two minus signs and the decrement made of them have the
/// same text, so merging does not change the text of a token sequence.
pub proof fn lemma_merge_decrements_keeps_lexemes(tokens: Seq<TokenView>)
    ensures
        lexemes(merge_decrements(tokens)) == lexemes(tokens),
    decreases tokens.len(),
{
    let minus = TokenView::Symbol(SymbolToken::Minus);
    let decrement = TokenView::Symbol(SymbolToken::Decrement);
    if tokens.len() >= 2 {
        if tokens[0] == minus && tokens[1] == minus {
            let rest = tokens.skip(2);
            lemma_merge_decrements_keeps_lexemes(rest);
            assert((seq![decrement] + merge_decrements(rest)).skip(1) == merge_decrements(rest));
            assert(tokens.skip(1).skip(1) == rest);
            assert(lexemes(tokens.skip(1)) == lexeme(minus) + lexemes(rest));
        } else {
            let rest = tokens.skip(1);
            lemma_merge_decrements_keeps_lexemes(rest);
            assert((seq![tokens[0]] + merge_decrements(rest)).skip(1) == merge_decrements(rest));
        }
    }
}

/// The tokens account for the text: where lexing yields tokens, their texts
/// one behind the other are the characters of the source that stand outside
/// comments and are not whitespace. So the lengths of the lexemes add up to
/// the number of those characters.
pub proof fn lemma_lexemes_cover_source(source: Seq<char>)
    requires
        lexed(source) is Tokens,
    ensures
        lexemes(lexed(source)->Tokens_0) == significant(source),
        lexemes(lexed(source)->Tokens_0).len() == significant(source).len(),
{
    lemma_scan_lexemes_from(source, 0);
    lemma_merge_decrements_keeps_lexemes(scan(source)->Tokens_0);
}

} // verus!

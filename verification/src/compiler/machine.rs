//! The tokenizer as a state machine: five states, one transition function,
//! and the proof that running it yields what the grammar says.

use vstd::prelude::*;
use crate::compiler::grammar::{
    block_comment_item, classify, comment_item, is_delimiter, lemma_after_after,
    lemma_after_nothing, lemma_word_end, line_comment_item, scan_behind, scan_from, symbol_of,
    word_end, word_item, Lexed,
};
use crate::compiler::lexer::{
    check_for_symbol, match_non_symbol_token, CommentToken, LexError, LexErrorView, SymbolToken,
    Token, TokenView,
};

verus! {

/// A state of the tokenizer. `position` counts the characters of the source
/// that have been consumed.
#[derive(Clone, Debug, PartialEq, Eq)]
pub enum ReadState {
    /// Between two items.
    Ready { position: usize },
    /// Inside a word, of which `current_value` has been read.
    Building { position: usize, current_value: String },
    /// Behind an item whose token has not been handed out yet.
    Done { position: usize, token: Token },
    /// Inside a comment; `PendingComment` right behind the comment marker.
    HandlingComment { position: usize, comment_value: CommentToken },
    /// At the end of the text.
    Exit,
}

/// A state as a mathematical value: positions are integers, texts are
/// sequences of characters.
pub enum ReadStateView {
    Ready { position: int },
    Building { position: int, current_value: Seq<char> },
    Done { position: int, token: TokenView },
    HandlingComment { position: int, comment_value: CommentToken },
    Exit,
}

impl View for ReadState {
    type V = ReadStateView;

    open spec fn view(&self) -> ReadStateView {
        match self {
            ReadState::Ready { position } => ReadStateView::Ready { position: *position as int },
            ReadState::Building { position, current_value } => ReadStateView::Building {
                position: *position as int,
                current_value: current_value@,
            },
            ReadState::Done { position, token } => ReadStateView::Done {
                position: *position as int,
                token: token@,
            },
            ReadState::HandlingComment { position, comment_value } => {
                ReadStateView::HandlingComment {
                    position: *position as int,
                    comment_value: *comment_value,
                }
            },
            ReadState::Exit => ReadStateView::Exit,
        }
    }
}

/// What one step makes of a state.
pub enum Transition {
    Next(ReadStateView),
    Rejected(LexErrorView),
    Malformed,
}

impl ReadStateView {
    /// The state lies inside the text: its position is not behind the end.
    pub open spec fn within(self, source: Seq<char>) -> bool {
        match self {
            ReadStateView::Ready { position } => 0 <= position <= source.len(),
            ReadStateView::Building { position, .. } => 0 <= position <= source.len(),
            ReadStateView::Done { position, .. } => 0 <= position <= source.len(),
            ReadStateView::HandlingComment { position, .. } => 0 <= position <= source.len(),
            ReadStateView::Exit => true,
        }
    }

    /// The tokens that leaving this state appends to the output.
    pub open spec fn emitted(self) -> Seq<TokenView> {
        match self {
            ReadStateView::Done { token, .. } => seq![token],
            _ => Seq::empty(),
        }
    }

    /// The transition table.
    pub open spec fn transition(self, source: Seq<char>) -> Transition {
        match self {
            ReadStateView::Ready { position } => {
                if position >= source.len() {
                    Transition::Next(ReadStateView::Exit)
                } else {
                    match symbol_of(source[position]) {
                        Some(SymbolToken::CommentSymbol) => Transition::Next(
                            ReadStateView::HandlingComment {
                                position: position + 1,
                                comment_value: CommentToken::PendingComment,
                            },
                        ),
                        Some(symbol) => Transition::Next(
                            ReadStateView::Done {
                                position: position + 1,
                                token: TokenView::Symbol(symbol),
                            },
                        ),
                        None => Transition::Next(
                            ReadStateView::Building {
                                position: position + 1,
                                current_value: seq![source[position]],
                            },
                        ),
                    }
                }
            },
            ReadStateView::Building { position, current_value } => {
                if position >= source.len() || is_delimiter(source[position]) {
                    match classify(current_value) {
                        Ok(token) => Transition::Next(ReadStateView::Done { position, token }),
                        Err(error) => Transition::Rejected(error),
                    }
                } else {
                    Transition::Next(
                        ReadStateView::Building {
                            position: position + 1,
                            current_value: current_value.push(source[position]),
                        },
                    )
                }
            },
            ReadStateView::Done { position, .. } => Transition::Next(
                ReadStateView::Ready { position },
            ),
            ReadStateView::HandlingComment { position, comment_value } => {
                if position >= source.len() {
                    Transition::Rejected(LexErrorView::UnterminatedConstruct(comment_value))
                } else {
                    match comment_value {
                        CommentToken::PendingComment => {
                            if source[position] == '/' {
                                Transition::Next(
                                    ReadStateView::HandlingComment {
                                        position: position + 1,
                                        comment_value: CommentToken::LineComment,
                                    },
                                )
                            } else if source[position] == '*' {
                                Transition::Next(
                                    ReadStateView::HandlingComment {
                                        position: position + 1,
                                        comment_value: CommentToken::BlockComment,
                                    },
                                )
                            } else {
                                Transition::Malformed
                            }
                        },
                        CommentToken::LineComment => {
                            if source[position] == '\n' {
                                Transition::Next(
                                    ReadStateView::Done {
                                        position: position + 1,
                                        token: TokenView::Comment(CommentToken::LineComment),
                                    },
                                )
                            } else {
                                Transition::Next(
                                    ReadStateView::HandlingComment {
                                        position: position + 1,
                                        comment_value: CommentToken::LineComment,
                                    },
                                )
                            }
                        },
                        CommentToken::BlockComment => {
                            if source[position] == '*' && position + 1 < source.len()
                                && source[position + 1] == '/' {
                                Transition::Next(
                                    ReadStateView::Done {
                                        position: position + 2,
                                        token: TokenView::Comment(CommentToken::BlockComment),
                                    },
                                )
                            } else {
                                Transition::Next(
                                    ReadStateView::HandlingComment {
                                        position: position + 1,
                                        comment_value: CommentToken::BlockComment,
                                    },
                                )
                            }
                        },
                    }
                }
            },
            ReadStateView::Exit => Transition::Next(ReadStateView::Exit),
        }
    }

    /// What the grammar says of the text that this state has still to read,
    /// together with what the state already holds of it.
    pub open spec fn outcome(self, source: Seq<char>) -> Lexed {
        match self {
            ReadStateView::Ready { position } => scan_from(source, position),
            ReadStateView::Building { position, current_value } => scan_behind(
                source,
                word_item(source, current_value, position),
            ),
            ReadStateView::Done { position, token } => scan_from(source, position).after(
                seq![token],
            ),
            ReadStateView::HandlingComment { position, comment_value } => scan_behind(
                source,
                match comment_value {
                    CommentToken::PendingComment => comment_item(source, position),
                    CommentToken::LineComment => line_comment_item(source, position),
                    CommentToken::BlockComment => block_comment_item(source, position),
                },
            ),
            ReadStateView::Exit => Lexed::Tokens(Seq::empty()),
        }
    }

    /// A bound on the number of steps from this state to `Exit`.
    pub open spec fn steps_left(self, source: Seq<char>) -> int {
        match self {
            ReadStateView::Ready { position } => 3 * (source.len() - position) + 1,
            ReadStateView::Building { position, .. } => 3 * (source.len() - position) + 3,
            ReadStateView::Done { position, .. } => 3 * (source.len() - position) + 2,
            ReadStateView::HandlingComment { position, .. } => 3 * (source.len() - position) + 3,
            ReadStateView::Exit => 0,
        }
    }
}

/// The view of what [`step`] returns.
pub open spec fn stepped(result: Result<ReadState, LexError>) -> Transition {
    match result {
        Ok(state) => Transition::Next(state@),
        Err(error) => Transition::Rejected(error@),
    }
}

/// Whether the state stands behind a comment marker that neither `/` nor `*`
/// follows: the one state that has no step.
pub fn is_malformed(source: &[char], state: &ReadState) -> (malformed: bool)
    ensures
        malformed == (state@.transition(source@) is Malformed),
{
    match state {
        ReadState::HandlingComment { position, comment_value: CommentToken::PendingComment } => {
            *position < source.len() && source[*position] != '/' && source[*position] != '*'
        },
        _ => false,
    }
}

/// One step of the tokenizer: the next state, or the error that ends the
/// run. Leaving `Done` hands its token out by appending it to `tokens`.
pub fn step(source: &[char], state: ReadState, tokens: &mut Vec<Token>) -> (next: Result<
    ReadState,
    LexError,
>)
    requires
        !(state@.transition(source@) is Malformed),
    ensures
        stepped(next) == state@.transition(source@),
        final(tokens).deep_view() == old(tokens).deep_view() + state@.emitted(),
{
    match state {
        ReadState::Ready { position } => {
            if position >= source.len() {
                return Ok(ReadState::Exit);
            }
            let ch = source[position];
            match check_for_symbol(ch) {
                Some(SymbolToken::CommentSymbol) => Ok(
                    ReadState::HandlingComment {
                        position: position + 1,
                        comment_value: CommentToken::PendingComment,
                    },
                ),
                Some(symbol) => Ok(
                    ReadState::Done { position: position + 1, token: Token::Symbol(symbol) },
                ),
                None => {
                    let mut current_value = String::new();
                    current_value.push(ch);
                    Ok(ReadState::Building { position: position + 1, current_value })
                },
            }
        },
        ReadState::Building { position, current_value } => {
            if position >= source.len() || check_for_symbol(source[position]).is_some() {
                match match_non_symbol_token(current_value) {
                    Ok(token) => Ok(ReadState::Done { position, token }),
                    Err(error) => Err(error),
                }
            } else {
                let mut current_value = current_value;
                current_value.push(source[position]);
                Ok(ReadState::Building { position: position + 1, current_value })
            }
        },
        ReadState::Done { position, token } => {
            tokens.push(token);
            Ok(ReadState::Ready { position })
        },
        ReadState::HandlingComment { position, comment_value } => {
            if position >= source.len() {
                return Err(LexError::UnterminatedConstruct(comment_value));
            }
            let ch = source[position];
            match comment_value {
                CommentToken::PendingComment => {
                    let comment_value = if ch == '/' {
                        CommentToken::LineComment
                    } else {
                        CommentToken::BlockComment
                    };
                    Ok(ReadState::HandlingComment { position: position + 1, comment_value })
                },
                CommentToken::LineComment => {
                    if ch == '\n' {
                        Ok(
                            ReadState::Done {
                                position: position + 1,
                                token: Token::Comment(CommentToken::LineComment),
                            },
                        )
                    } else {
                        Ok(ReadState::HandlingComment { position: position + 1, comment_value })
                    }
                },
                CommentToken::BlockComment => {
                    if ch == '*' && position + 1 < source.len() && source[position + 1] == '/' {
                        Ok(
                            ReadState::Done {
                                position: position + 2,
                                token: Token::Comment(CommentToken::BlockComment),
                            },
                        )
                    } else {
                        Ok(ReadState::HandlingComment { position: position + 1, comment_value })
                    }
                },
            }
        },
        ReadState::Exit => Ok(ReadState::Exit),
    }
}

/// How a run of the tokenizer ended.
pub(crate) enum Run {
    Finished(Vec<Token>),
    Failed(LexError),
    Malformed,
}

impl Run {
    pub(crate) open spec fn lexed(self) -> Lexed {
        match self {
            Run::Finished(tokens) => Lexed::Tokens(tokens.deep_view()),
            Run::Failed(error) => Lexed::Rejected(error@),
            Run::Malformed => Lexed::Malformed,
        }
    }
}

/// Runs the tokenizer over `source` from `Ready` at position 0 until it
/// reaches `Exit`, fails, or stands in the state that has no step. The
/// tokens are appended to `vec`.
pub(crate) fn run(source: &[char], vec: Vec<Token>) -> (ended: Run)
    ensures
        ended.lexed() == scan_from(source@, 0).after(vec.deep_view()),
{
    let mut tokens = vec;
    let mut state = ReadState::Ready { position: 0 };
    loop
        invariant
            state@.within(source@),
            state@.outcome(source@).after(tokens.deep_view()) == scan_from(source@, 0).after(
                vec.deep_view(),
            ),
        decreases state@.steps_left(source@),
    {
        proof {
            lemma_transition(source@, state@);
        }
        if let ReadState::Exit = state {
            return Run::Finished(tokens);
        }
        if is_malformed(source, &state) {
            return Run::Malformed;
        }
        let ghost before = state@;
        let ghost earlier = tokens.deep_view();
        match step(source, state, &mut tokens) {
            Ok(next) => {
                proof {
                    lemma_after_after(next@.outcome(source@), earlier, before.emitted());
                }
                state = next;
            },
            Err(error) => {
                return Run::Failed(error);
            },
        }
    }
}

/// A step keeps the state inside the text, brings it nearer to `Exit`, and
/// does not change the outcome: what the state promised before the step is
/// what it hands out in the step and promises after it.
pub proof fn lemma_transition(source: Seq<char>, state: ReadStateView)
    requires
        state.within(source),
    ensures
        state.transition(source) matches Transition::Next(next) ==> next.within(source),
        state.transition(source) matches Transition::Next(next) ==> state.outcome(source)
            == next.outcome(source).after(state.emitted()),
        state.transition(source) matches Transition::Next(next) ==> (state != ReadStateView::Exit
            ==> 0 <= next.steps_left(source) < state.steps_left(source)),
        state.transition(source) matches Transition::Rejected(error) ==> state.outcome(source)
            == Lexed::Rejected(error),
        state.transition(source) is Malformed ==> state.outcome(source) == Lexed::Malformed,
{
    if let Transition::Next(next) = state.transition(source) {
        lemma_after_nothing(next.outcome(source));
    }
    if let ReadStateView::Building { position, current_value } = state {
        lemma_word_end(source, position);
        if position < source.len() && !is_delimiter(source[position]) {
            // The character that is read now is the first of those that
            // were still to be read.
            let end = word_end(source, position);
            lemma_word_end(source, position + 1);
            assert(current_value + source.subrange(position, end) == current_value.push(
                source[position],
            ) + source.subrange(position + 1, end));
        } else {
            assert(current_value + source.subrange(position, position) == current_value);
        }
    }
}

} // verus!

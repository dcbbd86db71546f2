//! A command line as positioned words, with a cursor.

use vstd::prelude::*;
use vstd::utf8::encode_utf8;
use vstd::string::*;
use crate::scan::{first, first_from, lemma_first_from};
use crate::text::{find_bytes, find_from, lemma_find_from, occurs_at, starts_with};

verus! {

/// One word of a command line: its text after quote removal, and the byte
/// offsets `[start, end)` at which it was located in the line.
#[derive(Debug)]
pub struct Token {
    pub text: String,
    pub start: usize,
    pub end: usize,
}

/// The mathematical value of a [`Token`].
pub struct TokenView {
    pub text: Seq<char>,
    pub start: int,
    pub end: int,
}

/// No token ends before it starts, and none starts before an earlier one has
/// ended.
pub open spec fn well_ordered(tokens: Seq<TokenView>) -> bool {
    &&& forall|i: int| 0 <= i < tokens.len() ==> 0 <= (#[trigger] tokens[i]).start <= tokens[i].end
    &&& forall|i: int, j: int|
        0 <= i < j < tokens.len() ==> (#[trigger] tokens[i]).end <= (#[trigger] tokens[j]).start
}

impl TokenView {
    /// The offset `pos` lies in the inclusive span `[start, end]`.
    pub open spec fn spans(self, pos: int) -> bool {
        self.start <= pos <= self.end
    }
}

impl View for Token {
    type V = TokenView;

    open spec fn view(&self) -> TokenView {
        TokenView { text: self.text@, start: self.start as int, end: self.end as int }
    }
}

impl Clone for Token {
    fn clone(&self) -> (r: Token)
        ensures
            r@ == self@,
    {
        Token { text: self.text.clone(), start: self.start, end: self.end }
    }
}

/// The words of a command line in order, and the cursor's byte offset.
#[derive(Debug)]
pub struct Tokens {
    tokens: Vec<Token>,
    cursor_pos: usize,
}

/// The mathematical value of a [`Tokens`].
pub struct TokensView {
    pub tokens: Seq<TokenView>,
    pub cursor_pos: int,
}

impl TokensView {
    /// Spans are well-ordered: no token ends before it starts, and none
    /// starts before an earlier one has ended.
    pub open spec fn well_formed(self) -> bool {
        well_ordered(self.tokens)
    }

    /// The index of the first token whose inclusive span holds the cursor.
    pub open spec fn current_index(self) -> Option<int> {
        first(self.tokens, |t: TokenView| t.spans(self.cursor_pos))
    }

    /// The index of the first token whose text begins with `prefix`.
    pub open spec fn index_starting_with(self, prefix: Seq<char>) -> Option<int> {
        first(self.tokens, |t: TokenView| prefix.is_prefix_of(t.text))
    }
}

/// The values of a list of tokens.
pub open spec fn token_views(tokens: Seq<Token>) -> Seq<TokenView> {
    tokens.map_values(|t: Token| t@)
}

impl View for Tokens {
    type V = TokensView;

    closed spec fn view(&self) -> TokensView {
        TokensView {
            tokens: token_views(self.tokens@),
            cursor_pos: self.cursor_pos as int,
        }
    }
}

/// The words that `shell_words::split` makes of a line, `None` where it
/// reports an unmatched quote.
pub uninterp spec fn shell_split(line: Seq<char>) -> Option<Seq<Seq<char>>>;

/// `shell_words::ParseError`, the error of `shell_words::split`: it says
/// that a quote is not closed, and holds nothing.
#[verifier::external_type_specification]
#[verifier::external_body]
pub struct ExParseError(shell_words::ParseError);

/// `shell_words::split` is a function of the line alone: it walks the line's
/// characters through a fixed state machine and either returns the words or
/// reports an unmatched quote. Its result is named `shell_split`.
pub assume_specification[ shell_words::split ](s: &str) -> (r: Result<
    Vec<String>,
    shell_words::ParseError,
>)
    ensures
        match r {
            Ok(words) => shell_split(s@) == Some(words.deep_view()),
            Err(_) => shell_split(s@) is None,
        },
;

/// The words of a line; none where the line has an unmatched quote.
pub open spec fn words_of(line: Seq<char>) -> Seq<Seq<char>> {
    match shell_split(line) {
        Some(words) => words,
        None => Seq::empty(),
    }
}

/// The span given to `word` when the search for it in `line` starts at
/// `from`: its first occurrence there, or the empty span at `from` when it
/// does not occur.
pub open spec fn locate(line: Seq<u8>, word: Seq<u8>, from: int) -> (int, int) {
    match find_from(line, word, from) {
        Some(at) => (at, at + word.len()),
        None => (from, from),
    }
}

/// The tokens of `line` for the given words: each word is located in the
/// line's bytes from the end of the token before it.
pub open spec fn layout(line: Seq<char>, words: Seq<Seq<char>>) -> Seq<TokenView>
    decreases words.len(),
{
    if words.len() == 0 {
        Seq::empty()
    } else {
        let before = layout(line, words.drop_last());
        let from = layout_end(before);
        let span = locate(encode_utf8(line), encode_utf8(words.last()), from);
        before.push(TokenView { text: words.last(), start: span.0, end: span.1 })
    }
}

/// The end of the last token, 0 where there is none.
pub open spec fn layout_end(tokens: Seq<TokenView>) -> int {
    if tokens.len() == 0 {
        0
    } else {
        tokens.last().end
    }
}

/// The tokenized line: the layout of its shell words, and the cursor.
pub open spec fn tokenize(line: Seq<char>, cursor_pos: int) -> TokensView {
    TokensView { tokens: layout(line, words_of(line)), cursor_pos }
}

/// A token is placed in the line: at its span the line holds the bytes of
/// its text, or its span is empty.
pub open spec fn placed(line: Seq<char>, token: TokenView) -> bool {
    ||| token.start == token.end
    ||| occurs_at(encode_utf8(line), encode_utf8(token.text), token.start) && token.end
        == token.start + encode_utf8(token.text).len()
}

/// The layout keeps the words as the tokens' texts, in order, and places
/// them in the line: every span lies within the line and holds the bytes of
/// its word or is empty, no token ends before it starts, and the tokens are
/// ordered by `start` without overlap.
pub proof fn lemma_layout(line: Seq<char>, words: Seq<Seq<char>>)
    ensures
        layout(line, words).len() == words.len(),
        forall|i: int| 0 <= i < words.len() ==> (#[trigger] layout(line, words)[i]).text == words[i],
        forall|i: int|
            0 <= i < words.len() ==> (#[trigger] layout(line, words)[i]).end <= encode_utf8(
                line,
            ).len(),
        forall|i: int, j: int|
            0 <= i < j < words.len() ==> (#[trigger] layout(line, words)[i]).start <= (
            #[trigger] layout(line, words)[j]).start,
        forall|i: int|
            0 <= i < words.len() ==> placed(line, #[trigger] layout(line, words)[i]),
        well_ordered(layout(line, words)),
        0 <= layout_end(layout(line, words)) <= encode_utf8(line).len(),
    decreases words.len(),
{
    if words.len() > 0 {
        let before = layout(line, words.drop_last());
        lemma_layout(line, words.drop_last());
        let from = layout_end(before);
        lemma_find_from(encode_utf8(line), encode_utf8(words.last()), from);
        let all = layout(line, words);
        let n = words.len() as int;
        assert(before.len() == n - 1);
        assert(all.len() == n);
        assert(from <= all[n - 1].start <= all[n - 1].end <= encode_utf8(line).len());
        assert forall|i: int| 0 <= i < n - 1 implies #[trigger] all[i] == before[i] && before[i].end
            <= from by {
            if i < n - 2 {
                assert(before[i].end <= before[n - 2].start);
            }
        }
        assert forall|i: int, j: int| 0 <= i < j < n implies (#[trigger] all[i]).end <= (
        #[trigger] all[j]).start by {
            assert(all[i] == before[i]);
            if j < n - 1 {
                assert(all[j] == before[j]);
            }
        }
        assert forall|i: int| 0 <= i < n implies (#[trigger] all[i]).text == words[i] by {
            if i < n - 1 {
                assert(all[i] == before[i]);
                assert(words.drop_last()[i] == words[i]);
            }
        }
        assert forall|i: int| 0 <= i < n implies 0 <= (#[trigger] all[i]).start <= all[i].end
            <= encode_utf8(line).len() by {
            if i < n - 1 {
                assert(all[i] == before[i]);
            }
        }
        assert forall|i: int| 0 <= i < n implies placed(line, #[trigger] all[i]) by {
            if i < n - 1 {
                assert(all[i] == before[i]);
            }
        }
    }
}

impl Tokens {
    /// Places the given words in `line`.
    pub fn from_words(line: &str, words: &Vec<String>, cursor_pos: usize) -> (r: Tokens)
        ensures
            r@ == (TokensView {
                tokens: layout(line@, words.deep_view()),
                cursor_pos: cursor_pos as int,
            }),
            r@.well_formed(),
    {
        let bytes = line.as_bytes();
        let total = bytes.len();
        let mut tokens: Vec<Token> = Vec::new();
        let mut current_pos: usize = 0;
        let ghost all = words.deep_view();
        let mut i: usize = 0;
        assert(all.take(0) =~= Seq::<Seq<char>>::empty());
        while i < words.len()
            invariant
                i <= words.len(),
                all == words.deep_view(),
                bytes@ == encode_utf8(line@),
                total == bytes@.len(),
                tokens@.map_values(|t: Token| t@) == layout(line@, all.take(i as int)),
                current_pos == layout_end(layout(line@, all.take(i as int))),
            decreases words.len() - i,
        {
            let word = &words[i];
            let word_bytes = word.as_str().as_bytes();
            proof {
                assert(all.take(i + 1).drop_last() =~= all.take(i as int));
                assert(all.take(i + 1).last() == word@);
                lemma_layout(line@, all.take(i as int));
                lemma_find_from(bytes@, word_bytes@, current_pos as int);
            }
            let (start, end) = match find_bytes(bytes, word_bytes, current_pos) {
                Some(at) => {
                    assert(occurs_at(bytes@, word_bytes@, at as int));
                    (at, at + word_bytes.len())
                },
                None => (current_pos, current_pos),
            };
            let ghost before = tokens@.map_values(|t: Token| t@);
            let token = Token { text: word.clone(), start, end };
            tokens.push(token);
            proof {
                assert(tokens@.map_values(|t: Token| t@) =~= before.push(token@));
            }
            current_pos = end;
            i = i + 1;
        }
        proof {
            assert(all.take(i as int) =~= all);
            lemma_layout(line@, all);
        }
        Tokens { tokens, cursor_pos }
    }

    /// Splits `line` into shell words and places each in the line. A line
    /// with an unmatched quote has no tokens.
    pub fn new(line: &str, cursor_pos: usize) -> (r: Tokens)
        ensures
            r@ == tokenize(line@, cursor_pos as int),
            r@.well_formed(),
    {
        let words = match shell_words::split(line) {
            Ok(words) => words,
            Err(_) => Vec::new(),
        };
        assert(words.deep_view() =~= words_of(line@));
        Tokens::from_words(line, &words, cursor_pos)
    }

    /// The tokens, in order.
    pub fn tokens(&self) -> (r: &Vec<Token>)
        ensures
            token_views(r@) == self@.tokens,
    {
        &self.tokens
    }

    /// The byte offset of the cursor.
    pub fn cursor_pos(&self) -> (r: usize)
        ensures
            r == self@.cursor_pos,
    {
        self.cursor_pos
    }

    /// The first token whose inclusive span `[start, end]` holds the cursor.
    pub fn current_token(&self) -> (r: Option<&Token>)
        ensures
            match r {
                Some(t) => self@.current_index() matches Some(i) && self@.tokens[i] == t@,
                None => self@.current_index() is None,
            },
    {
        let ghost p = |t: TokenView| t.spans(self@.cursor_pos);
        let mut i: usize = 0;
        while i < self.tokens.len()
            invariant
                i <= self.tokens.len(),
                p == |t: TokenView| t.spans(self@.cursor_pos),
                first(self@.tokens, p) == first_from(self@.tokens, p, i as int),
            decreases self.tokens.len() - i,
        {
            let token = &self.tokens[i];
            if self.cursor_pos >= token.start && self.cursor_pos <= token.end {
                return Some(token);
            }
            i = i + 1;
        }
        None
    }

    /// The first token whose text begins with `prefix`.
    pub fn find_token_starting_with(&self, prefix: &str) -> (r: Option<&Token>)
        ensures
            match r {
                Some(t) => self@.index_starting_with(prefix@) matches Some(i) && self@.tokens[i]
                    == t@,
                None => self@.index_starting_with(prefix@) is None,
            },
    {
        let ghost p = |t: TokenView| prefix@.is_prefix_of(t.text);
        let mut i: usize = 0;
        while i < self.tokens.len()
            invariant
                i <= self.tokens.len(),
                p == |t: TokenView| prefix@.is_prefix_of(t.text),
                first(self@.tokens, p) == first_from(self@.tokens, p, i as int),
            decreases self.tokens.len() - i,
        {
            let token = &self.tokens[i];
            if starts_with(token.text.as_str(), prefix) {
                return Some(token);
            }
            i = i + 1;
        }
        None
    }

    /// Whether some token's text begins with `prefix`.
    pub fn has_token_starting_with(&self, prefix: &str) -> (r: bool)
        ensures
            r == self@.index_starting_with(prefix@) is Some,
            r == exists|i: int|
                0 <= i < self@.tokens.len() && prefix@.is_prefix_of((#[trigger] self@.tokens[i]).text),
    {
        proof {
            lemma_first_from(self@.tokens, |t: TokenView| prefix@.is_prefix_of(t.text), 0);
        }
        self.find_token_starting_with(prefix).is_some()
    }
}

/// The tokens of a line are its shell words, in order, each with a span
/// that lies in the line and holds the bytes of the word or is empty; no
/// token ends before it starts, and the tokens are ordered by `start`
/// without overlap.
pub proof fn lemma_tokenize(line: Seq<char>, cursor_pos: int)
    ensures
        tokenize(line, cursor_pos).tokens.len() == words_of(line).len(),
        forall|i: int|
            0 <= i < words_of(line).len() ==> (#[trigger] tokenize(line, cursor_pos).tokens[i]).text
                == words_of(line)[i],
        forall|i: int|
            0 <= i < words_of(line).len() ==> 0 <= (#[trigger] tokenize(
                line,
                cursor_pos,
            ).tokens[i]).start <= tokenize(line, cursor_pos).tokens[i].end <= encode_utf8(
                line,
            ).len(),
        forall|i: int, j: int|
            0 <= i < j < words_of(line).len() ==> (#[trigger] tokenize(
                line,
                cursor_pos,
            ).tokens[i]).start <= (#[trigger] tokenize(line, cursor_pos).tokens[j]).start,
        forall|i: int|
            0 <= i < words_of(line).len() ==> placed(
                line,
                #[trigger] tokenize(line, cursor_pos).tokens[i],
            ),
        tokenize(line, cursor_pos).well_formed(),
{
    lemma_layout(line, words_of(line));
}

/// A token is returned for the cursor exactly when the cursor lies in some
/// token's inclusive span.
pub proof fn lemma_current_token_iff(tokens: TokensView)
    ensures
        tokens.current_index() is Some <==> exists|i: int|
            0 <= i < tokens.tokens.len() && (#[trigger] tokens.tokens[i]).spans(tokens.cursor_pos),
{
    lemma_first_from(tokens.tokens, |t: TokenView| t.spans(tokens.cursor_pos), 0);
}

/// In a well-formed line two different tokens hold the cursor only where
/// the earlier one ends at the cursor and the later one starts there.
pub proof fn lemma_cursor_in_two_tokens(tokens: TokensView, i: int, j: int)
    requires
        tokens.well_formed(),
        0 <= i < j < tokens.tokens.len(),
        tokens.tokens[i].spans(tokens.cursor_pos),
        tokens.tokens[j].spans(tokens.cursor_pos),
    ensures
        tokens.tokens[i].end == tokens.cursor_pos,
        tokens.tokens[j].start == tokens.cursor_pos,
{
}

/// Where every token ends before the next one starts, at most one token
/// holds the cursor.
pub proof fn lemma_current_token_unique(tokens: TokensView)
    requires
        tokens.well_formed(),
        forall|a: int, b: int|
            0 <= a < b < tokens.tokens.len() ==> (#[trigger] tokens.tokens[a]).end < (
            #[trigger] tokens.tokens[b]).start,
    ensures
        forall|i: int, j: int|
            0 <= i < tokens.tokens.len() && 0 <= j < tokens.tokens.len() && (
            #[trigger] tokens.tokens[i]).spans(tokens.cursor_pos) && (#[trigger] tokens.tokens[j]).spans(
                tokens.cursor_pos,
            ) ==> i == j,
{
    assert forall|i: int, j: int|
        0 <= i < tokens.tokens.len() && 0 <= j < tokens.tokens.len() && (
        #[trigger] tokens.tokens[i]).spans(tokens.cursor_pos) && (#[trigger] tokens.tokens[j]).spans(
            tokens.cursor_pos,
        ) implies i == j by {
        if i < j {
            lemma_cursor_in_two_tokens(tokens, i, j);
        } else if j < i {
            lemma_cursor_in_two_tokens(tokens, j, i);
        }
    }
}

} // verus!

use vstd::prelude::*;
use vstd::string::StrSliceExecFns;
use crate::text::chars_of;

verus! {

/// Whether a byte is an ASCII letter or digit.
pub open spec fn is_alphanumeric(byte: int) -> bool {
    (0x41 <= byte <= 0x5A) || (0x61 <= byte <= 0x7A) || (0x30 <= byte <= 0x39)
}

/// Whether a character can stand in an unquoted word: its lowest byte is
/// an ASCII letter or digit, or it is one of `.`, `:`, `/`, `-` and `_`.
pub open spec fn is_word_char(c: char) -> bool {
    is_alphanumeric((c as u32 % 256) as int) || c == '.' || c == ':' || c == '/' || c == '-' || c
        == '_'
}

/// Whether a character separates words: a blank, a tab, a carriage return
/// or a line feed.
pub open spec fn is_space(c: char) -> bool {
    c == ' ' || c == '\t' || c == '\r' || c == '\n'
}

/// End of the longest run of word characters that starts at `i`.
pub open spec fn word_end(s: Seq<char>, i: int) -> int
    decreases s.len() - i,
{
    if 0 <= i < s.len() && is_word_char(s[i]) {
        word_end(s, i + 1)
    } else {
        i
    }
}

/// End of the longest run of separators that starts at `i`.
pub open spec fn space_end(s: Seq<char>, i: int) -> int
    decreases s.len() - i,
{
    if 0 <= i < s.len() && is_space(s[i]) {
        space_end(s, i + 1)
    } else {
        i
    }
}

/// Place of the quote that closes a quoted string whose body is read from
/// `i` on. In the body a backslash must be followed by the quote, which it
/// escapes; there is no closing quote when the input ends first.
pub open spec fn quote_end(s: Seq<char>, i: int, quote: char) -> Option<int>
    decreases s.len() - i,
{
    if i < 0 || i >= s.len() {
        None
    } else if s[i] == quote {
        Some(i)
    } else if s[i] == '\\' {
        if i + 1 < s.len() && s[i + 1] == quote {
            quote_end(s, i + 2, quote)
        } else {
            None
        }
    } else {
        quote_end(s, i + 1, quote)
    }
}

/// A word of the command line: its characters lie from `start` up to
/// `end`, and what follows it begins at `next`.
pub struct Token {
    pub start: int,
    pub end: int,
    pub next: int,
}

/// The word that begins at `i`: a run of word characters, or a string in
/// double or single quotes that is not empty, taken without its quotes and
/// with its escapes as they stand.
pub open spec fn element(s: Seq<char>, i: int) -> Option<Token> {
    if 0 <= i < s.len() && is_word_char(s[i]) {
        Some(Token { start: i, end: word_end(s, i), next: word_end(s, i) })
    } else if 0 <= i < s.len() && (s[i] == '"' || s[i] == '\'') {
        match quote_end(s, i + 1, s[i]) {
            Some(close) => if close > i + 1 {
                Some(Token { start: i + 1, end: close, next: close + 1 })
            } else {
                None
            },
            None => None,
        }
    } else {
        None
    }
}

/// A parsed command line: its words, and the place where parsing stopped.
pub struct Words {
    pub tokens: Seq<Token>,
    pub stop: int,
}

/// The words that follow a word which ended at `from`: each after at least
/// one separator. Parsing stops before the first separator that no word
/// follows.
pub open spec fn more_words(s: Seq<char>, from: int) -> Words
    decreases s.len() - from,
{
    let after = space_end(s, from);
    if after == from {
        Words { tokens: Seq::empty(), stop: from }
    } else {
        match element(s, after) {
            None => Words { tokens: Seq::empty(), stop: from },
            Some(token) => if from < token.next <= s.len() {
                let rest = more_words(s, token.next);
                Words { tokens: seq![token] + rest.tokens, stop: rest.stop }
            } else {
                Words { tokens: Seq::empty(), stop: from }
            },
        }
    }
}

/// The words of a command line, separated by white space.
pub open spec fn words(s: Seq<char>) -> Words {
    match element(s, 0) {
        None => Words { tokens: Seq::empty(), stop: 0 },
        Some(token) => {
            let rest = more_words(s, token.next);
            Words { tokens: seq![token] + rest.tokens, stop: rest.stop }
        },
    }
}

/// The words of a command line as text.
pub open spec fn word_texts(s: Seq<char>) -> Seq<Seq<char>> {
    Seq::new(words(s).tokens.len(), |k: int| s.subrange(words(s).tokens[k].start, words(s).tokens[k].end))
}

/// What of a command line was not parsed.
pub open spec fn leftover(s: Seq<char>) -> Seq<char> {
    s.subrange(words(s).stop, s.len() as int)
}

/// A run of word characters ends at or after its start, within the input,
/// before a character that is no word character.
proof fn lemma_word_end(s: Seq<char>, i: int)
    requires
        0 <= i <= s.len(),
    ensures
        i <= word_end(s, i) <= s.len(),
        i < s.len() && is_word_char(s[i]) ==> i < word_end(s, i),
        forall|k: int| i <= k < word_end(s, i) ==> is_word_char(s[k]),
        word_end(s, i) < s.len() ==> !is_word_char(s[word_end(s, i)]),
    decreases s.len() - i,
{
    if i < s.len() && is_word_char(s[i]) {
        lemma_word_end(s, i + 1);
    }
}

/// A closing quote lies at or after the place the body is read from, and
/// is the quote.
proof fn lemma_quote_end(s: Seq<char>, i: int, quote: char)
    requires
        0 <= i <= s.len(),
    ensures
        quote_end(s, i, quote) is Some ==> i <= quote_end(s, i, quote).unwrap() < s.len() && s[quote_end(
            s,
            i,
            quote,
        ).unwrap()] == quote,
    decreases s.len() - i,
{
    if i < s.len() && s[i] != quote {
        if s[i] == '\\' {
            if i + 1 < s.len() && s[i + 1] == quote {
                lemma_quote_end(s, i + 2, quote);
            }
        } else {
            lemma_quote_end(s, i + 1, quote);
        }
    }
}

/// Whether a character can stand in an unquoted word.
pub fn allowed_character(c: char) -> (allowed: bool)
    ensures
        allowed == is_word_char(c),
{
    let byte: u32 = c as u32 % 256;
    (0x41 <= byte && byte <= 0x5A) || (0x61 <= byte && byte <= 0x7A) || (0x30 <= byte && byte
        <= 0x39) || c == '.' || c == ':' || c == '/' || c == '-' || c == '_'
}

/// Whether a character separates words.
pub fn separator(c: char) -> (separates: bool)
    ensures
        separates == is_space(c),
{
    c == ' ' || c == '\t' || c == '\r' || c == '\n'
}

/// Finds the end of the run of word characters that starts at `i`.
fn scan_word(s: &Vec<char>, i: usize) -> (end: usize)
    requires
        i <= s@.len(),
    ensures
        end == word_end(s@, i as int),
        i <= end <= s@.len(),
{
    let mut end: usize = i;
    while end < s.len() && allowed_character(s[end])
        invariant
            i <= end <= s@.len(),
            word_end(s@, i as int) == word_end(s@, end as int),
        decreases s@.len() - end,
    {
        end += 1;
    }
    end
}

/// Finds the end of the run of separators that starts at `i`.
fn scan_space(s: &Vec<char>, i: usize) -> (end: usize)
    requires
        i <= s@.len(),
    ensures
        end == space_end(s@, i as int),
        i <= end <= s@.len(),
{
    let mut end: usize = i;
    while end < s.len() && separator(s[end])
        invariant
            i <= end <= s@.len(),
            space_end(s@, i as int) == space_end(s@, end as int),
        decreases s@.len() - end,
    {
        end += 1;
    }
    end
}

/// Finds the quote that closes a quoted string whose body starts at `i`.
fn scan_quoted(s: &Vec<char>, i: usize, quote: char) -> (close: Option<usize>)
    requires
        i <= s@.len(),
    ensures
        match close {
            Some(close) => quote_end(s@, i as int, quote) == Some(close as int),
            None => quote_end(s@, i as int, quote) is None,
        },
{
    let mut at: usize = i;
    while at < s.len()
        invariant
            i <= at <= s@.len(),
            quote_end(s@, i as int, quote) == quote_end(s@, at as int, quote),
        decreases s@.len() - at,
    {
        let c = s[at];
        if c == quote {
            return Some(at);
        } else if c == '\\' {
            if at + 1 < s.len() && s[at + 1] == quote {
                at += 2;
            } else {
                return None;
            }
        } else {
            at += 1;
        }
    }
    None
}

/// A word found by the parser, as places in the input.
#[derive(Clone, Copy, Debug, PartialEq, Eq, Structural)]
pub struct Span {
    pub start: usize,
    pub end: usize,
    pub next: usize,
}

impl Span {
    /// The word as the grammar describes it.
    pub open spec fn token(self) -> Token {
        Token { start: self.start as int, end: self.end as int, next: self.next as int }
    }
}

/// Reads the word that begins at `i`, if one does.
fn scan_element(s: &Vec<char>, i: usize) -> (found: Option<Span>)
    requires
        i <= s@.len(),
    ensures
        match found {
            Some(span) => element(s@, i as int) == Some(span.token()) && i <= span.start < span.end
                <= span.next <= s@.len(),
            None => element(s@, i as int) is None,
        },
{
    if i >= s.len() {
        return None;
    }
    let c = s[i];
    if allowed_character(c) {
        let end = scan_word(s, i);
        proof {
            lemma_word_end(s@, i as int);
        }
        Some(Span { start: i, end, next: end })
    } else if c == '"' || c == '\'' {
        match scan_quoted(s, i + 1, c) {
            Some(close) => {
                proof {
                    lemma_quote_end(s@, i + 1, c);
                }
                if close > i + 1 {
                    Some(Span { start: i + 1, end: close, next: close + 1 })
                } else {
                    None
                }
            },
            None => None,
        }
    } else {
        None
    }
}

/// The places of the words of a command line, and the place where parsing
/// stopped.
pub fn scan_words(s: &Vec<char>) -> (found: (Vec<Span>, usize))
    ensures
        found.0@.len() == words(s@).tokens.len(),
        forall|k: int| 0 <= k < found.0@.len() ==> (#[trigger] found.0@[k]).token() == words(s@).tokens[k],
        forall|k: int|
            0 <= k < found.0@.len() ==> (#[trigger] found.0@[k]).start < found.0@[k].end <= s@.len(),
        found.1 == words(s@).stop,
        found.1 <= s@.len(),
{
    let mut spans: Vec<Span> = Vec::new();
    let first = match scan_element(s, 0) {
        Some(first) => first,
        None => {
            return (spans, 0);
        },
    };
    spans.push(first);
    let mut at: usize = first.next;
    let ghost mut done: Seq<Token> = seq![first.token()];
    loop
        invariant
            at <= s@.len(),
            spans@.len() == done.len(),
            forall|k: int| 0 <= k < spans@.len() ==> (#[trigger] spans@[k]).token() == done[k],
            forall|k: int| 0 <= k < spans@.len() ==> (#[trigger] spans@[k]).start < spans@[k].end <= s@.len(),
            words(s@).tokens == done + more_words(s@, at as int).tokens,
            words(s@).stop == more_words(s@, at as int).stop,
        ensures
            spans@.len() == words(s@).tokens.len(),
            forall|k: int| 0 <= k < spans@.len() ==> (#[trigger] spans@[k]).token() == words(s@).tokens[k],
            forall|k: int| 0 <= k < spans@.len() ==> (#[trigger] spans@[k]).start < spans@[k].end <= s@.len(),
            at == words(s@).stop,
            at <= s@.len(),
        decreases s@.len() - at,
    {
        let after = scan_space(s, at);
        if after == at {
            assert(done + Seq::<Token>::empty() =~= done);
            break ;
        }
        match scan_element(s, after) {
            None => {
                assert(done + Seq::<Token>::empty() =~= done);
                break ;
            },
            Some(span) => {
                proof {
                    let rest = more_words(s@, span.next as int);
                    assert(done + (seq![span.token()] + rest.tokens) =~= done.push(span.token())
                        + rest.tokens);
                    done = done.push(span.token());
                }
                spans.push(span);
                at = span.next;
            },
        }
    }
    (spans, at)
}

/// Splits a command line into its words: runs of word characters and
/// quoted strings, separated by white space. Returns what was not parsed
/// and the words; a word in quotes comes without its quotes.
pub fn parse_command_line<'a>(input: &'a str) -> (parsed: (&'a str, Vec<&'a str>))
    ensures
        parsed.0@ == leftover(input@),
        parsed.1@.len() == word_texts(input@).len(),
        forall|k: int| 0 <= k < parsed.1@.len() ==> (#[trigger] parsed.1@[k])@ == word_texts(input@)[k],
{
    let chars = chars_of(input);
    let (spans, stop) = scan_words(&chars);
    let mut found: Vec<&'a str> = Vec::new();
    let mut k: usize = 0;
    while k < spans.len()
        invariant
            k <= spans@.len(),
            chars@ == input@,
            spans@.len() == words(input@).tokens.len(),
            forall|j: int| 0 <= j < spans@.len() ==> (#[trigger] spans@[j]).token() == words(input@).tokens[j],
            forall|j: int| 0 <= j < spans@.len() ==> (#[trigger] spans@[j]).start < spans@[j].end <= input@.len(),
            found@.len() == k,
            forall|j: int| 0 <= j < k ==> (#[trigger] found@[j])@ == word_texts(input@)[j],
        decreases spans@.len() - k,
    {
        let span = spans[k];
        found.push(input.substring_char(span.start, span.end));
        k += 1;
    }
    let rest = input.substring_char(stop, chars.len());
    (rest, found)
}

} // verus!

//! Splitting a source text into words.

use vstd::prelude::*;
use crate::phases::LexicalAnalyzer;
use crate::text::{
    is_whitespace_char, chars_of, is_white_space, push_char, same_text, to_upper, uppercase,
};

verus! {

/// The views of a sequence of strings.
pub open spec fn string_views(v: Seq<String>) -> Seq<Seq<char>> {
    v.map_values(|t: String| t@)
}

/// The characters before the first NUL character (all of them if there is none).
pub open spec fn before_nul(cs: Seq<char>) -> Seq<char>
    decreases cs.len(),
{
    if cs.len() == 0 || cs[0] == '\0' {
        seq![]
    } else {
        seq![cs[0]] + before_nul(cs.drop_first())
    }
}

/// The text before the first NUL is a prefix free of NUL, and is followed by
/// a NUL unless it is the whole sequence.
pub proof fn lemma_before_nul(cs: Seq<char>)
    ensures
        before_nul(cs).len() <= cs.len(),
        forall|i: int| 0 <= i < before_nul(cs).len() ==> #[trigger] before_nul(cs)[i] == cs[i]
            && cs[i] != '\0',
        before_nul(cs).len() < cs.len() ==> cs[before_nul(cs).len() as int] == '\0',
    decreases cs.len(),
{
    if cs.len() > 0 && cs[0] != '\0' {
        lemma_before_nul(cs.drop_first());
        let t = before_nul(cs);
        assert forall|i: int| 0 <= i < t.len() implies #[trigger] t[i] == cs[i] && cs[i] != '\0' by {
            if i > 0 {
                assert(t[i] == before_nul(cs.drop_first())[i - 1]);
            }
        }
    }
}

/// One character of the scan: whitespace ends the word being built (if any),
/// any other character extends it. The state is (finished words, current word).
pub open spec fn lex_step(acc: (Seq<Seq<char>>, Seq<char>), c: char) -> (
    Seq<Seq<char>>,
    Seq<char>,
) {
    if is_white_space(c) {
        if acc.1.len() > 0 {
            (acc.0.push(acc.1), seq![])
        } else {
            acc
        }
    } else {
        (acc.0, acc.1.push(c))
    }
}

/// Scans `text` from the state (`words`, `build`).
pub open spec fn scan(text: Seq<char>, words: Seq<Seq<char>>, build: Seq<char>) -> (
    Seq<Seq<char>>,
    Seq<char>,
) {
    text.fold_left((words, build), |acc: (Seq<Seq<char>>, Seq<char>), c: char| lex_step(acc, c))
}

/// The finished words, with the current word added if it is not empty.
pub open spec fn flush(acc: (Seq<Seq<char>>, Seq<char>)) -> Seq<Seq<char>> {
    if acc.1.len() > 0 {
        acc.0.push(acc.1)
    } else {
        acc.0
    }
}

/// The words of a text: its maximal runs of non-whitespace characters.
pub open spec fn words(text: Seq<char>) -> Seq<Seq<char>> {
    flush(scan(text, seq![], seq![]))
}

/// The words of a source text as the lexer reads it: up to its first NUL.
pub open spec fn source_words(source: Seq<char>) -> Seq<Seq<char>> {
    words(before_nul(source))
}

/// The keywords of the language.
pub open spec fn is_keyword(w: Seq<char>) -> bool {
    ||| w == "#HAI"@
    ||| w == "#KBYE"@
    ||| w == "#OBTW"@
    ||| w == "#TLDR"@
    ||| w == "#MAEK"@
    ||| w == "#GIMMEH"@
    ||| w == "#MKAY"@
    ||| w == "#IHAZ"@
    ||| w == "#ITIZ"@
    ||| w == "#LEMMESEE"@
    ||| w == "#OIC"@
    ||| w == "HEAD"@
    ||| w == "TITLE"@
    ||| w == "PARAGRAF"@
    ||| w == "BOLD"@
    ||| w == "ITALICS"@
    ||| w == "LIST"@
    ||| w == "ITEM"@
    ||| w == "NEWLINE"@
    ||| w == "LINX"@
}

/// The state of a lexer.
pub struct LexerModel {
    pub input: Seq<char>,
    pub pos: nat,
    pub build: Seq<char>,
    pub tokens: Seq<Seq<char>>,
}

/// The input from the read position on.
pub open spec fn unread(m: LexerModel) -> Seq<char> {
    if m.pos <= m.input.len() {
        m.input.subrange(m.pos as int, m.input.len() as int)
    } else {
        seq![]
    }
}

/// Reads a source text one character at a time and collects its words.
/// After `tokenize`, `tokens` holds the words last-first, so that popping
/// yields them in reading order.
pub struct SimpleLexicalAnalyzer {
    input: Vec<char>,
    pos: usize,
    current_build: String,
    pub tokens: Vec<String>,
}

impl View for SimpleLexicalAnalyzer {
    type V = LexerModel;

    closed spec fn view(&self) -> LexerModel {
        LexerModel {
            input: self.input@,
            pos: self.pos as nat,
            build: self.current_build@,
            tokens: string_views(self.tokens@),
        }
    }
}

impl SimpleLexicalAnalyzer {
    /// A lexer at the start of `source`, with no word built and no tokens.
    pub fn new(source: &str) -> (r: Self)
        ensures
            r@ == (LexerModel { input: source@, pos: 0, build: seq![], tokens: seq![] }),
    {
        let r = SimpleLexicalAnalyzer {
            input: chars_of(source),
            pos: 0,
            current_build: String::new(),
            tokens: Vec::new(),
        };
        assert(string_views(r.tokens@) =~= seq![]);
        r
    }

    /// Removes and returns the last token (the next one to read, once the
    /// tokens are reversed).
    pub(crate) fn pop_token(&mut self) -> (r: Option<String>)
        ensures
            old(self)@.tokens.len() > 0 ==> (r matches Some(t) && t@ == old(self)@.tokens.last()
                && final(self)@ == (LexerModel { tokens: old(self)@.tokens.drop_last(), ..old(self)@ })),
            old(self)@.tokens.len() == 0 ==> r is None && final(self)@ == old(self)@,
    {
        let ghost before = self@;
        let r = self.tokens.pop();
        if r.is_some() {
            assert(string_views(self.tokens@) =~= before.tokens.drop_last());
        }
        r
    }

    /// The last token, upper-cased; empty when there is none.
    pub(crate) fn last_token_upper(&self) -> (r: String)
        ensures
            r@ == uppercase(
                if self@.tokens.len() > 0 {
                    self@.tokens.last()
                } else {
                    seq![]
                },
            ),
    {
        let n = self.tokens.len();
        if n > 0 {
            to_upper(self.tokens[n - 1].as_str())
        } else {
            let empty = String::new();
            to_upper(empty.as_str())
        }
    }

    /// Reads the rest of the input up to its first NUL character, splits it
    /// into words at whitespace, adds them to the tokens and reverses the
    /// tokens. The word being built when the input ends is added too, and
    /// stays in the build buffer.
    pub fn tokenize(&mut self)
        ensures
            ({
                let m = old(self)@;
                let rest = unread(m);
                let text = before_nul(rest);
                let acc = scan(text, m.tokens, m.build);
                &&& final(self)@.tokens == flush(acc).reverse()
                &&& final(self)@.build == acc.1
                &&& final(self)@.input == m.input
                &&& final(self)@.pos == if text.len() < rest.len() {
                    m.pos + text.len() + 1
                } else {
                    m.pos + rest.len()
                }
            }),
    {
        let ghost m = self@;
        let ghost rest = unread(m);
        let ghost text = before_nul(rest);
        proof {
            lemma_before_nul(rest);
            assert(text.take(0) =~= seq![]);
        }
        let ghost mut i: int = 0;
        loop
            invariant_except_break
                rest == unread(m),
                text == before_nul(rest),
                text.len() <= rest.len(),
                forall|k: int| 0 <= k < text.len() ==> #[trigger] text[k] == rest[k] && rest[k] != '\0',
                text.len() < rest.len() ==> rest[text.len() as int] == '\0',
                0 <= i <= text.len(),
                self@.input == m.input,
                self@.pos == m.pos + i,
                (self@.tokens, self@.build) == scan(text.take(i), m.tokens, m.build),
            ensures
                i == text.len(),
                self@.input == m.input,
                self@.pos == if text.len() < rest.len() {
                    m.pos + text.len() + 1
                } else {
                    m.pos + rest.len()
                },
                (self@.tokens, self@.build) == scan(text, m.tokens, m.build),
            decreases text.len() - i,
        {
            let c = self.get_char();
            proof {
                if i < text.len() {
                    assert(text[i] == rest[i]);
                }
            }
            if c == '\0' {
                proof {
                    assert(text.take(i) =~= text);
                }
                break ;
            }
            let ghost before = (self@.tokens, self@.build);
            if is_whitespace_char(c) {
                if !self.current_build.as_str().is_empty() {
                    let w = self.current_build.clone();
                    self.tokens.push(w);
                    self.current_build = String::new();
                    assert(self@.tokens =~= before.0.push(before.1));
                }
            } else {
                self.add_char(c);
            }
            proof {
                assert(text.take(i + 1).drop_last() =~= text.take(i));
                assert(text.take(i + 1).last() == c);
                i = i + 1;
            }
        }
        let ghost acc = (self@.tokens, self@.build);
        if !self.current_build.as_str().is_empty() {
            let w = self.current_build.clone();
            self.tokens.push(w);
        }
        assert(self@.tokens =~= flush(acc));
        let ghost all = self.tokens@;
        let ghost mid = self@;
        let n = self.tokens.len();
        let mut reversed: Vec<String> = Vec::new();
        while self.tokens.len() > 0
            invariant
                self.tokens@ == all.take(self.tokens@.len() as int),
                self@.input == mid.input,
                self@.pos == mid.pos,
                self@.build == mid.build,
                reversed@.len() + self.tokens@.len() == n,
                n == all.len(),
                forall|j: int| 0 <= j < reversed@.len() ==> #[trigger] reversed@[j] == all[n - 1 - j],
            decreases self.tokens@.len(),
        {
            let t = self.tokens.pop().unwrap();
            assert(t == all[self.tokens@.len() as int]);
            reversed.push(t);
            assert(self.tokens@ =~= all.take(self.tokens@.len() as int));
        }
        self.tokens = reversed;
        assert(string_views(self.tokens@) =~= string_views(all).reverse());
    }
}

impl LexicalAnalyzer for SimpleLexicalAnalyzer {
    /// The character at the read position, which advances past it; `'\0'`
    /// once the input is exhausted.
    fn get_char(&mut self) -> (c: char)
        ensures
            old(self)@.pos < old(self)@.input.len() ==> c == old(self)@.input[old(self)@.pos as int]
                && final(self)@ == (LexerModel { pos: old(self)@.pos + 1, ..old(self)@ }),
            old(self)@.pos >= old(self)@.input.len() ==> c == '\0' && final(self)@ == old(self)@,
    {
        if self.pos < self.input.len() {
            let c = self.input[self.pos];
            self.pos += 1;
            c
        } else {
            '\0'
        }
    }

    /// Appends `c` to the word being built.
    fn add_char(&mut self, c: char)
        ensures
            final(self)@ == (LexerModel { build: old(self)@.build.push(c), ..old(self)@ }),
    {
        push_char(&mut self.current_build, c);
    }

    /// Whether the upper-case form of `s` is a keyword.
    fn lookup(&self, s: &str) -> (r: bool)
        ensures
            r == is_keyword(uppercase(s@)),
    {
        let u = to_upper(s);
        is_keyword_word(&u)
    }
}

/// Whether `u` (already upper-cased) is one of the keywords.
pub fn is_keyword_word(u: &String) -> (r: bool)
    ensures
        r == is_keyword(u@),
{
    same_text(u, "#HAI")
        || same_text(u, "#KBYE")
        || same_text(u, "#OBTW")
        || same_text(u, "#TLDR")
        || same_text(u, "#MAEK")
        || same_text(u, "#GIMMEH")
        || same_text(u, "#MKAY")
        || same_text(u, "#IHAZ")
        || same_text(u, "#ITIZ")
        || same_text(u, "#LEMMESEE")
        || same_text(u, "#OIC")
        || same_text(u, "HEAD")
        || same_text(u, "TITLE")
        || same_text(u, "PARAGRAF")
        || same_text(u, "BOLD")
        || same_text(u, "ITALICS")
        || same_text(u, "LIST")
        || same_text(u, "ITEM")
        || same_text(u, "NEWLINE")
        || same_text(u, "LINX")
}

} // verus!

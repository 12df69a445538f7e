//! The recursive-descent compiler from token stream to HTML.

use vstd::prelude::*;
use crate::error::CompileError;
use crate::grammar::{
    advanced, body_item, compiled, loaded, define_in, emit, expect, gather, gimmeh_item, lemma_body_item_measure,
    lemma_gather_measure, lemma_inner_list_measure, lemma_inner_text_measure,
    lemma_list_entries_measure, list_entries, measure, next_upper, resolve, rule_body,
    rule_bold, rule_comment, rule_head, rule_inner_list, rule_inner_paragraph,
    rule_inner_text, rule_italics, rule_link, rule_list, rule_list_items, rule_lolcode,
    rule_newline, rule_paragraph, rule_text, rule_title, rule_variable_define,
    rule_variable_use, scope_popped, scope_pushed, styled_text, Parsed, ParserState, Rejection,
};
use crate::lexer::{source_words, unread, SimpleLexicalAnalyzer};
use crate::phases::{Compiler, SyntaxAnalyzer};
use crate::scope::Scope;
use crate::text::{chars_of, push_char, same_keyword, same_text, to_upper, uppercase};

verus! {

/// Whether an executable outcome `r`, leaving the parser in state `after`,
/// is the outcome `expected` that the grammar gives: the same state on
/// success; the same error, and the state the parser stopped in, on failure.
pub open spec fn agrees(
    r: Result<(), CompileError<String>>,
    after: ParserState,
    expected: Parsed,
) -> bool {
    match expected {
        Ok(s) => r is Ok && after == s,
        Err((e, stopped)) => r matches Err(e2) && e2@ == e && after == stopped,
    }
}

/// A recursive-descent parser over the words of a source text. It emits
/// HTML as it goes, and keeps a stack of static scopes for variables.
pub struct LolcodeCompiler {
    lexer: SimpleLexicalAnalyzer,
    current_tok: String,
    html: String,
    scopes: Vec<Scope>,
}

impl View for LolcodeCompiler {
    type V = ParserState;

    closed spec fn view(&self) -> ParserState {
        ParserState {
            cur: self.current_tok@,
            pending: self.lexer@.tokens,
            html: self.html@,
            scopes: self.scopes@.map_values(|sc: Scope| sc@),
        }
    }
}

impl LolcodeCompiler {
    /// A compiler with no input, no output and one empty (global) scope.
    pub fn new() -> (r: Self)
        ensures
            r@ == (ParserState {
                cur: seq![],
                pending: seq![],
                html: seq![],
                scopes: seq![Map::empty()],
            }),
    {
        let mut scopes: Vec<Scope> = Vec::new();
        scopes.push(Scope::new());
        let r = LolcodeCompiler {
            lexer: SimpleLexicalAnalyzer::new(""),
            current_tok: String::new(),
            html: String::new(),
            scopes,
        };
        proof {
            reveal_strlit("");
        }
        assert(r@ =~= (ParserState {
            cur: seq![],
            pending: seq![],
            html: seq![],
            scopes: seq![Map::empty()],
        }));
        r
    }

    /// The HTML emitted so far.
    pub fn html(&self) -> (r: &String)
        ensures
            r@ == self@.html,
    {
        &self.html
    }

    /// Makes the first token current.
    fn start(&mut self)
        ensures
            final(self)@ == advanced(old(self)@),
    {
        self.advance();
    }

    /// Moves to the next token; the empty token once none is left.
    fn advance(&mut self)
        ensures
            final(self)@ == advanced(old(self)@),
    {
        let ghost before = self@;
        self.current_tok = match self.lexer.pop_token() {
            Some(t) => t,
            None => String::new(),
        };
        assert(self@ =~= advanced(before));
    }

    /// Whether the current token, upper-cased, is `kw`.
    fn upper_is(&self, kw: &str) -> (r: bool)
        ensures
            r == (uppercase(self@.cur) == kw@),
            r && kw@.len() > 0 ==> self@.cur.len() > 0,
    {
        let u = to_upper(self.current_tok.as_str());
        same_text(&u, kw)
    }

    /// The next token, upper-cased.
    fn next_upper(&self) -> (r: String)
        ensures
            r@ == next_upper(self@),
    {
        self.lexer.last_token_upper()
    }

    /// Requires the current token to be `expected` in any letter case, and
    /// moves past it.
    fn expect(&mut self, expected: &str) -> (r: Result<(), CompileError<String>>)
        ensures
            agrees(r, final(self)@, expect(old(self)@, expected@)),
    {
        if same_keyword(self.current_tok.as_str(), expected) {
            self.advance();
            Ok(())
        } else {
            Err(CompileError::Expected { expected: expected.to_owned(), found: self.current_tok.clone() })
        }
    }

    /// Opens a scope with no variables.
    pub fn push_scope(&mut self)
        ensures
            final(self)@ == scope_pushed(old(self)@),
    {
        let ghost before = self@;
        self.scopes.push(Scope::new());
        assert(self@ =~= scope_pushed(before));
    }

    /// Closes the innermost scope, if there is one.
    pub fn pop_scope(&mut self)
        ensures
            final(self)@ == scope_popped(old(self)@),
    {
        let ghost before = self@;
        let _ = self.scopes.pop();
        assert(self@ =~= scope_popped(before));
    }

    /// Binds `name` to `value` in the innermost scope, if there is one.
    pub fn define_var(&mut self, name: String, value: String)
        ensures
            final(self)@ == (ParserState {
                scopes: define_in(old(self)@.scopes, name@, value@),
                ..old(self)@
            }),
    {
        let ghost before = self@;
        if let Some(mut scope) = self.scopes.pop() {
            scope.define(name, value);
            self.scopes.push(scope);
        }
        assert(self@.scopes =~= define_in(before.scopes, name@, value@));
        assert(self@ =~= ParserState { scopes: define_in(before.scopes, name@, value@), ..before });
    }

    /// The value of `name` in the innermost scope that defines it.
    pub fn lookup_var(&self, name: &String) -> (r: Result<String, CompileError<String>>)
        ensures
            match resolve(self@.scopes, name@) {
                Some(v) => r matches Ok(w) && w@ == v,
                None => r matches Err(e) && e@ == CompileError::UndefinedVariable(name@),
            },
    {
        let ghost model = self@.scopes;
        let mut i = self.scopes.len();
        assert(model.take(i as int) =~= model);
        while i > 0
            invariant
                i <= model.len(),
                model == self@.scopes,
                resolve(model, name@) == resolve(model.take(i as int), name@),
            decreases i,
        {
            i -= 1;
            assert(model.take(i + 1).drop_last() =~= model.take(i as int));
            assert(model[i as int] == self.scopes@[i as int]@);
            if let Some(v) = self.scopes[i].get(name.as_str()) {
                return Ok(v);
            }
        }
        Err(CompileError::UndefinedVariable(name.clone()))
    }

    /// Appends `s` to the HTML.
    fn append(&mut self, s: &str)
        ensures
            final(self)@ == emit(old(self)@, s@),
    {
        let ghost before = self@;
        self.html.append(s);
        assert(self@ =~= emit(before, s@));
    }

    /// Appends a space to the HTML.
    fn append_space(&mut self)
        ensures
            final(self)@ == emit(old(self)@, seq![' ']),
    {
        let ghost before = self@;
        push_char(&mut self.html, ' ');
        assert(self@ =~= emit(before, seq![' ']));
    }

    /// Reads words up to the terminator `stop`, which stays current, and
    /// returns them, each followed by a space; `err` if the tokens run out.
    fn gather_text(&mut self, stop: &str, err: CompileError<String>) -> (r: Result<
        String,
        CompileError<String>,
    >)
        ensures
            match gather(old(self)@, stop@, seq![], err@) {
                Ok((s, t)) => r matches Ok(w) && w@ == t && final(self)@ == s,
                Err((e, stopped)) => r matches Err(e2) && e2@ == e && final(self)@ == stopped,
            },
    {
        let ghost init = self@;
        let mut text = String::new();
        while !self.upper_is(stop)
            invariant
                init == old(self)@,
                gather(self@, stop@, text@, err@) == gather(init, stop@, seq![], err@),
            decreases measure(self@),
        {
            let ghost before = self@;
            let ghost t0 = text@;
            text.append(self.current_tok.as_str());
            push_char(&mut text, ' ');
            assert(text@ =~= t0 + before.cur + seq![' ']);
            self.advance();
            if self.current_tok.as_str().is_empty() {
                return Err(err);
            }
        }
        Ok(text)
    }

    /// `#GIMMEH kind text #OIC`, emitted between `open` and `close`.
    fn parse_styled(&mut self, kind: &str, open: &str, close: &str) -> (r: Result<
        (),
        CompileError<String>,
    >)
        ensures
            agrees(r, final(self)@, styled_text(old(self)@, kind@, open@, close@)),
    {
        if let Err(e) = self.expect("#GIMMEH") {
            return Err(e);
        }
        if let Err(e) = self.expect(kind) {
            return Err(e);
        }
        let text = match self.gather_text("#OIC", CompileError::MissingOicTerminator) {
            Ok(t) => t,
            Err(e) => return Err(e),
        };
        if let Err(e) = self.expect("#OIC") {
            return Err(e);
        }
        let ghost before = self@;
        self.append(open);
        self.append(text.as_str());
        self.append(close);
        assert(self@ =~= emit(before, open@ + text@ + close@));
        Ok(())
    }

    /// The item that `#GIMMEH` opens, chosen by the next token.
    fn parse_gimmeh_item(&mut self) -> (r: Result<(), CompileError<String>>)
        ensures
            agrees(r, final(self)@, gimmeh_item(old(self)@)),
    {
        let next = self.next_upper();
        if same_text(&next, "BOLD") {
            self.parse_bold()
        } else if same_text(&next, "ITALICS") {
            self.parse_italics()
        } else if same_text(&next, "LINX") {
            self.parse_link()
        } else if same_text(&next, "NEWLINE") {
            self.parse_newline()
        } else {
            Err(CompileError::UnexpectedAfterGimmeh(next))
        }
    }

    /// One item of the body.
    fn parse_body_item(&mut self) -> (r: Result<(), CompileError<String>>)
        ensures
            agrees(r, final(self)@, body_item(old(self)@)),
    {
        let u = to_upper(self.current_tok.as_str());
        if same_text(&u, "#OBTW") {
            self.parse_comment()
        } else if same_text(&u, "#MAEK") {
            let next = self.next_upper();
            if same_text(&next, "PARAGRAF") {
                self.parse_paragraph()
            } else if same_text(&next, "LIST") {
                self.parse_list()
            } else {
                Err(CompileError::UnexpectedAfterMaek(next))
            }
        } else if same_text(&u, "#GIMMEH") {
            self.parse_gimmeh_item()
        } else if same_text(&u, "#IHAZ") {
            self.parse_variable_define()
        } else if same_text(&u, "#LEMMESEE") {
            self.parse_variable_use()
        } else {
            self.parse_text()
        }
    }

    /// The entries of one list item, up to `#OIC` or the end of the tokens.
    fn parse_list_entries(&mut self) -> (r: Result<(), CompileError<String>>)
        ensures
            agrees(r, final(self)@, list_entries(old(self)@)),
    {
        let ghost init = self@;
        while !self.current_tok.as_str().is_empty() && !self.upper_is("#OIC")
            invariant
                init == old(self)@,
                list_entries(self@) == list_entries(init),
            decreases measure(self@),
        {
            let ghost before = self@;
            if let Err(e) = self.parse_inner_list() {
                return Err(e);
            }
            proof {
                lemma_inner_list_measure(before);
            }
        }
        Ok(())
    }
}

impl SyntaxAnalyzer for LolcodeCompiler {
    /// `#HAI comments head body #KBYE`, wrapped in `<html>`.
    fn parse_lolcode(&mut self) -> (r: Result<(), CompileError<String>>)
        ensures
            agrees(r, final(self)@, rule_lolcode(old(self)@)),
    {
        self.append("<html>\n");
        if let Err(e) = self.expect("#HAI") {
            return Err(e);
        }
        if let Err(e) = self.parse_comment() {
            return Err(e);
        }
        if let Err(e) = self.parse_head() {
            return Err(e);
        }
        if let Err(e) = self.parse_body() {
            return Err(e);
        }
        if let Err(e) = self.expect("#KBYE") {
            return Err(e);
        }
        self.append("</html>\n");
        Ok(())
    }

    /// An optional `#MAEK HEAD title #OIC`, emitted as `<head>`.
    fn parse_head(&mut self) -> (r: Result<(), CompileError<String>>)
        ensures
            agrees(r, final(self)@, rule_head(old(self)@)),
    {
        if self.upper_is("#MAEK") {
            self.advance();
            if !self.upper_is("HEAD") {
                return Err(CompileError::ExpectedHead);
            }
            self.advance();
            self.append("<head>\n");
            if let Err(e) = self.parse_title() {
                return Err(e);
            }
            if let Err(e) = self.expect("#OIC") {
                return Err(e);
            }
            self.append("</head>\n");
        }
        Ok(())
    }

    /// `#GIMMEH TITLE text #OIC`, emitted as `<title>`.
    fn parse_title(&mut self) -> (r: Result<(), CompileError<String>>)
        ensures
            agrees(r, final(self)@, rule_title(old(self)@)),
    {
        if let Err(e) = self.expect("#GIMMEH") {
            return Err(e);
        }
        if !self.upper_is("TITLE") {
            return Err(CompileError::ExpectedTitle);
        }
        self.advance();
        let text = match self.gather_text("#OIC", CompileError::MissingOicTerminator) {
            Ok(t) => t,
            Err(e) => return Err(e),
        };
        if let Err(e) = self.expect("#OIC") {
            return Err(e);
        }
        let ghost before = self@;
        self.append("<title>");
        self.append(text.as_str());
        self.append("</title>\n");
        assert(self@ =~= emit(before, "<title>"@ + text@ + "</title>\n"@));
        Ok(())
    }

    /// Any number of `#OBTW text #TLDR`, each emitted as an HTML comment.
    fn parse_comment(&mut self) -> (r: Result<(), CompileError<String>>)
        ensures
            agrees(r, final(self)@, rule_comment(old(self)@)),
    {
        let ghost init = self@;
        while self.upper_is("#OBTW")
            invariant
                init == old(self)@,
                rule_comment(self@) == rule_comment(init),
            decreases measure(self@),
        {
            proof {
                reveal_strlit("#OBTW");
            }
            let ghost before = self@;
            self.advance();
            let text = match self.gather_text("#TLDR", CompileError::MissingTldrTerminator) {
                Ok(t) => t,
                Err(e) => return Err(e),
            };
            proof {
                lemma_gather_measure(
                    advanced(before),
                    "#TLDR"@,
                    seq![],
                    CompileError::MissingTldrTerminator,
                );
            }
            if let Err(e) = self.expect("#TLDR") {
                return Err(e);
            }
            let ghost mid = self@;
            self.append("<!-- ");
            self.append(text.as_str());
            self.append(" -->\n");
            assert(self@ =~= emit(mid, "<!-- "@ + text@ + " -->\n"@));
        }
        Ok(())
    }

    /// Items up to `#KBYE` or the end of the tokens.
    fn parse_body(&mut self) -> (r: Result<(), CompileError<String>>)
        ensures
            agrees(r, final(self)@, rule_body(old(self)@)),
    {
        let ghost init = self@;
        while !self.current_tok.as_str().is_empty() && !self.upper_is("#KBYE")
            invariant
                init == old(self)@,
                rule_body(self@) == rule_body(init),
            decreases measure(self@),
        {
            let ghost before = self@;
            if let Err(e) = self.parse_body_item() {
                return Err(e);
            }
            proof {
                lemma_body_item_measure(before);
            }
        }
        Ok(())
    }

    /// `#MAEK PARAGRAF`, an optional variable definition and items up to
    /// `#MKAY`; emitted as `<p>`, in a scope of its own.
    fn parse_paragraph(&mut self) -> (r: Result<(), CompileError<String>>)
        ensures
            agrees(r, final(self)@, rule_paragraph(old(self)@)),
    {
        if let Err(e) = self.expect("#MAEK") {
            return Err(e);
        }
        if let Err(e) = self.expect("PARAGRAF") {
            return Err(e);
        }
        self.append("<p>");
        self.push_scope();
        if self.upper_is("#IHAZ") {
            if let Err(e) = self.parse_variable_define() {
                return Err(e);
            }
        }
        if let Err(e) = self.parse_inner_paragraph() {
            return Err(e);
        }
        if let Err(e) = self.expect("#MKAY") {
            return Err(e);
        }
        self.pop_scope();
        self.append("</p>\n");
        Ok(())
    }

    /// Items of a paragraph up to `#MKAY` or the end of the tokens.
    fn parse_inner_paragraph(&mut self) -> (r: Result<(), CompileError<String>>)
        ensures
            agrees(r, final(self)@, rule_inner_paragraph(old(self)@)),
    {
        let ghost init = self@;
        while !self.current_tok.as_str().is_empty() && !self.upper_is("#MKAY")
            invariant
                init == old(self)@,
                rule_inner_paragraph(self@) == rule_inner_paragraph(init),
            decreases measure(self@),
        {
            let ghost before = self@;
            if let Err(e) = self.parse_inner_text() {
                return Err(e);
            }
            proof {
                lemma_inner_text_measure(before);
            }
        }
        Ok(())
    }

    /// One item of a paragraph.
    fn parse_inner_text(&mut self) -> (r: Result<(), CompileError<String>>)
        ensures
            agrees(r, final(self)@, rule_inner_text(old(self)@)),
    {
        let u = to_upper(self.current_tok.as_str());
        if same_text(&u, "#GIMMEH") {
            self.parse_gimmeh_item()
        } else if same_text(&u, "#MAEK") {
            let next = self.next_upper();
            if same_text(&next, "LIST") {
                self.parse_list()
            } else {
                Err(CompileError::UnexpectedAfterMaek(next))
            }
        } else if same_text(&u, "#LEMMESEE") {
            self.parse_variable_use()
        } else if same_text(&u, "#IHAZ") {
            self.parse_variable_define()
        } else {
            self.parse_text()
        }
    }

    /// `#IHAZ name #ITIZ value #MKAY`: binds the variable in the innermost scope.
    fn parse_variable_define(&mut self) -> (r: Result<(), CompileError<String>>)
        ensures
            agrees(r, final(self)@, rule_variable_define(old(self)@)),
    {
        if let Err(e) = self.expect("#IHAZ") {
            return Err(e);
        }
        let name = self.current_tok.clone();
        self.advance();
        if let Err(e) = self.expect("#ITIZ") {
            return Err(e);
        }
        let value = self.current_tok.clone();
        self.advance();
        if let Err(e) = self.expect("#MKAY") {
            return Err(e);
        }
        self.define_var(name, value);
        Ok(())
    }

    /// `#LEMMESEE name #OIC`: emits the variable's value and a space.
    fn parse_variable_use(&mut self) -> (r: Result<(), CompileError<String>>)
        ensures
            agrees(r, final(self)@, rule_variable_use(old(self)@)),
    {
        if let Err(e) = self.expect("#LEMMESEE") {
            return Err(e);
        }
        let name = self.current_tok.clone();
        self.advance();
        if let Err(e) = self.expect("#OIC") {
            return Err(e);
        }
        let value = match self.lookup_var(&name) {
            Ok(v) => v,
            Err(e) => return Err(e),
        };
        let ghost before = self@;
        self.append(value.as_str());
        self.append_space();
        assert(self@ =~= emit(before, value@ + seq![' ']));
        Ok(())
    }

    /// `#GIMMEH BOLD text #OIC`, emitted as `<b>`.
    fn parse_bold(&mut self) -> (r: Result<(), CompileError<String>>)
        ensures
            agrees(r, final(self)@, rule_bold(old(self)@)),
    {
        self.parse_styled("BOLD", "<b>", "</b>")
    }

    /// `#GIMMEH ITALICS text #OIC`, emitted as `<i>`.
    fn parse_italics(&mut self) -> (r: Result<(), CompileError<String>>)
        ensures
            agrees(r, final(self)@, rule_italics(old(self)@)),
    {
        self.parse_styled("ITALICS", "<i>", "</i>")
    }

    /// `#MAEK LIST items #MKAY`, emitted as `<ul>`.
    fn parse_list(&mut self) -> (r: Result<(), CompileError<String>>)
        ensures
            agrees(r, final(self)@, rule_list(old(self)@)),
    {
        if let Err(e) = self.expect("#MAEK") {
            return Err(e);
        }
        if let Err(e) = self.expect("LIST") {
            return Err(e);
        }
        self.append("<ul>\n");
        if let Err(e) = self.parse_list_items() {
            return Err(e);
        }
        if let Err(e) = self.expect("#MKAY") {
            return Err(e);
        }
        self.append("</ul>\n");
        Ok(())
    }

    /// Any number of `#GIMMEH ITEM entries #OIC`, each emitted as `<li>`.
    fn parse_list_items(&mut self) -> (r: Result<(), CompileError<String>>)
        ensures
            agrees(r, final(self)@, rule_list_items(old(self)@)),
    {
        let ghost init = self@;
        loop
            invariant
                init == old(self)@,
                rule_list_items(self@) == rule_list_items(init),
            ensures
                rule_list_items(self@) == Ok::<ParserState, Rejection>(self@),
            decreases measure(self@),
        {
            if !self.upper_is("#GIMMEH") {
                break ;
            }
            let next = self.next_upper();
            if !same_text(&next, "ITEM") {
                break ;
            }
            proof {
                reveal_strlit("#GIMMEH");
            }
            self.advance();
            if let Err(e) = self.expect("ITEM") {
                return Err(e);
            }
            self.append("<li>");
            let ghost entries_start = self@;
            if let Err(e) = self.parse_list_entries() {
                return Err(e);
            }
            proof {
                lemma_list_entries_measure(entries_start);
            }
            if let Err(e) = self.expect("#OIC") {
                return Err(e);
            }
            self.append("</li>\n");
        }
        Ok(())
    }

    /// One entry of a list item.
    fn parse_inner_list(&mut self) -> (r: Result<(), CompileError<String>>)
        ensures
            agrees(r, final(self)@, rule_inner_list(old(self)@)),
    {
        let u = to_upper(self.current_tok.as_str());
        if same_text(&u, "#GIMMEH") {
            self.parse_gimmeh_item()
        } else if same_text(&u, "#LEMMESEE") {
            self.parse_variable_use()
        } else {
            self.parse_text()
        }
    }

    /// `#GIMMEH LINX address #OIC`, emitted as a link to the address.
    fn parse_link(&mut self) -> (r: Result<(), CompileError<String>>)
        ensures
            agrees(r, final(self)@, rule_link(old(self)@)),
    {
        if let Err(e) = self.expect("#GIMMEH") {
            return Err(e);
        }
        if let Err(e) = self.expect("LINX") {
            return Err(e);
        }
        let addr = self.current_tok.clone();
        self.advance();
        if let Err(e) = self.expect("#OIC") {
            return Err(e);
        }
        let ghost before = self@;
        self.append("<a href=\"");
        self.append(addr.as_str());
        self.append("\">");
        self.append(addr.as_str());
        self.append("</a>");
        assert(self@ =~= emit(before, "<a href=\""@ + addr@ + "\">"@ + addr@ + "</a>"@));
        Ok(())
    }

    /// `#GIMMEH NEWLINE`, emitted as `<br>`.
    fn parse_newline(&mut self) -> (r: Result<(), CompileError<String>>)
        ensures
            agrees(r, final(self)@, rule_newline(old(self)@)),
    {
        if let Err(e) = self.expect("#GIMMEH") {
            return Err(e);
        }
        if let Err(e) = self.expect("NEWLINE") {
            return Err(e);
        }
        self.append("<br>\n");
        Ok(())
    }

    /// A plain word, emitted with a space after it; a word that begins with
    /// `#` is rejected.
    fn parse_text(&mut self) -> (r: Result<(), CompileError<String>>)
        ensures
            agrees(r, final(self)@, rule_text(old(self)@)),
    {
        let cs = chars_of(self.current_tok.as_str());
        if cs.len() > 0 && cs[0] == '#' {
            return Err(CompileError::UnexpectedKeyword(self.current_tok.clone()));
        }
        let t = self.current_tok.clone();
        self.advance();
        let ghost before = self@;
        self.append(t.as_str());
        self.append_space();
        assert(self@ =~= emit(before, t@ + seq![' ']));
        Ok(())
    }
}

impl Compiler for LolcodeCompiler {
    /// Reads `source`: its words (up to its first NUL character) become the
    /// tokens to read, and the first of them the current token. The HTML and
    /// the scopes are left as they were.
    fn compile(&mut self, source: &str)
        ensures
            final(self)@ == loaded(source@, old(self)@.html, old(self)@.scopes),
    {
        let ghost before = self@;
        self.lexer = SimpleLexicalAnalyzer::new(source);
        proof {
            assert(unread(self.lexer@) =~= source@);
        }
        self.lexer.tokenize();
        assert(self@ =~= ParserState {
            cur: before.cur,
            pending: source_words(source@).reverse(),
            html: before.html,
            scopes: before.scopes,
        });
        self.start();
    }

    /// Moves to the next token and returns it.
    fn next_token(&mut self) -> (r: String)
        ensures
            final(self)@ == advanced(old(self)@),
            r@ == final(self)@.cur,
    {
        self.advance();
        self.current_tok.clone()
    }

    /// Parses the whole program.
    fn parse(&mut self) -> (r: Result<(), CompileError<String>>)
        ensures
            agrees(r, final(self)@, rule_lolcode(old(self)@)),
    {
        self.parse_lolcode()
    }

    /// The token under examination.
    fn current_token(&self) -> (r: String)
        ensures
            r@ == self@.cur,
    {
        self.current_tok.clone()
    }

    /// Replaces the token under examination.
    fn set_current_token(&mut self, tok: String)
        ensures
            final(self)@ == (ParserState { cur: tok@, ..old(self)@ }),
    {
        self.current_tok = tok;
    }
}

/// Compiles a whole source text to HTML, as a fresh compiler does.
pub fn compile_to_html(source: &str) -> (r: Result<String, CompileError<String>>)
    ensures
        match compiled(source@) {
            Ok(h) => r matches Ok(w) && w@ == h,
            Err(e) => r matches Err(e2) && e2@ == e,
        },
{
    let mut c = LolcodeCompiler::new();
    c.compile(source);
    match c.parse() {
        Ok(()) => Ok(c.html.clone()),
        Err(e) => Err(e),
    }
}

} // verus!

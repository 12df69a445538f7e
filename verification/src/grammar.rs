//! The meaning of a program: what each rule of the grammar does to the
//! parser's state, written over mathematical values.

use vstd::prelude::*;
use crate::error::CompileError;
use crate::lexer::source_words;
use crate::text::uppercase;

verus! {

/// What the parser knows: the token under examination, the tokens still to
/// read (the next one last), the HTML emitted so far, and the variables of
/// each open scope (the innermost last).
#[verifier::ext_equal]
pub struct ParserState {
    pub cur: Seq<char>,
    pub pending: Seq<Seq<char>>,
    pub html: Seq<char>,
    pub scopes: Seq<Map<Seq<char>, Seq<char>>>,
}

/// Why a program was rejected, and the state the parser stopped in.
pub type Rejection = (CompileError<Seq<char>>, ParserState);

/// The outcome of a rule: the state after it, or the rejection.
pub type Parsed = Result<ParserState, Rejection>;

/// The outcome of reading free text up to a terminator: the state after the
/// text, and the text, each word followed by a space.
pub type Gathered = Result<(ParserState, Seq<char>), Rejection>;

/// How much input is left: twice the pending tokens, plus one for a
/// current token that is not empty. Every rule that succeeds leaves it no
/// larger, and every loop of the grammar makes it smaller.
pub open spec fn measure(s: ParserState) -> nat {
    2 * s.pending.len() + if s.cur.len() > 0 {
        1nat
    } else {
        0nat
    }
}

/// The state once `source` has been read: its words wait to be read, the
/// first one current, with the given HTML and scopes.
pub open spec fn loaded(
    source: Seq<char>,
    html: Seq<char>,
    scopes: Seq<Map<Seq<char>, Seq<char>>>,
) -> ParserState {
    advanced(ParserState { cur: seq![], pending: source_words(source).reverse(), html, scopes })
}

/// What a whole source text compiles to: its HTML, or why it is rejected.
pub open spec fn compiled(source: Seq<char>) -> Result<Seq<char>, CompileError<Seq<char>>> {
    match rule_lolcode(loaded(source, seq![], seq![Map::empty()])) {
        Ok(s) => Ok(s.html),
        Err((e, _)) => Err(e),
    }
}

/// Moves to the next token; the empty token once none is left.
pub open spec fn advanced(s: ParserState) -> ParserState {
    if s.pending.len() > 0 {
        ParserState { cur: s.pending.last(), pending: s.pending.drop_last(), ..s }
    } else {
        ParserState { cur: seq![], ..s }
    }
}

/// The token after the current one, upper-cased (empty if there is none).
pub open spec fn next_upper(s: ParserState) -> Seq<char> {
    uppercase(
        if s.pending.len() > 0 {
            s.pending.last()
        } else {
            seq![]
        },
    )
}

/// Appends `t` to the HTML.
pub open spec fn emit(s: ParserState, t: Seq<char>) -> ParserState {
    ParserState { html: s.html + t, ..s }
}

/// Opens a scope with no variables.
pub open spec fn scope_pushed(s: ParserState) -> ParserState {
    ParserState { scopes: s.scopes.push(Map::empty()), ..s }
}

/// Closes the innermost scope, if there is one.
pub open spec fn scope_popped(s: ParserState) -> ParserState {
    if s.scopes.len() > 0 {
        ParserState { scopes: s.scopes.drop_last(), ..s }
    } else {
        s
    }
}

/// Binds `name` to `value` in the innermost scope, if there is one.
pub open spec fn define_in(
    scopes: Seq<Map<Seq<char>, Seq<char>>>,
    name: Seq<char>,
    value: Seq<char>,
) -> Seq<Map<Seq<char>, Seq<char>>> {
    if scopes.len() > 0 {
        scopes.update(scopes.len() - 1, scopes.last().insert(name, value))
    } else {
        scopes
    }
}

/// The value of `name` in the innermost scope that defines it.
pub open spec fn resolve(scopes: Seq<Map<Seq<char>, Seq<char>>>, name: Seq<char>) -> Option<
    Seq<char>,
>
    decreases scopes.len(),
{
    if scopes.len() == 0 {
        None
    } else if scopes.last().contains_key(name) {
        Some(scopes.last()[name])
    } else {
        resolve(scopes.drop_last(), name)
    }
}

/// Requires the current token to be `kw` in any letter case, and moves past it.
pub open spec fn expect(s: ParserState, kw: Seq<char>) -> Parsed {
    if uppercase(s.cur) == uppercase(kw) {
        Ok(advanced(s))
    } else {
        Err((CompileError::Expected { expected: kw, found: s.cur }, s))
    }
}

/// Reads words up to the terminator `stop` (upper-cased), which stays current;
/// each word read is added to `text` with a space after it. Fails with `err`
/// when the tokens run out first, having moved past the last of them.
pub open spec fn gather(
    s: ParserState,
    stop: Seq<char>,
    text: Seq<char>,
    err: CompileError<Seq<char>>,
) -> Gathered
    decreases measure(s),
{
    if uppercase(s.cur) == stop {
        Ok((s, text))
    } else if advanced(s).cur.len() == 0 {
        Err((err, advanced(s)))
    } else {
        gather(advanced(s), stop, text + s.cur + seq![' '], err)
    }
}

/// `#HAI comments head body #KBYE`, wrapped in `<html>`.
pub open spec fn rule_lolcode(s: ParserState) -> Parsed {
    match expect(emit(s, "<html>\n"@), "#HAI"@) {
        Ok(s1) => match rule_comment(s1) {
            Ok(s2) => match rule_head(s2) {
                Ok(s3) => match rule_body(s3) {
                    Ok(s4) => match expect(s4, "#KBYE"@) {
                        Ok(s5) => Ok(emit(s5, "</html>\n"@)),
                        Err(e) => Err(e),
                    },
                    Err(e) => Err(e),
                },
                Err(e) => Err(e),
            },
            Err(e) => Err(e),
        },
        Err(e) => Err(e),
    }
}

/// An optional `#MAEK HEAD title #OIC`, emitted as `<head>`.
pub open spec fn rule_head(s: ParserState) -> Parsed {
    if uppercase(s.cur) == "#MAEK"@ {
        if uppercase(advanced(s).cur) != "HEAD"@ {
            Err((CompileError::ExpectedHead, advanced(s)))
        } else {
            match rule_title(emit(advanced(advanced(s)), "<head>\n"@)) {
                Ok(s1) => match expect(s1, "#OIC"@) {
                    Ok(s2) => Ok(emit(s2, "</head>\n"@)),
                    Err(e) => Err(e),
                },
                Err(e) => Err(e),
            }
        }
    } else {
        Ok(s)
    }
}

/// `#GIMMEH TITLE text #OIC`, emitted as `<title>`.
pub open spec fn rule_title(s: ParserState) -> Parsed {
    match expect(s, "#GIMMEH"@) {
        Ok(s1) => if uppercase(s1.cur) != "TITLE"@ {
            Err((CompileError::ExpectedTitle, s1))
        } else {
            match gather(advanced(s1), "#OIC"@, seq![], CompileError::MissingOicTerminator) {
                Ok((s2, text)) => match expect(s2, "#OIC"@) {
                    Ok(s3) => Ok(emit(s3, "<title>"@ + text + "</title>\n"@)),
                    Err(e) => Err(e),
                },
                Err(e) => Err(e),
            }
        },
        Err(e) => Err(e),
    }
}

/// Any number of `#OBTW text #TLDR`, each emitted as an HTML comment.
pub open spec fn rule_comment(s: ParserState) -> Parsed
    decreases measure(s),
{
    if s.cur.len() > 0 && uppercase(s.cur) == "#OBTW"@ {
        match gather(advanced(s), "#TLDR"@, seq![], CompileError::MissingTldrTerminator) {
            Ok((s1, text)) => match expect(s1, "#TLDR"@) {
                Ok(s2) => {
                    proof {
                        lemma_gather_measure(
                            advanced(s),
                            "#TLDR"@,
                            seq![],
                            CompileError::MissingTldrTerminator,
                        );
                    }
                    rule_comment(emit(s2, "<!-- "@ + text + " -->\n"@))
                },
                Err(e) => Err(e),
            },
            Err(e) => Err(e),
        }
    } else {
        Ok(s)
    }
}

/// Items up to `#KBYE` or the end of the tokens.
pub open spec fn rule_body(s: ParserState) -> Parsed
    decreases measure(s),
{
    if s.cur.len() == 0 || uppercase(s.cur) == "#KBYE"@ {
        Ok(s)
    } else {
        match body_item(s) {
            Ok(s1) => {
                proof {
                    lemma_body_item_measure(s);
                }
                rule_body(s1)
            },
            Err(e) => Err(e),
        }
    }
}

/// One item of the body, chosen by the current token (and, after `#MAEK` or
/// `#GIMMEH`, by the next one).
pub open spec fn body_item(s: ParserState) -> Parsed {
    let u = uppercase(s.cur);
    if u == "#OBTW"@ {
        rule_comment(s)
    } else if u == "#MAEK"@ {
        let n = next_upper(s);
        if n == "PARAGRAF"@ {
            rule_paragraph(s)
        } else if n == "LIST"@ {
            rule_list(s)
        } else {
            Err((CompileError::UnexpectedAfterMaek(n), s))
        }
    } else if u == "#GIMMEH"@ {
        gimmeh_item(s)
    } else if u == "#IHAZ"@ {
        rule_variable_define(s)
    } else if u == "#LEMMESEE"@ {
        rule_variable_use(s)
    } else {
        rule_text(s)
    }
}

/// The item that `#GIMMEH` opens, chosen by the next token.
pub open spec fn gimmeh_item(s: ParserState) -> Parsed {
    let n = next_upper(s);
    if n == "BOLD"@ {
        rule_bold(s)
    } else if n == "ITALICS"@ {
        rule_italics(s)
    } else if n == "LINX"@ {
        rule_link(s)
    } else if n == "NEWLINE"@ {
        rule_newline(s)
    } else {
        Err((CompileError::UnexpectedAfterGimmeh(n), s))
    }
}

/// `#MAEK PARAGRAF`, an optional variable definition, items up to `#MKAY`;
/// emitted as `<p>`, in a scope of its own.
pub open spec fn rule_paragraph(s: ParserState) -> Parsed {
    match expect(s, "#MAEK"@) {
        Ok(s1) => match expect(s1, "PARAGRAF"@) {
            Ok(s2) => {
                let s3 = scope_pushed(emit(s2, "<p>"@));
                let d = if uppercase(s3.cur) == "#IHAZ"@ {
                    rule_variable_define(s3)
                } else {
                    Ok(s3)
                };
                match d {
                    Ok(s4) => match rule_inner_paragraph(s4) {
                        Ok(s5) => match expect(s5, "#MKAY"@) {
                            Ok(s6) => Ok(emit(scope_popped(s6), "</p>\n"@)),
                            Err(e) => Err(e),
                        },
                        Err(e) => Err(e),
                    },
                    Err(e) => Err(e),
                }
            },
            Err(e) => Err(e),
        },
        Err(e) => Err(e),
    }
}

/// Items of a paragraph up to `#MKAY` or the end of the tokens.
pub open spec fn rule_inner_paragraph(s: ParserState) -> Parsed
    decreases measure(s),
{
    if s.cur.len() == 0 || uppercase(s.cur) == "#MKAY"@ {
        Ok(s)
    } else {
        match rule_inner_text(s) {
            Ok(s1) => {
                proof {
                    lemma_inner_text_measure(s);
                }
                rule_inner_paragraph(s1)
            },
            Err(e) => Err(e),
        }
    }
}

/// One item of a paragraph.
pub open spec fn rule_inner_text(s: ParserState) -> Parsed {
    let u = uppercase(s.cur);
    if u == "#GIMMEH"@ {
        gimmeh_item(s)
    } else if u == "#MAEK"@ {
        let n = next_upper(s);
        if n == "LIST"@ {
            rule_list(s)
        } else {
            Err((CompileError::UnexpectedAfterMaek(n), s))
        }
    } else if u == "#LEMMESEE"@ {
        rule_variable_use(s)
    } else if u == "#IHAZ"@ {
        rule_variable_define(s)
    } else {
        rule_text(s)
    }
}

/// `#IHAZ name #ITIZ value #MKAY`: binds the variable in the innermost scope.
pub open spec fn rule_variable_define(s: ParserState) -> Parsed {
    match expect(s, "#IHAZ"@) {
        Ok(s1) => match expect(advanced(s1), "#ITIZ"@) {
            Ok(s2) => match expect(advanced(s2), "#MKAY"@) {
                Ok(s3) => Ok(ParserState { scopes: define_in(s3.scopes, s1.cur, s2.cur), ..s3 }),
                Err(e) => Err(e),
            },
            Err(e) => Err(e),
        },
        Err(e) => Err(e),
    }
}

/// `#LEMMESEE name #OIC`: emits the variable's value and a space.
pub open spec fn rule_variable_use(s: ParserState) -> Parsed {
    match expect(s, "#LEMMESEE"@) {
        Ok(s1) => match expect(advanced(s1), "#OIC"@) {
            Ok(s2) => match resolve(s2.scopes, s1.cur) {
                Some(v) => Ok(emit(s2, v + seq![' '])),
                None => Err((CompileError::UndefinedVariable(s1.cur), s2)),
            },
            Err(e) => Err(e),
        },
        Err(e) => Err(e),
    }
}

/// `#GIMMEH kind text #OIC`, emitted between `open` and `close`.
pub open spec fn styled_text(s: ParserState, kind: Seq<char>, open: Seq<char>, close: Seq<char>) -> Parsed {
    match expect(s, "#GIMMEH"@) {
        Ok(s1) => match expect(s1, kind) {
            Ok(s2) => match gather(s2, "#OIC"@, seq![], CompileError::MissingOicTerminator) {
                Ok((s3, text)) => match expect(s3, "#OIC"@) {
                    Ok(s4) => Ok(emit(s4, open + text + close)),
                    Err(e) => Err(e),
                },
                Err(e) => Err(e),
            },
            Err(e) => Err(e),
        },
        Err(e) => Err(e),
    }
}

/// `#GIMMEH BOLD text #OIC`, emitted as `<b>`.
pub open spec fn rule_bold(s: ParserState) -> Parsed {
    styled_text(s, "BOLD"@, "<b>"@, "</b>"@)
}

/// `#GIMMEH ITALICS text #OIC`, emitted as `<i>`.
pub open spec fn rule_italics(s: ParserState) -> Parsed {
    styled_text(s, "ITALICS"@, "<i>"@, "</i>"@)
}

/// `#MAEK LIST items #MKAY`, emitted as `<ul>`.
pub open spec fn rule_list(s: ParserState) -> Parsed {
    match expect(s, "#MAEK"@) {
        Ok(s1) => match expect(s1, "LIST"@) {
            Ok(s2) => match rule_list_items(emit(s2, "<ul>\n"@)) {
                Ok(s3) => match expect(s3, "#MKAY"@) {
                    Ok(s4) => Ok(emit(s4, "</ul>\n"@)),
                    Err(e) => Err(e),
                },
                Err(e) => Err(e),
            },
            Err(e) => Err(e),
        },
        Err(e) => Err(e),
    }
}

/// Any number of `#GIMMEH ITEM entries #OIC`, each emitted as `<li>`.
pub open spec fn rule_list_items(s: ParserState) -> Parsed
    decreases measure(s),
{
    if s.cur.len() > 0 && uppercase(s.cur) == "#GIMMEH"@ && next_upper(s) == "ITEM"@ {
        match expect(advanced(s), "ITEM"@) {
            Ok(s1) => match list_entries(emit(s1, "<li>"@)) {
                Ok(s2) => match expect(s2, "#OIC"@) {
                    Ok(s3) => {
                        proof {
                            lemma_list_entries_measure(emit(s1, "<li>"@));
                        }
                        rule_list_items(emit(s3, "</li>\n"@))
                    },
                    Err(e) => Err(e),
                },
                Err(e) => Err(e),
            },
            Err(e) => Err(e),
        }
    } else {
        Ok(s)
    }
}

/// The entries of one list item, up to `#OIC` or the end of the tokens.
pub open spec fn list_entries(s: ParserState) -> Parsed
    decreases measure(s),
{
    if s.cur.len() == 0 || uppercase(s.cur) == "#OIC"@ {
        Ok(s)
    } else {
        match rule_inner_list(s) {
            Ok(s1) => {
                proof {
                    lemma_inner_list_measure(s);
                }
                list_entries(s1)
            },
            Err(e) => Err(e),
        }
    }
}

/// One entry of a list item.
pub open spec fn rule_inner_list(s: ParserState) -> Parsed {
    let u = uppercase(s.cur);
    if u == "#GIMMEH"@ {
        gimmeh_item(s)
    } else if u == "#LEMMESEE"@ {
        rule_variable_use(s)
    } else {
        rule_text(s)
    }
}

/// `#GIMMEH LINX address #OIC`, emitted as a link to the address.
pub open spec fn rule_link(s: ParserState) -> Parsed {
    match expect(s, "#GIMMEH"@) {
        Ok(s1) => match expect(s1, "LINX"@) {
            Ok(s2) => match expect(advanced(s2), "#OIC"@) {
                Ok(s3) => Ok(
                    emit(s3, "<a href=\""@ + s2.cur + "\">"@ + s2.cur + "</a>"@),
                ),
                Err(e) => Err(e),
            },
            Err(e) => Err(e),
        },
        Err(e) => Err(e),
    }
}

/// `#GIMMEH NEWLINE`, emitted as `<br>`.
pub open spec fn rule_newline(s: ParserState) -> Parsed {
    match expect(s, "#GIMMEH"@) {
        Ok(s1) => match expect(s1, "NEWLINE"@) {
            Ok(s2) => Ok(emit(s2, "<br>\n"@)),
            Err(e) => Err(e),
        },
        Err(e) => Err(e),
    }
}

/// A plain word, emitted with a space after it; a word that begins with `#`
/// is rejected.
pub open spec fn rule_text(s: ParserState) -> Parsed {
    if s.cur.len() > 0 && s.cur[0] == '#' {
        Err((CompileError::UnexpectedKeyword(s.cur), s))
    } else {
        Ok(emit(advanced(s), s.cur + seq![' ']))
    }
}

// Each rule leaves no more input than it found, and the rules of the loops
// consume at least one token.

/// Reading text up to a terminator consumes no input it does not read.
pub proof fn lemma_gather_measure(
    s: ParserState,
    stop: Seq<char>,
    text: Seq<char>,
    err: CompileError<Seq<char>>,
)
    ensures
        gather(s, stop, text, err) matches Ok((s2, _)) ==> measure(s2) <= measure(s),
    decreases measure(s),
{
    if uppercase(s.cur) != stop && advanced(s).cur.len() != 0 {
        lemma_gather_measure(advanced(s), stop, text + s.cur + seq![' '], err);
    }
}

/// Comments consume input; any that are present consume at least one token.
pub proof fn lemma_comment_measure(s: ParserState)
    ensures
        rule_comment(s) matches Ok(s2) ==> measure(s2) <= measure(s),
        rule_comment(s) matches Ok(s2) ==> (s.cur.len() > 0 && uppercase(s.cur) == "#OBTW"@
            ==> measure(s2) < measure(s)),
    decreases measure(s),
{
    if s.cur.len() > 0 && uppercase(s.cur) == "#OBTW"@ {
        let g = gather(advanced(s), "#TLDR"@, seq![], CompileError::MissingTldrTerminator);
        lemma_gather_measure(advanced(s), "#TLDR"@, seq![], CompileError::MissingTldrTerminator);
        if let Ok((s1, text)) = g {
            if let Ok(s2) = expect(s1, "#TLDR"@) {
                lemma_comment_measure(emit(s2, "<!-- "@ + text + " -->\n"@));
            }
        }
    }
}

/// Styled text consumes input, at least its opening token.
pub proof fn lemma_styled_text_measure(
    s: ParserState,
    kind: Seq<char>,
    open: Seq<char>,
    close: Seq<char>,
)
    ensures
        styled_text(s, kind, open, close) matches Ok(s2) ==> measure(s2) <= measure(s) && (
        s.cur.len() > 0 ==> measure(s2) < measure(s)),
{
    if let Ok(s1) = expect(s, "#GIMMEH"@) {
        if let Ok(s2) = expect(s1, kind) {
            lemma_gather_measure(s2, "#OIC"@, seq![], CompileError::MissingOicTerminator);
        }
    }
}

/// The items that `#GIMMEH` opens consume input, at least their first token.
pub proof fn lemma_gimmeh_item_measure(s: ParserState)
    ensures
        gimmeh_item(s) matches Ok(s2) ==> measure(s2) <= measure(s) && (s.cur.len() > 0
            ==> measure(s2) < measure(s)),
{
    lemma_styled_text_measure(s, "BOLD"@, "<b>"@, "</b>"@);
    lemma_styled_text_measure(s, "ITALICS"@, "<i>"@, "</i>"@);
}

/// The entries of a list item consume input.
pub proof fn lemma_list_entries_measure(s: ParserState)
    ensures
        list_entries(s) matches Ok(s2) ==> measure(s2) <= measure(s),
    decreases measure(s),
{
    if !(s.cur.len() == 0 || uppercase(s.cur) == "#OIC"@) {
        lemma_inner_list_measure(s);
        if let Ok(s1) = rule_inner_list(s) {
            lemma_list_entries_measure(s1);
        }
    }
}

/// A list entry consumes at least one token.
pub proof fn lemma_inner_list_measure(s: ParserState)
    ensures
        rule_inner_list(s) matches Ok(s2) ==> measure(s2) <= measure(s) && (s.cur.len() > 0
            ==> measure(s2) < measure(s)),
{
    lemma_gimmeh_item_measure(s);
}

/// List items consume input.
pub proof fn lemma_list_items_measure(s: ParserState)
    ensures
        rule_list_items(s) matches Ok(s2) ==> measure(s2) <= measure(s),
    decreases measure(s),
{
    if s.cur.len() > 0 && uppercase(s.cur) == "#GIMMEH"@ && next_upper(s) == "ITEM"@ {
        if let Ok(s1) = expect(advanced(s), "ITEM"@) {
            lemma_list_entries_measure(emit(s1, "<li>"@));
            if let Ok(s2) = list_entries(emit(s1, "<li>"@)) {
                if let Ok(s3) = expect(s2, "#OIC"@) {
                    lemma_list_items_measure(emit(s3, "</li>\n"@));
                }
            }
        }
    }
}

/// A list consumes at least its opening token.
pub proof fn lemma_list_measure(s: ParserState)
    ensures
        rule_list(s) matches Ok(s2) ==> measure(s2) <= measure(s) && (s.cur.len() > 0
            ==> measure(s2) < measure(s)),
{
    if let Ok(s1) = expect(s, "#MAEK"@) {
        if let Ok(s2) = expect(s1, "LIST"@) {
            lemma_list_items_measure(emit(s2, "<ul>\n"@));
        }
    }
}

/// A paragraph item consumes at least one token.
pub proof fn lemma_inner_text_measure(s: ParserState)
    ensures
        rule_inner_text(s) matches Ok(s2) ==> measure(s2) <= measure(s) && (s.cur.len() > 0
            ==> measure(s2) < measure(s)),
{
    lemma_gimmeh_item_measure(s);
    lemma_list_measure(s);
}

/// The items of a paragraph consume input.
pub proof fn lemma_inner_paragraph_measure(s: ParserState)
    ensures
        rule_inner_paragraph(s) matches Ok(s2) ==> measure(s2) <= measure(s),
    decreases measure(s),
{
    if !(s.cur.len() == 0 || uppercase(s.cur) == "#MKAY"@) {
        lemma_inner_text_measure(s);
        if let Ok(s1) = rule_inner_text(s) {
            lemma_inner_paragraph_measure(s1);
        }
    }
}

/// A paragraph consumes at least its opening token.
pub proof fn lemma_paragraph_measure(s: ParserState)
    ensures
        rule_paragraph(s) matches Ok(s2) ==> measure(s2) <= measure(s) && (s.cur.len() > 0
            ==> measure(s2) < measure(s)),
{
    if let Ok(s1) = expect(s, "#MAEK"@) {
        if let Ok(s2) = expect(s1, "PARAGRAF"@) {
            let s3 = scope_pushed(emit(s2, "<p>"@));
            if let Ok(s4) = if uppercase(s3.cur) == "#IHAZ"@ {
                rule_variable_define(s3)
            } else {
                Ok(s3)
            } {
                lemma_inner_paragraph_measure(s4);
            }
        }
    }
}

/// A body item consumes at least one token.
pub proof fn lemma_body_item_measure(s: ParserState)
    ensures
        body_item(s) matches Ok(s2) ==> measure(s2) <= measure(s) && (s.cur.len() > 0
            ==> measure(s2) < measure(s)),
{
    lemma_comment_measure(s);
    lemma_paragraph_measure(s);
    lemma_list_measure(s);
    lemma_gimmeh_item_measure(s);
}

} // verus!

//! Properties of the library as a whole.

use vstd::prelude::*;
use crate::grammar::{
    advanced, body_item, compiled, define_in, emit, expect, gather, gimmeh_item, list_entries,
    loaded, measure, next_upper, resolve, rule_body, rule_comment, rule_head, rule_inner_list,
    rule_inner_paragraph, rule_inner_text, rule_list, rule_list_items, rule_lolcode,
    rule_paragraph, rule_text, rule_title, rule_variable_define,
    rule_variable_use, scope_popped, scope_pushed, styled_text, ParserState,
};
use crate::lexer::{flush, lex_step, scan, source_words, words};
use crate::text::{is_white_space, uppercase};

verus! {

/// `b` is `a` with more HTML appended and the same scopes, except that the
/// innermost scope may have gained variables.
pub open spec fn extends(a: ParserState, b: ParserState) -> bool {
    &&& a.html.is_prefix_of(b.html)
    &&& b.scopes.len() == a.scopes.len()
    &&& forall|i: int| 0 <= i < a.scopes.len() - 1 ==> #[trigger] b.scopes[i] == a.scopes[i]
}

proof fn lemma_extends_trans(a: ParserState, b: ParserState, c: ParserState)
    requires
        extends(a, b),
        extends(b, c),
    ensures
        extends(a, c),
{
    assert(c.html.subrange(0, a.html.len() as int) =~= c.html.subrange(0, b.html.len() as int).subrange(
        0,
        a.html.len() as int,
    ));
}

proof fn lemma_prefix_trans(a: Seq<char>, b: Seq<char>, c: Seq<char>)
    requires
        a.is_prefix_of(b),
        b.is_prefix_of(c),
    ensures
        a.is_prefix_of(c),
{
    assert(c.subrange(0, a.len() as int) =~= c.subrange(0, b.len() as int).subrange(
        0,
        a.len() as int,
    ));
}

proof fn lemma_prefix_append(a: Seq<char>, b: Seq<char>, t: Seq<char>)
    requires
        a.is_prefix_of(b),
    ensures
        a.is_prefix_of(b + t),
{
    assert((b + t).subrange(0, a.len() as int) =~= b.subrange(0, a.len() as int));
}

proof fn lemma_extends_refl(s: ParserState)
    ensures
        extends(s, s),
{
    assert(s.html =~= s.html.subrange(0, s.html.len() as int));
}

proof fn lemma_emit_extends(a: ParserState, b: ParserState, t: Seq<char>)
    requires
        extends(a, b),
    ensures
        extends(a, emit(b, t)),
{
    lemma_prefix_append(a.html, b.html, t);
}

proof fn lemma_gather_frame(
    s: ParserState,
    stop: Seq<char>,
    text: Seq<char>,
    err: crate::error::CompileError<Seq<char>>,
)
    ensures
        gather(s, stop, text, err) matches Ok((s2, _)) ==> s2.html == s.html && s2.scopes
            == s.scopes,
    decreases measure(s),
{
    if uppercase(s.cur) != stop && advanced(s).cur.len() != 0 {
        lemma_gather_frame(advanced(s), stop, text + s.cur + seq![' '], err);
    }
}

proof fn lemma_styled_frame(s: ParserState, kind: Seq<char>, open: Seq<char>, close: Seq<char>)
    ensures
        styled_text(s, kind, open, close) matches Ok(s2) ==> extends(s, s2),
{
    lemma_extends_refl(s);
    if let Ok(s1) = expect(s, "#GIMMEH"@) {
        if let Ok(s2) = expect(s1, kind) {
            lemma_gather_frame(s2, "#OIC"@, seq![], crate::error::CompileError::MissingOicTerminator);
            if let Ok((s3, text)) = gather(
                s2,
                "#OIC"@,
                seq![],
                crate::error::CompileError::MissingOicTerminator,
            ) {
                if let Ok(s4) = expect(s3, "#OIC"@) {
                    lemma_emit_extends(s, s4, open + text + close);
                }
            }
        }
    }
}

proof fn lemma_gimmeh_item_frame(s: ParserState)
    ensures
        gimmeh_item(s) matches Ok(s2) ==> extends(s, s2),
{
    lemma_extends_refl(s);
    lemma_styled_frame(s, "BOLD"@, "<b>"@, "</b>"@);
    lemma_styled_frame(s, "ITALICS"@, "<i>"@, "</i>"@);
    if let Ok(s1) = expect(s, "#GIMMEH"@) {
        if let Ok(s2) = expect(s1, "LINX"@) {
            if let Ok(s3) = expect(advanced(s2), "#OIC"@) {
                lemma_emit_extends(s, s3, "<a href=\""@ + s2.cur + "\">"@ + s2.cur + "</a>"@);
            }
        }
        if let Ok(s2) = expect(s1, "NEWLINE"@) {
            lemma_emit_extends(s, s2, "<br>\n"@);
        }
    }
}

proof fn lemma_variable_use_frame(s: ParserState)
    ensures
        rule_variable_use(s) matches Ok(s2) ==> extends(s, s2),
{
    lemma_extends_refl(s);
    if let Ok(s1) = expect(s, "#LEMMESEE"@) {
        if let Ok(s2) = expect(advanced(s1), "#OIC"@) {
            if let Some(v) = resolve(s2.scopes, s1.cur) {
                lemma_emit_extends(s, s2, v + seq![' ']);
            }
        }
    }
}

proof fn lemma_variable_define_frame(s: ParserState)
    ensures
        rule_variable_define(s) matches Ok(s2) ==> extends(s, s2),
{
    lemma_extends_refl(s);
}

proof fn lemma_text_frame(s: ParserState)
    ensures
        rule_text(s) matches Ok(s2) ==> extends(s, s2),
{
    lemma_extends_refl(s);
    lemma_emit_extends(s, advanced(s), s.cur + seq![' ']);
}

proof fn lemma_inner_list_frame(s: ParserState)
    ensures
        rule_inner_list(s) matches Ok(s2) ==> extends(s, s2),
{
    lemma_gimmeh_item_frame(s);
    lemma_variable_use_frame(s);
    lemma_text_frame(s);
}

proof fn lemma_list_entries_frame(s: ParserState)
    ensures
        list_entries(s) matches Ok(s2) ==> extends(s, s2),
    decreases measure(s),
{
    lemma_extends_refl(s);
    if !(s.cur.len() == 0 || uppercase(s.cur) == "#OIC"@) {
        lemma_inner_list_frame(s);
        crate::grammar::lemma_inner_list_measure(s);
        if let Ok(s1) = rule_inner_list(s) {
            lemma_list_entries_frame(s1);
            if let Ok(s2) = list_entries(s1) {
                lemma_extends_trans(s, s1, s2);
            }
        }
    }
}

proof fn lemma_list_items_frame(s: ParserState)
    ensures
        rule_list_items(s) matches Ok(s2) ==> extends(s, s2),
    decreases measure(s),
{
    lemma_extends_refl(s);
    if s.cur.len() > 0 && uppercase(s.cur) == "#GIMMEH"@ && next_upper(s) == "ITEM"@ {
        if let Ok(s1) = expect(advanced(s), "ITEM"@) {
            let e1 = emit(s1, "<li>"@);
            lemma_emit_extends(s, s1, "<li>"@);
            lemma_list_entries_frame(e1);
            crate::grammar::lemma_list_entries_measure(e1);
            if let Ok(s2) = list_entries(e1) {
                lemma_extends_trans(s, e1, s2);
                if let Ok(s3) = expect(s2, "#OIC"@) {
                    let e3 = emit(s3, "</li>\n"@);
                    lemma_emit_extends(s, s3, "</li>\n"@);
                    lemma_list_items_frame(e3);
                    if let Ok(s4) = rule_list_items(e3) {
                        lemma_extends_trans(s, e3, s4);
                    }
                }
            }
        }
    }
}

proof fn lemma_list_frame(s: ParserState)
    ensures
        rule_list(s) matches Ok(s2) ==> extends(s, s2),
{
    lemma_extends_refl(s);
    if let Ok(s1) = expect(s, "#MAEK"@) {
        if let Ok(s2) = expect(s1, "LIST"@) {
            let e2 = emit(s2, "<ul>\n"@);
            lemma_emit_extends(s, s2, "<ul>\n"@);
            lemma_list_items_frame(e2);
            if let Ok(s3) = rule_list_items(e2) {
                lemma_extends_trans(s, e2, s3);
                if let Ok(s4) = expect(s3, "#MKAY"@) {
                    lemma_emit_extends(s, s4, "</ul>\n"@);
                }
            }
        }
    }
}

proof fn lemma_inner_text_frame(s: ParserState)
    ensures
        rule_inner_text(s) matches Ok(s2) ==> extends(s, s2),
{
    lemma_gimmeh_item_frame(s);
    lemma_list_frame(s);
    lemma_variable_use_frame(s);
    lemma_variable_define_frame(s);
    lemma_text_frame(s);
}

proof fn lemma_inner_paragraph_frame(s: ParserState)
    ensures
        rule_inner_paragraph(s) matches Ok(s2) ==> extends(s, s2),
    decreases measure(s),
{
    lemma_extends_refl(s);
    if !(s.cur.len() == 0 || uppercase(s.cur) == "#MKAY"@) {
        lemma_inner_text_frame(s);
        crate::grammar::lemma_inner_text_measure(s);
        if let Ok(s1) = rule_inner_text(s) {
            lemma_inner_paragraph_frame(s1);
            if let Ok(s2) = rule_inner_paragraph(s1) {
                lemma_extends_trans(s, s1, s2);
            }
        }
    }
}

/// A paragraph appends to the HTML and closes the scope it opens: the
/// scopes after it are exactly those before it.
pub proof fn law_paragraph_restores_scopes(s: ParserState)
    ensures
        rule_paragraph(s) matches Ok(s2) ==> s.html.is_prefix_of(s2.html) && s2.scopes
            == s.scopes,
{
    lemma_extends_refl(s);
    if let Ok(s1) = expect(s, "#MAEK"@) {
        if let Ok(s2) = expect(s1, "PARAGRAF"@) {
            let s3 = scope_pushed(emit(s2, "<p>"@));
            lemma_extends_refl(s3);
            lemma_prefix_append(s.html, s2.html, "<p>"@);
            lemma_variable_define_frame(s3);
            let d = if uppercase(s3.cur) == "#IHAZ"@ {
                rule_variable_define(s3)
            } else {
                Ok(s3)
            };
            if let Ok(s4) = d {
                lemma_inner_paragraph_frame(s4);
                if let Ok(s5) = rule_inner_paragraph(s4) {
                    lemma_extends_trans(s3, s4, s5);
                    if let Ok(s6) = expect(s5, "#MKAY"@) {
                        lemma_prefix_trans(s.html, s3.html, s6.html);
                        lemma_prefix_append(s.html, s6.html, "</p>\n"@);
                        assert(s6.scopes.drop_last() =~= s.scopes);
                    }
                }
            }
        }
    }
}

proof fn lemma_paragraph_frame(s: ParserState)
    ensures
        rule_paragraph(s) matches Ok(s2) ==> extends(s, s2),
{
    law_paragraph_restores_scopes(s);
}

proof fn lemma_comment_frame(s: ParserState)
    ensures
        rule_comment(s) matches Ok(s2) ==> extends(s, s2),
    decreases measure(s),
{
    lemma_extends_refl(s);
    if s.cur.len() > 0 && uppercase(s.cur) == "#OBTW"@ {
        let err = crate::error::CompileError::MissingTldrTerminator;
        lemma_gather_frame(advanced(s), "#TLDR"@, seq![], err);
        crate::grammar::lemma_gather_measure(advanced(s), "#TLDR"@, seq![], err);
        if let Ok((s1, text)) = gather(advanced(s), "#TLDR"@, seq![], err) {
            if let Ok(s2) = expect(s1, "#TLDR"@) {
                let e2 = emit(s2, "<!-- "@ + text + " -->\n"@);
                lemma_emit_extends(s, s2, "<!-- "@ + text + " -->\n"@);
                lemma_comment_frame(e2);
                if let Ok(s3) = rule_comment(e2) {
                    lemma_extends_trans(s, e2, s3);
                }
            }
        }
    }
}

proof fn lemma_body_item_frame(s: ParserState)
    ensures
        body_item(s) matches Ok(s2) ==> extends(s, s2),
{
    lemma_comment_frame(s);
    lemma_paragraph_frame(s);
    lemma_list_frame(s);
    lemma_gimmeh_item_frame(s);
    lemma_variable_define_frame(s);
    lemma_variable_use_frame(s);
    lemma_text_frame(s);
}

proof fn lemma_body_frame(s: ParserState)
    ensures
        rule_body(s) matches Ok(s2) ==> extends(s, s2),
    decreases measure(s),
{
    lemma_extends_refl(s);
    if !(s.cur.len() == 0 || uppercase(s.cur) == "#KBYE"@) {
        lemma_body_item_frame(s);
        crate::grammar::lemma_body_item_measure(s);
        if let Ok(s1) = body_item(s) {
            lemma_body_frame(s1);
            if let Ok(s2) = rule_body(s1) {
                lemma_extends_trans(s, s1, s2);
            }
        }
    }
}

proof fn lemma_title_frame(s: ParserState)
    ensures
        rule_title(s) matches Ok(s2) ==> extends(s, s2),
{
    lemma_extends_refl(s);
    if let Ok(s1) = expect(s, "#GIMMEH"@) {
        let err = crate::error::CompileError::MissingOicTerminator;
        lemma_gather_frame(advanced(s1), "#OIC"@, seq![], err);
        if let Ok((s2, text)) = gather(advanced(s1), "#OIC"@, seq![], err) {
            if let Ok(s3) = expect(s2, "#OIC"@) {
                lemma_emit_extends(s, s3, "<title>"@ + text + "</title>\n"@);
            }
        }
    }
}

proof fn lemma_head_frame(s: ParserState)
    ensures
        rule_head(s) matches Ok(s2) ==> extends(s, s2),
{
    lemma_extends_refl(s);
    if uppercase(s.cur) == "#MAEK"@ && uppercase(advanced(s).cur) == "HEAD"@ {
        let e = emit(advanced(advanced(s)), "<head>\n"@);
        lemma_emit_extends(s, advanced(advanced(s)), "<head>\n"@);
        lemma_title_frame(e);
        if let Ok(s1) = rule_title(e) {
            lemma_extends_trans(s, e, s1);
            if let Ok(s2) = expect(s1, "#MKAY"@) {
                lemma_emit_extends(s, s2, "</head>\n"@);
            }
        }
    }
}

/// A whole program appends to the HTML: it begins with `<html>` and the
/// closing `</html>` comes last; the scopes keep their number and all but
/// the innermost are unchanged.
pub proof fn law_program_is_wrapped_in_html(s: ParserState)
    ensures
        rule_lolcode(s) matches Ok(s2) ==> {
            &&& (s.html + "<html>\n"@).is_prefix_of(s2.html)
            &&& s2.html.len() >= "</html>\n"@.len()
            &&& s2.html.skip(s2.html.len() - "</html>\n"@.len()) == "</html>\n"@
            &&& extends(s, s2)
        },
{
    let s0 = emit(s, "<html>\n"@);
    lemma_extends_refl(s0);
    lemma_extends_refl(s);
    lemma_emit_extends(s, s, "<html>\n"@);
    if let Ok(s1) = expect(s0, "#HAI"@) {
        lemma_comment_frame(s1);
        if let Ok(s2) = rule_comment(s1) {
            lemma_head_frame(s2);
            if let Ok(s3) = rule_head(s2) {
                lemma_body_frame(s3);
                if let Ok(s4) = rule_body(s3) {
                    if let Ok(s5) = expect(s4, "#KBYE"@) {
                        lemma_extends_trans(s1, s2, s3);
                        lemma_extends_trans(s1, s3, s4);
                        lemma_extends_trans(s, s1, s5);
                        lemma_emit_extends(s, s5, "</html>\n"@);
                        lemma_prefix_append(s0.html, s5.html, "</html>\n"@);
                        assert((s5.html + "</html>\n"@).skip(
                            s5.html.len() as int,
                        ) =~= "</html>\n"@);
                    }
                }
            }
        }
    }
}

/// The HTML of a compiled program begins with `<html>` and ends with
/// `</html>`.
pub proof fn law_compiled_is_html_document(source: Seq<char>)
    ensures
        compiled(source) matches Ok(h) ==> {
            &&& "<html>\n"@.is_prefix_of(h)
            &&& h.len() >= "</html>\n"@.len()
            &&& h.skip(h.len() - "</html>\n"@.len()) == "</html>\n"@
        },
{
    let s = loaded(source, seq![], seq![Map::empty()]);
    law_program_is_wrapped_in_html(s);
    assert(s.html + "<html>\n"@ =~= "<html>\n"@);
}

/// Closing the scope just opened gives back the scopes as they were.
pub proof fn law_pop_undoes_push(s: ParserState)
    ensures
        scope_popped(scope_pushed(s)) == s,
{
    assert(s.scopes.push(Map::empty()).drop_last() =~= s.scopes);
}

/// A definition is read back: once `name` is bound to `value` in the
/// innermost scope, `name` resolves to `value`, and every other name
/// resolves as before.
pub proof fn law_resolve_after_define(
    scopes: Seq<Map<Seq<char>, Seq<char>>>,
    name: Seq<char>,
    value: Seq<char>,
    other: Seq<char>,
)
    requires
        scopes.len() > 0,
    ensures
        resolve(define_in(scopes, name, value), name) == Some(value),
        other != name ==> resolve(define_in(scopes, name, value), other) == resolve(scopes, other),
{
    let d = define_in(scopes, name, value);
    assert(d.drop_last() =~= scopes.drop_last());
}

/// Scopes nest: a name defined in the innermost scope hides its definitions
/// in enclosing scopes, and a name it does not define is looked up outside.
pub proof fn law_inner_scope_shadows(
    scopes: Seq<Map<Seq<char>, Seq<char>>>,
    inner: Map<Seq<char>, Seq<char>>,
    name: Seq<char>,
)
    ensures
        inner.contains_key(name) ==> resolve(scopes.push(inner), name) == Some(inner[name]),
        !inner.contains_key(name) ==> resolve(scopes.push(inner), name) == resolve(scopes, name),
{
    assert(scopes.push(inner).drop_last() =~= scopes);
}

/// `#IHAZ name #ITIZ value #MKAY` followed by `#LEMMESEE name #OIC` emits
/// `value` (and a space): a use reads what the definition wrote.
pub proof fn law_use_reads_definition(
    s: ParserState,
    name: Seq<char>,
    value: Seq<char>,
    rest: Seq<Seq<char>>,
)
    requires
        s.scopes.len() > 0,
        s.cur == "#IHAZ"@,
        s.pending == rest + seq!["#OIC"@, name, "#LEMMESEE"@, "#MKAY"@, value, "#ITIZ"@, name],
    ensures
        rule_variable_define(s) matches Ok(s1) && rule_variable_use(s1) matches Ok(s2) && s2.html
            == s.html + value + seq![' '] && s2.scopes == define_in(s.scopes, name, value),
{
    let a1 = advanced(s);
    assert(a1.cur == name);
    let a2 = advanced(a1);
    assert(a2.cur == "#ITIZ"@);
    let a3 = advanced(a2);
    assert(a3.cur == value);
    let a4 = advanced(a3);
    assert(a4.cur == "#MKAY"@);
    let a5 = advanced(a4);
    assert(a5.cur == "#LEMMESEE"@);
    assert(a5.pending =~= rest + seq!["#OIC"@, name]);
    let s1 = ParserState { scopes: define_in(a5.scopes, name, value), ..a5 };
    assert(rule_variable_define(s) == Ok::<ParserState, crate::grammar::Rejection>(s1));
    let b1 = advanced(s1);
    assert(b1.cur == name);
    let b2 = advanced(b1);
    assert(b2.cur == "#OIC"@);
    assert(b2.pending =~= rest);
    let b3 = advanced(b2);
    law_resolve_after_define(s.scopes, name, value, name);
    assert(s1.scopes == define_in(s.scopes, name, value));
    assert(resolve(b3.scopes, name) == Some(value));
    assert(rule_variable_use(s1) == Ok::<ParserState, crate::grammar::Rejection>(
        emit(b3, value + seq![' ']),
    ));
    assert(emit(b3, value + seq![' ']).html =~= s.html + value + seq![' ']);
}

/// The words of a text are non-empty, hold no whitespace, and together hold
/// every non-whitespace character of the text, in order.
pub proof fn law_words_are_the_text_without_whitespace(text: Seq<char>)
    ensures
        forall|i: int| 0 <= i < words(text).len() ==> #[trigger] words(text)[i].len() > 0,
        forall|i: int, j: int|
            0 <= i < words(text).len() && 0 <= j < words(text)[i].len() ==> !is_white_space(
                #[trigger] words(text)[i][j],
            ),
        words(text).flatten_alt() == text.filter(|c: char| !is_white_space(c)),
{
    lemma_scan_invariant(text);
    let acc = scan(text, seq![], seq![]);
    if acc.1.len() > 0 {
        assert(flush(acc).drop_last() =~= acc.0);
    }
}

/// What the scan keeps: finished words are non-empty, no word holds
/// whitespace, and the words followed by the current word are the text's
/// non-whitespace characters.
proof fn lemma_scan_invariant(text: Seq<char>)
    ensures
        ({
            let acc = scan(text, seq![], seq![]);
            &&& forall|i: int| 0 <= i < acc.0.len() ==> #[trigger] acc.0[i].len() > 0
            &&& forall|i: int, j: int|
                0 <= i < acc.0.len() && 0 <= j < acc.0[i].len() ==> !is_white_space(
                    #[trigger] acc.0[i][j],
                )
            &&& forall|j: int| 0 <= j < acc.1.len() ==> !is_white_space(#[trigger] acc.1[j])
            &&& acc.0.flatten_alt() + acc.1 == text.filter(|c: char| !is_white_space(c))
        }),
    decreases text.len(),
{
    reveal_with_fuel(Seq::filter, 1);
    if text.len() == 0 {
        assert(seq![].flatten_alt() + Seq::<char>::empty() =~= Seq::<char>::empty());
    } else {
        let prev = text.drop_last();
        lemma_scan_invariant(prev);
        let a = scan(prev, seq![], seq![]);
        let c = text.last();
        assert(scan(text, seq![], seq![]) == lex_step(a, c));
        if is_white_space(c) {
            if a.1.len() > 0 {
                assert(a.0.push(a.1).drop_last() =~= a.0);
                assert(a.0.push(a.1).flatten_alt() + Seq::<char>::empty() =~= a.0.flatten_alt()
                    + a.1);
            }
        } else {
            assert(a.0.flatten_alt() + a.1.push(c) =~= (a.0.flatten_alt() + a.1).push(c));
        }
    }
}

/// Reading a source makes its first word current, and leaves the others to
/// be read in order: each advance yields the next word.
pub proof fn law_loaded_reads_words_in_order(
    source: Seq<char>,
    html: Seq<char>,
    scopes: Seq<Map<Seq<char>, Seq<char>>>,
)
    ensures
        ({
            let s = loaded(source, html, scopes);
            let w = source_words(source);
            &&& w.len() > 0 ==> s.cur == w[0] && s.pending.reverse() == w.skip(1)
            &&& w.len() == 0 ==> s.cur == Seq::<char>::empty() && s.pending.len() == 0
            &&& s.html == html
            &&& s.scopes == scopes
        }),
{
    let s = loaded(source, html, scopes);
    let w = source_words(source);
    if w.len() > 0 {
        assert(s.pending.reverse() =~= w.skip(1));
    }
}

} // verus!

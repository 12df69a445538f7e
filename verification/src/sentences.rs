//! What the rules make of given token sequences: laws stated over the tokens
//! a parser is about to read and the HTML it then emits.

use vstd::prelude::*;
use crate::error::CompileError;
use crate::grammar::{
    advanced, body_item, define_in, emit, expect, gather, gimmeh_item, list_entries, next_upper,
    resolve, rule_body, rule_comment, rule_head, rule_inner_list, rule_inner_paragraph,
    rule_inner_text, rule_link, rule_list, rule_list_items, rule_lolcode, rule_newline,
    rule_paragraph, rule_text, rule_title, rule_variable_use, scope_popped, scope_pushed,
    styled_text, ParserState, Rejection,
};
use crate::text::uppercase;

verus! {

/// The parser is about to read exactly `toks`, in order: the first is
/// current and the others are pending (none at all when `toks` is empty).
pub open spec fn reads(s: ParserState, toks: Seq<Seq<char>>) -> bool {
    if toks.len() > 0 {
        s.cur == toks[0] && s.pending.reverse() == toks.skip(1)
    } else {
        s.cur.len() == 0 && s.pending.len() == 0
    }
}

/// `tok` is the keyword `kw` in some letter case, and `kw` is upper case.
pub open spec fn is_kw(tok: Seq<char>, kw: Seq<char>) -> bool {
    uppercase(tok) == kw && uppercase(kw) == kw
}

/// Words joined as free text is emitted: each followed by one space.
pub open spec fn spaced(ws: Seq<Seq<char>>) -> Seq<char>
    decreases ws.len(),
{
    if ws.len() == 0 {
        seq![]
    } else {
        ws[0] + seq![' '] + spaced(ws.skip(1))
    }
}

/// Words that can stand in free text up to the terminator `stop`: none is
/// empty, and none is the terminator.
pub open spec fn text_words(ws: Seq<Seq<char>>, stop: Seq<char>) -> bool {
    forall|i: int| 0 <= i < ws.len() ==> #[trigger] ws[i].len() > 0 && uppercase(ws[i]) != stop
}

/// Reading one token moves on to the next.
pub proof fn lemma_reads_advance(s: ParserState, toks: Seq<Seq<char>>)
    requires
        reads(s, toks),
        toks.len() > 0,
    ensures
        reads(advanced(s), toks.skip(1)),
        advanced(s).html == s.html,
        advanced(s).scopes == s.scopes,
{
    let p = s.pending;
    if p.len() > 0 {
        assert(p.reverse()[0] == p.last());
        assert(p.drop_last().reverse() =~= p.reverse().skip(1));
        assert(toks.skip(1).skip(1) =~= toks.skip(2));
        assert(toks.skip(1)[0] == toks[1]);
    } else {
        assert(toks.skip(1).len() == 0);
    }
}

/// The token after the current one, as `next_upper` sees it.
pub proof fn lemma_reads_next(s: ParserState, toks: Seq<Seq<char>>)
    requires
        reads(s, toks),
        toks.len() > 1,
    ensures
        next_upper(s) == uppercase(toks[1]),
{
    let p = s.pending;
    assert(p.reverse().len() == toks.len() - 1);
    assert(p.reverse()[0] == toks.skip(1)[0]);
    assert(p.reverse()[0] == p.last());
}

/// Free text read up to its terminator gives its words, each followed by a
/// space, and stops with the terminator current.
pub proof fn lemma_gather_words(
    s: ParserState,
    ws: Seq<Seq<char>>,
    t: Seq<char>,
    rest: Seq<Seq<char>>,
    stop: Seq<char>,
    text: Seq<char>,
    err: CompileError<Seq<char>>,
)
    requires
        reads(s, ws + seq![t] + rest),
        text_words(ws, stop),
        t.len() > 0,
        uppercase(t) == stop,
    ensures
        gather(s, stop, text, err) matches Ok((s2, txt)) && txt == text + spaced(ws) && reads(
            s2,
            seq![t] + rest,
        ) && s2.html == s.html && s2.scopes == s.scopes,
    decreases ws.len(),
{
    let toks = ws + seq![t] + rest;
    if ws.len() == 0 {
        assert(toks =~= seq![t] + rest);
        assert(text + spaced(ws) =~= text);
    } else {
        assert(toks[0] == ws[0]);
        lemma_reads_advance(s, toks);
        assert(toks.skip(1) =~= ws.skip(1) + seq![t] + rest);
        let a = advanced(s);
        assert(a.cur == toks.skip(1)[0]);
        if ws.len() > 1 {
            assert(a.cur == ws[1]);
        } else {
            assert(a.cur == t);
        }
        lemma_gather_words(a, ws.skip(1), t, rest, stop, text + s.cur + seq![' '], err);
        assert(text + s.cur + seq![' '] + spaced(ws.skip(1)) =~= text + spaced(ws));
    }
}

/// The keywords that choose a rule are distinct, and each begins with `#`.
proof fn lemma_keywords_distinct()
    ensures
        "#OBTW"@ != "#KBYE"@,
        "#IHAZ"@ != "#MKAY"@,
        "#IHAZ"@ != "#GIMMEH"@,
        "#IHAZ"@ != "#MAEK"@,
        "#IHAZ"@ != "#LEMMESEE"@,
        "#LEMMESEE"@ != "#GIMMEH"@,
        "#LEMMESEE"@ != "#MAEK"@,
        "#GIMMEH"@ != "#OBTW"@,
        "#GIMMEH"@ != "#MAEK"@,
        "ITALICS"@ != "BOLD"@,
        "LINX"@ != "BOLD"@,
        "LINX"@ != "ITALICS"@,
        "NEWLINE"@ != "BOLD"@,
        "NEWLINE"@ != "ITALICS"@,
        "NEWLINE"@ != "LINX"@,
        "LIST"@ != "PARAGRAF"@,
        "#MKAY"@ != "#GIMMEH"@,
        "#KBYE"@ != "#MAEK"@,
        "#LEMMESEE"@ != "#OBTW"@,
        "#MAEK"@ != "#OBTW"@,
        "#IHAZ"@ != "#OBTW"@,
        "#OIC"@.len() > 0 && "#OIC"@[0] == '#',
        "#MKAY"@.len() > 0 && "#MKAY"@[0] == '#',
        "#KBYE"@.len() > 0 && "#KBYE"@[0] == '#',
        "#OBTW"@.len() > 0 && "#OBTW"@[0] == '#',
        "#MAEK"@.len() > 0 && "#MAEK"@[0] == '#',
        "#GIMMEH"@.len() > 0 && "#GIMMEH"@[0] == '#',
        "#IHAZ"@.len() > 0 && "#IHAZ"@[0] == '#',
        "#LEMMESEE"@.len() > 0 && "#LEMMESEE"@[0] == '#',
{
    reveal_strlit("#OBTW");
    reveal_strlit("#KBYE");
    reveal_strlit("#IHAZ");
    reveal_strlit("#MKAY");
    reveal_strlit("#GIMMEH");
    reveal_strlit("#MAEK");
    reveal_strlit("#LEMMESEE");
    reveal_strlit("ITALICS");
    reveal_strlit("BOLD");
    reveal_strlit("LINX");
    reveal_strlit("NEWLINE");
    reveal_strlit("LIST");
    reveal_strlit("PARAGRAF");
    reveal_strlit("#OIC");
    assert("LINX"@.len() != "ITALICS"@.len());
    assert("LINX"@[0] != "BOLD"@[0]);
    assert("NEWLINE"@.len() != "BOLD"@.len());
    assert("NEWLINE"@[0] != "ITALICS"@[0]);
    assert("NEWLINE"@.len() != "LINX"@.len());
    assert("LIST"@.len() != "PARAGRAF"@.len());
    assert("#MKAY"@.len() != "#GIMMEH"@.len());
    assert("#KBYE"@[1] != "#MAEK"@[1]);
    assert("#LEMMESEE"@.len() != "#OBTW"@.len());
    assert("#MAEK"@[1] != "#OBTW"@[1]);
    assert("#IHAZ"@[1] != "#OBTW"@[1]);
    assert("#OBTW"@[1] != "#KBYE"@[1]);
    assert("#IHAZ"@[1] != "#MKAY"@[1]);
    assert("#IHAZ"@.len() != "#GIMMEH"@.len());
    assert("#IHAZ"@[1] != "#MAEK"@[1]);
    assert("#IHAZ"@.len() != "#LEMMESEE"@.len());
    assert("#LEMMESEE"@.len() != "#GIMMEH"@.len());
    assert("#LEMMESEE"@.len() != "#MAEK"@.len());
    assert("#GIMMEH"@.len() != "#OBTW"@.len());
    assert("#GIMMEH"@.len() != "#MAEK"@.len());
    assert("ITALICS"@.len() != "BOLD"@.len());
}

/// A comment may stand anywhere in the body: `#OBTW w1 .. wn #TLDR` is
/// accepted there, appends `<!-- w1 .. wn  -->` (each word followed by a
/// space) to the HTML, and the body goes on with the tokens after it.
pub proof fn law_comment_in_body(
    s: ParserState,
    c: Seq<char>,
    ws: Seq<Seq<char>>,
    t: Seq<char>,
    rest: Seq<Seq<char>>,
)
    requires
        reads(s, seq![c] + ws + seq![t] + rest),
        c.len() > 0,
        is_kw(c, "#OBTW"@),
        text_words(ws, "#TLDR"@),
        t.len() > 0,
        is_kw(t, "#TLDR"@),
        rest.len() == 0 || uppercase(rest[0]) != "#OBTW"@,
    ensures
        body_item(s) matches Ok(s2) && reads(s2, rest) && s2.html == s.html + "<!-- "@ + spaced(
            ws,
        ) + " -->\n"@ && s2.scopes == s.scopes && rule_body(s) == rule_body(s2),
{
    lemma_keywords_distinct();
    let toks = seq![c] + ws + seq![t] + rest;
    lemma_reads_advance(s, toks);
    assert(toks.skip(1) =~= ws + seq![t] + rest);
    let a = advanced(s);
    let err = CompileError::MissingTldrTerminator;
    lemma_gather_words(a, ws, t, rest, "#TLDR"@, seq![], err);
    let (s1, text) = gather(a, "#TLDR"@, seq![], err)->Ok_0;
    lemma_reads_advance(s1, seq![t] + rest);
    assert((seq![t] + rest).skip(1) =~= rest);
    let s2 = advanced(s1);
    assert(expect(s1, "#TLDR"@) == Ok::<ParserState, crate::grammar::Rejection>(s2));
    let e = emit(s2, "<!-- "@ + text + " -->\n"@);
    if rest.len() > 0 {
        assert(e.cur == rest[0]);
    }
    assert(rule_comment(e) == Ok::<ParserState, crate::grammar::Rejection>(e));
    assert(rule_comment(s) == Ok::<ParserState, crate::grammar::Rejection>(e));
    assert(e.html =~= s.html + "<!-- "@ + spaced(ws) + " -->\n"@);
}

/// A variable definition may stand anywhere among a paragraph's items (and
/// in the body, alike): `#IHAZ name #ITIZ value #MKAY` emits nothing, binds
/// `name` to `value` in the innermost scope, and the paragraph goes on with
/// the tokens after it.
pub proof fn law_definition_among_paragraph_items(
    s: ParserState,
    i: Seq<char>,
    name: Seq<char>,
    it: Seq<char>,
    value: Seq<char>,
    mk: Seq<char>,
    rest: Seq<Seq<char>>,
)
    requires
        reads(s, seq![i, name, it, value, mk] + rest),
        i.len() > 0,
        is_kw(i, "#IHAZ"@),
        is_kw(it, "#ITIZ"@),
        is_kw(mk, "#MKAY"@),
        s.scopes.len() > 0,
    ensures
        rule_inner_text(s) matches Ok(s2) && reads(s2, rest) && s2.html == s.html && s2.scopes
            == define_in(s.scopes, name, value) && resolve(s2.scopes, name) == Some(value)
            && rule_inner_paragraph(s) == rule_inner_paragraph(s2),
        body_item(s) == rule_inner_text(s),
{
    lemma_keywords_distinct();
    let toks = seq![i, name, it, value, mk] + rest;
    lemma_reads_advance(s, toks);
    let a1 = advanced(s);
    lemma_reads_advance(a1, toks.skip(1));
    let a2 = advanced(a1);
    lemma_reads_advance(a2, toks.skip(1).skip(1));
    let a3 = advanced(a2);
    lemma_reads_advance(a3, toks.skip(1).skip(1).skip(1));
    let a4 = advanced(a3);
    lemma_reads_advance(a4, toks.skip(1).skip(1).skip(1).skip(1));
    let a5 = advanced(a4);
    assert(toks.skip(1).skip(1).skip(1).skip(1).skip(1) =~= rest);
    assert(a1.cur == name);
    assert(a2.cur == it);
    assert(a3.cur == value);
    assert(a4.cur == mk);
    let s2 = ParserState { scopes: define_in(a5.scopes, name, value), ..a5 };
    crate::laws::law_resolve_after_define(s.scopes, name, value, name);
    assert(rule_inner_text(s) == Ok::<ParserState, crate::grammar::Rejection>(s2));
}

/// Within a paragraph, a definition followed by `#LEMMESEE name #OIC`
/// emits the value just defined, followed by a space.
pub proof fn law_use_after_definition_in_paragraph(
    s: ParserState,
    i: Seq<char>,
    name: Seq<char>,
    it: Seq<char>,
    value: Seq<char>,
    mk: Seq<char>,
    l: Seq<char>,
    o: Seq<char>,
    rest: Seq<Seq<char>>,
)
    requires
        reads(s, seq![i, name, it, value, mk, l, name, o] + rest),
        i.len() > 0,
        is_kw(i, "#IHAZ"@),
        is_kw(it, "#ITIZ"@),
        is_kw(mk, "#MKAY"@),
        is_kw(l, "#LEMMESEE"@),
        is_kw(o, "#OIC"@),
        s.scopes.len() > 0,
    ensures
        rule_inner_text(s) matches Ok(s2) && rule_inner_text(s2) matches Ok(s3) && reads(s3, rest)
            && s3.html == s.html + value + seq![' '],
{
    lemma_keywords_distinct();
    let rest2 = seq![l, name, o] + rest;
    assert(seq![i, name, it, value, mk, l, name, o] + rest =~= seq![i, name, it, value, mk]
        + rest2);
    law_definition_among_paragraph_items(s, i, name, it, value, mk, rest2);
    let s2 = rule_inner_text(s)->Ok_0;
    lemma_reads_advance(s2, rest2);
    let b1 = advanced(s2);
    lemma_reads_advance(b1, rest2.skip(1));
    let b2 = advanced(b1);
    lemma_reads_advance(b2, rest2.skip(1).skip(1));
    let b3 = advanced(b2);
    assert(rest2.skip(1).skip(1).skip(1) =~= rest);
    assert(b1.cur == name);
    assert(b2.cur == o);
    assert(rule_inner_text(s2) == Ok::<ParserState, crate::grammar::Rejection>(
        emit(b3, value + seq![' ']),
    ));
}

/// A word is text unless it begins with `#`: then it is rejected as an
/// unexpected keyword. Text is emitted followed by a space.
pub proof fn law_plain_word_is_text(s: ParserState, w: Seq<char>, rest: Seq<Seq<char>>)
    requires
        reads(s, seq![w] + rest),
    ensures
        !(w.len() > 0 && w[0] == '#') ==> (rule_text(s) matches Ok(s2) && reads(s2, rest)
            && s2.html == s.html + w + seq![' '] && s2.scopes == s.scopes),
        w.len() > 0 && w[0] == '#' ==> (rule_text(s) matches Err((e, _)) && e
            == CompileError::UnexpectedKeyword(w)),
{
    lemma_reads_advance(s, seq![w] + rest);
    assert((seq![w] + rest).skip(1) =~= rest);
}

/// A word that does not look like a keyword (neither it nor its upper-case
/// form begins with `#`) is text wherever an item may stand: in the body, in
/// a paragraph and in a list item.
pub proof fn law_plain_word_in_every_item_position(
    s: ParserState,
    w: Seq<char>,
    rest: Seq<Seq<char>>,
)
    requires
        reads(s, seq![w] + rest),
        w.len() > 0,
        w[0] != '#',
        uppercase(w).len() == 0 || uppercase(w)[0] != '#',
    ensures
        body_item(s) matches Ok(s2) && reads(s2, rest) && s2.html == s.html + w + seq![' '],
        rule_inner_text(s) == body_item(s),
        rule_inner_list(s) == body_item(s),
{
    lemma_keywords_distinct();
    law_plain_word_is_text(s, w, rest);
    assert(uppercase(w) != "#OBTW"@);
    assert(uppercase(w) != "#MAEK"@);
    assert(uppercase(w) != "#GIMMEH"@);
    assert(uppercase(w) != "#IHAZ"@);
    assert(uppercase(w) != "#LEMMESEE"@);
}

/// Bold and italic text may stand wherever an item may: `#GIMMEH BOLD w1 ..
/// wn #OIC` (or `ITALICS`) is accepted in the body, in a paragraph and in a
/// list item alike, and appends the words, each followed by a space,
/// between `<b>` and `</b>` (or `<i>` and `</i>`).
pub proof fn law_styled_text_in_every_item_position(
    s: ParserState,
    g: Seq<char>,
    k: Seq<char>,
    ws: Seq<Seq<char>>,
    o: Seq<char>,
    rest: Seq<Seq<char>>,
    kind: Seq<char>,
    open: Seq<char>,
    close: Seq<char>,
)
    requires
        (kind == "BOLD"@ && open == "<b>"@ && close == "</b>"@) || (kind == "ITALICS"@ && open
            == "<i>"@ && close == "</i>"@),
        reads(s, seq![g, k] + ws + seq![o] + rest),
        is_kw(g, "#GIMMEH"@),
        is_kw(k, kind),
        text_words(ws, "#OIC"@),
        o.len() > 0,
        is_kw(o, "#OIC"@),
    ensures
        body_item(s) matches Ok(s2) && reads(s2, rest) && s2.html == s.html + open + spaced(ws)
            + close && s2.scopes == s.scopes,
        rule_inner_text(s) == body_item(s),
        rule_inner_list(s) == body_item(s),
{
    lemma_keywords_distinct();
    let toks = seq![g, k] + ws + seq![o] + rest;
    lemma_reads_next(s, toks);
    assert(toks[1] == k);
    lemma_reads_advance(s, toks);
    let s1 = advanced(s);
    assert(toks.skip(1) =~= seq![k] + ws + seq![o] + rest);
    lemma_reads_advance(s1, toks.skip(1));
    let s2 = advanced(s1);
    assert(toks.skip(1).skip(1) =~= ws + seq![o] + rest);
    let err = CompileError::MissingOicTerminator;
    lemma_gather_words(s2, ws, o, rest, "#OIC"@, seq![], err);
    let (s3, text) = gather(s2, "#OIC"@, seq![], err)->Ok_0;
    lemma_reads_advance(s3, seq![o] + rest);
    assert((seq![o] + rest).skip(1) =~= rest);
    let s4 = advanced(s3);
    let e = emit(s4, open + text + close);
    assert(styled_text(s, kind, open, close) == Ok::<ParserState, crate::grammar::Rejection>(e));
    assert(gimmeh_item(s) == Ok::<ParserState, crate::grammar::Rejection>(e));
    assert(e.html =~= s.html + open + spaced(ws) + close);
}

/// Words that are plain text: non-empty, and neither they nor their
/// upper-case forms begin with `#`.
pub open spec fn plain_words(ws: Seq<Seq<char>>) -> bool {
    forall|i: int|
        0 <= i < ws.len() ==> #[trigger] ws[i].len() > 0 && ws[i][0] != '#' && (uppercase(
            ws[i],
        ).len() == 0 || uppercase(ws[i])[0] != '#')
}

/// Plain words in the body, up to `#KBYE`, are emitted as text.
proof fn lemma_body_words(s: ParserState, ws: Seq<Seq<char>>, t: Seq<char>, rest: Seq<Seq<char>>)
    requires
        reads(s, ws + seq![t] + rest),
        plain_words(ws),
        uppercase(t) == "#KBYE"@,
    ensures
        rule_body(s) matches Ok(s2) && reads(s2, seq![t] + rest) && s2.html == s.html + spaced(
            ws,
        ) && s2.scopes == s.scopes,
    decreases ws.len(),
{
    lemma_keywords_distinct();
    if ws.len() == 0 {
        assert(ws + seq![t] + rest =~= seq![t] + rest);
        assert(s.html + spaced(ws) =~= s.html);
    } else {
        let w = ws[0];
        let more = ws.skip(1) + seq![t] + rest;
        assert(ws + seq![t] + rest =~= seq![w] + more);
        law_plain_word_in_every_item_position(s, w, more);
        let s1 = body_item(s)->Ok_0;
        assert(uppercase(w) != "#KBYE"@);
        assert(more =~= ws.skip(1) + seq![t] + rest);
        lemma_body_words(s1, ws.skip(1), t, rest);
        assert(s.html + w + seq![' '] + spaced(ws.skip(1)) =~= s.html + spaced(ws));
    }
}

/// Plain words in a paragraph, up to `#MKAY`, are emitted as text.
proof fn lemma_paragraph_words(
    s: ParserState,
    ws: Seq<Seq<char>>,
    t: Seq<char>,
    rest: Seq<Seq<char>>,
)
    requires
        reads(s, ws + seq![t] + rest),
        plain_words(ws),
        uppercase(t) == "#MKAY"@,
    ensures
        rule_inner_paragraph(s) matches Ok(s2) && reads(s2, seq![t] + rest) && s2.html == s.html
            + spaced(ws) && s2.scopes == s.scopes,
    decreases ws.len(),
{
    lemma_keywords_distinct();
    if ws.len() == 0 {
        assert(ws + seq![t] + rest =~= seq![t] + rest);
        assert(s.html + spaced(ws) =~= s.html);
    } else {
        let w = ws[0];
        let more = ws.skip(1) + seq![t] + rest;
        assert(ws + seq![t] + rest =~= seq![w] + more);
        law_plain_word_in_every_item_position(s, w, more);
        let s1 = rule_inner_text(s)->Ok_0;
        assert(uppercase(w) != "#MKAY"@);
        lemma_paragraph_words(s1, ws.skip(1), t, rest);
        assert(s.html + w + seq![' '] + spaced(ws.skip(1)) =~= s.html + spaced(ws));
    }
}

/// Plain words in a list item, up to `#OIC`, are emitted as text.
proof fn lemma_entry_words(s: ParserState, ws: Seq<Seq<char>>, t: Seq<char>, rest: Seq<Seq<char>>)
    requires
        reads(s, ws + seq![t] + rest),
        plain_words(ws),
        uppercase(t) == "#OIC"@,
    ensures
        list_entries(s) matches Ok(s2) && reads(s2, seq![t] + rest) && s2.html == s.html + spaced(
            ws,
        ) && s2.scopes == s.scopes,
    decreases ws.len(),
{
    lemma_keywords_distinct();
    if ws.len() == 0 {
        assert(ws + seq![t] + rest =~= seq![t] + rest);
        assert(s.html + spaced(ws) =~= s.html);
    } else {
        let w = ws[0];
        let more = ws.skip(1) + seq![t] + rest;
        assert(ws + seq![t] + rest =~= seq![w] + more);
        law_plain_word_in_every_item_position(s, w, more);
        let s1 = rule_inner_list(s)->Ok_0;
        assert(uppercase(w) != "#OIC"@);
        lemma_entry_words(s1, ws.skip(1), t, rest);
        assert(s.html + w + seq![' '] + spaced(ws.skip(1)) =~= s.html + spaced(ws));
    }
}

/// A program of plain words, `#HAI w1 .. wn #KBYE`, compiles to the words,
/// each followed by a space, inside `<html>`; whatever follows `#KBYE` is
/// not read.
pub proof fn law_program_of_words(
    s: ParserState,
    hai: Seq<char>,
    ws: Seq<Seq<char>>,
    kbye: Seq<char>,
    rest: Seq<Seq<char>>,
)
    requires
        reads(s, seq![hai] + ws + seq![kbye] + rest),
        is_kw(hai, "#HAI"@),
        plain_words(ws),
        is_kw(kbye, "#KBYE"@),
    ensures
        rule_lolcode(s) matches Ok(s2) && s2.html == s.html + "<html>\n"@ + spaced(ws)
            + "</html>\n"@ && reads(s2, rest),
{
    lemma_keywords_distinct();
    let toks = seq![hai] + ws + seq![kbye] + rest;
    let s0 = emit(s, "<html>\n"@);
    lemma_reads_advance(s0, toks);
    let s1 = advanced(s0);
    assert(toks.skip(1) =~= ws + seq![kbye] + rest);
    assert(expect(s0, "#HAI"@) == Ok::<ParserState, Rejection>(s1));
    let first = if ws.len() > 0 {
        ws[0]
    } else {
        kbye
    };
    assert(s1.cur == first);
    assert(uppercase(first) != "#OBTW"@ && uppercase(first) != "#MAEK"@);
    assert(rule_comment(s1) == Ok::<ParserState, Rejection>(s1));
    assert(rule_head(s1) == Ok::<ParserState, Rejection>(s1));
    lemma_body_words(s1, ws, kbye, rest);
    let s2 = rule_body(s1)->Ok_0;
    lemma_reads_advance(s2, seq![kbye] + rest);
    assert((seq![kbye] + rest).skip(1) =~= rest);
    let s3 = advanced(s2);
    assert(expect(s2, "#KBYE"@) == Ok::<ParserState, Rejection>(s3));
    assert(emit(s3, "</html>\n"@).html =~= s.html + "<html>\n"@ + spaced(ws) + "</html>\n"@);
}

/// A head, `#MAEK HEAD #GIMMEH TITLE w1 .. wn #OIC #OIC`, emits the title
/// inside `<head>`; any other first token leaves the head out.
pub proof fn law_head(
    s: ParserState,
    m: Seq<char>,
    h: Seq<char>,
    g: Seq<char>,
    ti: Seq<char>,
    ws: Seq<Seq<char>>,
    o1: Seq<char>,
    o2: Seq<char>,
    rest: Seq<Seq<char>>,
)
    requires
        reads(s, seq![m, h, g, ti] + ws + seq![o1, o2] + rest),
        is_kw(m, "#MAEK"@),
        uppercase(h) == "HEAD"@,
        is_kw(g, "#GIMMEH"@),
        uppercase(ti) == "TITLE"@,
        text_words(ws, "#OIC"@),
        o1.len() > 0,
        is_kw(o1, "#OIC"@),
        uppercase(o2) == "#OIC"@,
    ensures
        rule_head(s) matches Ok(s2) && reads(s2, rest) && s2.scopes == s.scopes && s2.html
            == s.html + "<head>\n<title>"@ + spaced(ws) + "</title>\n</head>\n"@,
{
    let toks = seq![m, h, g, ti] + ws + seq![o1, o2] + rest;
    lemma_reads_advance(s, toks);
    let a1 = advanced(s);
    lemma_reads_advance(a1, toks.skip(1));
    let a2 = advanced(a1);
    let e = emit(a2, "<head>\n"@);
    lemma_reads_advance(e, toks.skip(1).skip(1));
    let e1 = advanced(e);
    lemma_reads_advance(e1, toks.skip(1).skip(1).skip(1));
    let e2 = advanced(e1);
    assert(toks.skip(1).skip(1).skip(1).skip(1) =~= ws + seq![o1] + (seq![o2] + rest));
    assert(a1.cur == h);
    assert(e.cur == g);
    assert(e1.cur == ti);
    let err = CompileError::MissingOicTerminator;
    lemma_gather_words(e2, ws, o1, seq![o2] + rest, "#OIC"@, seq![], err);
    let (s3, text) = gather(e2, "#OIC"@, seq![], err)->Ok_0;
    lemma_reads_advance(s3, seq![o1] + (seq![o2] + rest));
    assert((seq![o1] + (seq![o2] + rest)).skip(1) =~= seq![o2] + rest);
    let s4 = advanced(s3);
    assert(expect(e, "#GIMMEH"@) == Ok::<ParserState, Rejection>(e1));
    assert(expect(s3, "#OIC"@) == Ok::<ParserState, Rejection>(s4));
    let t = emit(s4, "<title>"@ + text + "</title>\n"@);
    assert(rule_title(e) == Ok::<ParserState, Rejection>(t));
    lemma_reads_advance(t, seq![o2] + rest);
    assert((seq![o2] + rest).skip(1) =~= rest);
    assert(t.cur == o2);
    assert(expect(t, "#OIC"@) == Ok::<ParserState, Rejection>(advanced(t)));
    let f = emit(advanced(t), "</head>\n"@);
    assert(rule_head(s) == Ok::<ParserState, Rejection>(f));
    assert(f.html =~= s.html + "<head>\n<title>"@ + spaced(ws) + "</title>\n</head>\n"@) by {
        reveal_strlit("<head>\n<title>");
        reveal_strlit("<head>\n");
        reveal_strlit("<title>");
        reveal_strlit("</title>\n</head>\n");
        reveal_strlit("</title>\n");
        reveal_strlit("</head>\n");
    }
}

/// The head is optional: when the first token is not `#MAEK`, nothing is
/// read and nothing emitted.
pub proof fn law_no_head(s: ParserState)
    requires
        uppercase(s.cur) != "#MAEK"@,
    ensures
        rule_head(s) == Ok::<ParserState, Rejection>(s),
{
}

/// A paragraph of plain words, `#MAEK PARAGRAF w1 .. wn #MKAY`, may stand in
/// the body and emits the words inside `<p>`, leaving the scopes as they
/// were.
pub proof fn law_paragraph_of_words(
    s: ParserState,
    m: Seq<char>,
    p: Seq<char>,
    ws: Seq<Seq<char>>,
    mk: Seq<char>,
    rest: Seq<Seq<char>>,
)
    requires
        reads(s, seq![m, p] + ws + seq![mk] + rest),
        is_kw(m, "#MAEK"@),
        is_kw(p, "PARAGRAF"@),
        plain_words(ws),
        is_kw(mk, "#MKAY"@),
    ensures
        body_item(s) matches Ok(s2) && reads(s2, rest) && s2.scopes == s.scopes && s2.html
            == s.html + "<p>"@ + spaced(ws) + "</p>\n"@,
{
    lemma_keywords_distinct();
    let toks = seq![m, p] + ws + seq![mk] + rest;
    lemma_reads_next(s, toks);
    assert(toks[1] == p);
    lemma_reads_advance(s, toks);
    let s1 = advanced(s);
    lemma_reads_advance(s1, toks.skip(1));
    let s2 = advanced(s1);
    assert(toks.skip(1).skip(1) =~= ws + seq![mk] + rest);
    assert(s1.cur == p);
    let s3 = scope_pushed(emit(s2, "<p>"@));
    let first = if ws.len() > 0 {
        ws[0]
    } else {
        mk
    };
    assert(s3.cur == first);
    assert(uppercase(first) != "#IHAZ"@);
    lemma_paragraph_words(s3, ws, mk, rest);
    let s5 = rule_inner_paragraph(s3)->Ok_0;
    lemma_reads_advance(s5, seq![mk] + rest);
    assert((seq![mk] + rest).skip(1) =~= rest);
    let s6 = advanced(s5);
    assert(expect(s5, "#MKAY"@) == Ok::<ParserState, Rejection>(s6));
    let f = emit(scope_popped(s6), "</p>\n"@);
    assert(s6.scopes.drop_last() =~= s.scopes);
    assert(rule_paragraph(s) == Ok::<ParserState, Rejection>(f));
    assert(body_item(s) == rule_paragraph(s));
    assert(f.html =~= s.html + "<p>"@ + spaced(ws) + "</p>\n"@);
}

/// A list with one item of plain words, `#MAEK LIST #GIMMEH ITEM w1 .. wn
/// #OIC #MKAY`, may stand in the body and in a paragraph, and emits the
/// words as the one `<li>` of a `<ul>`.
pub proof fn law_list_of_one_item(
    s: ParserState,
    m: Seq<char>,
    l: Seq<char>,
    g: Seq<char>,
    it: Seq<char>,
    ws: Seq<Seq<char>>,
    o: Seq<char>,
    mk: Seq<char>,
    rest: Seq<Seq<char>>,
)
    requires
        reads(s, seq![m, l, g, it] + ws + seq![o, mk] + rest),
        is_kw(m, "#MAEK"@),
        is_kw(l, "LIST"@),
        g.len() > 0,
        is_kw(g, "#GIMMEH"@),
        is_kw(it, "ITEM"@),
        plain_words(ws),
        is_kw(o, "#OIC"@),
        is_kw(mk, "#MKAY"@),
    ensures
        body_item(s) matches Ok(s2) && reads(s2, rest) && s2.scopes == s.scopes && s2.html
            == s.html + "<ul>\n<li>"@ + spaced(ws) + "</li>\n</ul>\n"@,
        rule_inner_text(s) == body_item(s),
{
    lemma_keywords_distinct();
    let toks = seq![m, l, g, it] + ws + seq![o, mk] + rest;
    lemma_reads_next(s, toks);
    assert(toks[1] == l);
    lemma_reads_advance(s, toks);
    let s1 = advanced(s);
    lemma_reads_advance(s1, toks.skip(1));
    let s2 = advanced(s1);
    assert(s1.cur == l);
    let e = emit(s2, "<ul>\n"@);
    assert(toks.skip(1).skip(1) =~= seq![g, it] + ws + seq![o, mk] + rest);
    lemma_reads_next(e, toks.skip(1).skip(1));
    assert(e.cur == g);
    lemma_reads_advance(e, toks.skip(1).skip(1));
    let a = advanced(e);
    assert(toks.skip(1).skip(1).skip(1) =~= seq![it] + ws + seq![o, mk] + rest);
    assert(a.cur == it);
    lemma_reads_advance(a, toks.skip(1).skip(1).skip(1));
    let b = advanced(a);
    assert(expect(a, "ITEM"@) == Ok::<ParserState, Rejection>(b));
    let li = emit(b, "<li>"@);
    assert(toks.skip(1).skip(1).skip(1).skip(1) =~= ws + seq![o] + (seq![mk] + rest));
    lemma_entry_words(li, ws, o, seq![mk] + rest);
    let c = list_entries(li)->Ok_0;
    lemma_reads_advance(c, seq![o] + (seq![mk] + rest));
    assert((seq![o] + (seq![mk] + rest)).skip(1) =~= seq![mk] + rest);
    let d = advanced(c);
    assert(expect(c, "#OIC"@) == Ok::<ParserState, Rejection>(d));
    let after = emit(d, "</li>\n"@);
    assert(after.cur == mk);
    assert(rule_list_items(after) == Ok::<ParserState, Rejection>(after));
    assert(rule_list_items(e) == Ok::<ParserState, Rejection>(after));
    lemma_reads_advance(after, seq![mk] + rest);
    assert((seq![mk] + rest).skip(1) =~= rest);
    let f = emit(advanced(after), "</ul>\n"@);
    assert(expect(after, "#MKAY"@) == Ok::<ParserState, Rejection>(advanced(after)));
    assert(rule_list(s) == Ok::<ParserState, Rejection>(f));
    assert(body_item(s) == rule_list(s));
    assert(rule_inner_text(s) == rule_list(s));
    assert(f.html =~= s.html + "<ul>\n<li>"@ + spaced(ws) + "</li>\n</ul>\n"@) by {
        reveal_strlit("<ul>\n<li>");
        reveal_strlit("<ul>\n");
        reveal_strlit("<li>");
        reveal_strlit("</li>\n</ul>\n");
        reveal_strlit("</li>\n");
        reveal_strlit("</ul>\n");
    }
}

/// A link, `#GIMMEH LINX address #OIC`, may stand wherever an item may, and
/// emits an anchor whose target and text are the address.
pub proof fn law_link_in_every_item_position(
    s: ParserState,
    g: Seq<char>,
    k: Seq<char>,
    addr: Seq<char>,
    o: Seq<char>,
    rest: Seq<Seq<char>>,
)
    requires
        reads(s, seq![g, k, addr, o] + rest),
        is_kw(g, "#GIMMEH"@),
        is_kw(k, "LINX"@),
        is_kw(o, "#OIC"@),
    ensures
        body_item(s) matches Ok(s2) && reads(s2, rest) && s2.scopes == s.scopes && s2.html
            == s.html + "<a href=\""@ + addr + "\">"@ + addr + "</a>"@,
        rule_inner_text(s) == body_item(s),
        rule_inner_list(s) == body_item(s),
{
    lemma_keywords_distinct();
    let toks = seq![g, k, addr, o] + rest;
    lemma_reads_next(s, toks);
    assert(toks[1] == k);
    lemma_reads_advance(s, toks);
    let s1 = advanced(s);
    lemma_reads_advance(s1, toks.skip(1));
    let s2 = advanced(s1);
    lemma_reads_advance(s2, toks.skip(1).skip(1));
    let s3 = advanced(s2);
    lemma_reads_advance(s3, toks.skip(1).skip(1).skip(1));
    let s4 = advanced(s3);
    assert(toks.skip(1).skip(1).skip(1).skip(1) =~= rest);
    assert(s1.cur == k);
    assert(s2.cur == addr);
    assert(s3.cur == o);
    let f = emit(s4, "<a href=\""@ + addr + "\">"@ + addr + "</a>"@);
    assert(rule_link(s) == Ok::<ParserState, Rejection>(f));
    assert(gimmeh_item(s) == Ok::<ParserState, Rejection>(f));
}

/// A line break, `#GIMMEH NEWLINE`, may stand wherever an item may, and
/// emits `<br>`.
pub proof fn law_newline_in_every_item_position(
    s: ParserState,
    g: Seq<char>,
    k: Seq<char>,
    rest: Seq<Seq<char>>,
)
    requires
        reads(s, seq![g, k] + rest),
        is_kw(g, "#GIMMEH"@),
        is_kw(k, "NEWLINE"@),
    ensures
        body_item(s) matches Ok(s2) && reads(s2, rest) && s2.scopes == s.scopes && s2.html
            == s.html + "<br>\n"@,
        rule_inner_text(s) == body_item(s),
        rule_inner_list(s) == body_item(s),
{
    lemma_keywords_distinct();
    let toks = seq![g, k] + rest;
    lemma_reads_next(s, toks);
    assert(toks[1] == k);
    lemma_reads_advance(s, toks);
    let s1 = advanced(s);
    lemma_reads_advance(s1, toks.skip(1));
    assert(toks.skip(1).skip(1) =~= rest);
    assert(s1.cur == k);
    let f = emit(advanced(s1), "<br>\n"@);
    assert(rule_newline(s) == Ok::<ParserState, Rejection>(f));
    assert(gimmeh_item(s) == Ok::<ParserState, Rejection>(f));
}

/// A variable use, `#LEMMESEE name #OIC`, may stand wherever an item may:
/// it emits the value of `name` in the innermost scope that defines it,
/// followed by a space, and is rejected when no scope defines it.
pub proof fn law_use_in_every_item_position(
    s: ParserState,
    l: Seq<char>,
    name: Seq<char>,
    o: Seq<char>,
    rest: Seq<Seq<char>>,
)
    requires
        reads(s, seq![l, name, o] + rest),
        is_kw(l, "#LEMMESEE"@),
        is_kw(o, "#OIC"@),
    ensures
        resolve(s.scopes, name) matches Some(v) ==> (body_item(s) matches Ok(s2) && reads(s2, rest)
            && s2.scopes == s.scopes && s2.html == s.html + v + seq![' ']),
        resolve(s.scopes, name) is None ==> (body_item(s) matches Err((e, _)) && e
            == CompileError::UndefinedVariable(name)),
        rule_inner_text(s) == body_item(s),
        rule_inner_list(s) == body_item(s),
{
    lemma_keywords_distinct();
    let toks = seq![l, name, o] + rest;
    lemma_reads_advance(s, toks);
    let s1 = advanced(s);
    lemma_reads_advance(s1, toks.skip(1));
    let s2 = advanced(s1);
    lemma_reads_advance(s2, toks.skip(1).skip(1));
    assert(toks.skip(1).skip(1).skip(1) =~= rest);
    assert(s1.cur == name);
    assert(s2.cur == o);
    assert(expect(s, "#LEMMESEE"@) == Ok::<ParserState, Rejection>(s1));
    assert(expect(s2, "#OIC"@) == Ok::<ParserState, Rejection>(advanced(s2)));
    assert(body_item(s) == rule_variable_use(s));
}

} // verus!

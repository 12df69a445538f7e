use lolcompiler::compiler::{compile_to_html, LolcodeCompiler};
use lolcompiler::text::same_keyword;
use lolcompiler::error::CompileError;
use lolcompiler::phases::{Compiler, SyntaxAnalyzer};

fn compile(src: &str) -> Result<String, CompileError<String>> {
    compile_to_html(src)
}

fn s(x: &str) -> String {
    x.to_string()
}

#[test]
fn minimal_program() {
    assert_eq!(compile("#HAI #KBYE").unwrap(), "<html>\n</html>\n");
}

#[test]
fn empty_body_without_kbye_is_rejected() {
    assert_eq!(
        compile("#HAI"),
        Err(CompileError::Expected { expected: s("#KBYE"), found: s("") })
    );
}

#[test]
fn full_document() {
    let src = "#HAI #OBTW hello world #TLDR #MAEK HEAD #GIMMEH TITLE My Page #OIC #OIC \
               #MAEK PARAGRAF #IHAZ name #ITIZ Bob #MKAY Hi #LEMMESEE name #OIC \
               #GIMMEH BOLD big #OIC #MKAY #KBYE";
    assert_eq!(
        compile(src).unwrap(),
        "<html>\n<!-- hello world  -->\n<head>\n<title>My Page </title>\n</head>\n\
         <p>Hi Bob <b>big </b></p>\n</html>\n"
    );
}

#[test]
fn lists_links_and_newlines() {
    let src = "#HAI #MAEK HEAD #GIMMEH TITLE t #OIC #OIC \
               #MAEK LIST #GIMMEH ITEM one #GIMMEH ITALICS two #OIC #OIC \
               #GIMMEH ITEM #GIMMEH LINX http://x.org #OIC #OIC #MKAY #GIMMEH NEWLINE #KBYE";
    assert_eq!(
        compile(src).unwrap(),
        "<html>\n<head>\n<title>t </title>\n</head>\n<ul>\n<li>one <i>two </i></li>\n\
         <li><a href=\"http://x.org\">http://x.org</a></li>\n</ul>\n<br>\n</html>\n"
    );
}

#[test]
fn list_inside_paragraph() {
    let src = "#HAI words #MAEK PARAGRAF #MAEK LIST #GIMMEH ITEM a #OIC #MKAY #MKAY #KBYE";
    assert_eq!(
        compile(src).unwrap(),
        "<html>\nwords <p><ul>\n<li>a </li>\n</ul>\n</p>\n</html>\n"
    );
}

#[test]
fn keywords_in_any_case() {
    let src = "#hai #maek head #gimmeh title T #oic #oic #Gimmeh Bold x #Oic #kbye";
    assert_eq!(
        compile(src).unwrap(),
        "<html>\n<head>\n<title>T </title>\n</head>\n<b>x </b></html>\n"
    );
}

#[test]
fn whitespace_of_any_kind_separates_words() {
    let src = "#HAI\ta\nb\u{a0}c\u{2003}d\r\n#KBYE";
    assert_eq!(compile(src).unwrap(), "<html>\na b c d </html>\n");
}

#[test]
fn text_after_nul_is_ignored() {
    assert_eq!(compile("#HAI x #KBYE\0 junk #WHAT").unwrap(), "<html>\nx </html>\n");
}

#[test]
fn words_after_kbye_are_ignored() {
    assert_eq!(compile("#HAI x #KBYE more words").unwrap(), "<html>\nx </html>\n");
}

#[test]
fn global_variable_used_in_paragraph() {
    let src = "#HAI #IHAZ x #ITIZ 1 #MKAY #MAEK PARAGRAF #LEMMESEE x #OIC #MKAY #KBYE";
    assert_eq!(compile(src).unwrap(), "<html>\n<p>1 </p>\n</html>\n");
}

#[test]
fn paragraph_variable_shadows_and_expires() {
    let src = "#HAI #IHAZ x #ITIZ outer #MKAY #MAEK PARAGRAF #IHAZ x #ITIZ inner #MKAY \
               #LEMMESEE x #OIC #MKAY #LEMMESEE x #OIC #KBYE";
    assert_eq!(compile(src).unwrap(), "<html>\n<p>inner </p>\nouter </html>\n");
}

#[test]
fn paragraph_variable_is_not_visible_after_it() {
    let src = "#HAI words #MAEK PARAGRAF #IHAZ x #ITIZ 1 #MKAY #LEMMESEE x #OIC #MKAY \
               #LEMMESEE x #OIC #KBYE";
    assert_eq!(compile(src), Err(CompileError::UndefinedVariable(s("x"))));
}

#[test]
fn redefinition_replaces_value() {
    let src = "#HAI #IHAZ x #ITIZ 1 #MKAY #IHAZ x #ITIZ 2 #MKAY #LEMMESEE x #OIC #KBYE";
    assert_eq!(compile(src).unwrap(), "<html>\n2 </html>\n");
}

#[test]
fn use_in_list_item() {
    let src = "#HAI #IHAZ v #ITIZ val #MKAY #MAEK PARAGRAF #MAEK LIST #GIMMEH ITEM \
               #LEMMESEE v #OIC #OIC #MKAY #MKAY #KBYE";
    assert_eq!(compile(src).unwrap(), "<html>\n<p><ul>\n<li>val </li>\n</ul>\n</p>\n</html>\n");
}

#[test]
fn paragraph_right_after_hai_is_read_as_head() {
    let src = "#HAI #MAEK PARAGRAF x #MKAY #KBYE";
    assert_eq!(compile(src), Err(CompileError::ExpectedHead));
}

#[test]
fn error_expected() {
    assert_eq!(
        compile("hello #KBYE"),
        Err(CompileError::Expected { expected: s("#HAI"), found: s("hello") })
    );
}

#[test]
fn error_expected_title() {
    assert_eq!(compile("#HAI #MAEK HEAD #GIMMEH BOLD x #OIC #OIC #KBYE"), Err(CompileError::ExpectedTitle));
}

#[test]
fn error_missing_oic_terminator() {
    assert_eq!(
        compile("#HAI #MAEK HEAD #GIMMEH TITLE no end"),
        Err(CompileError::MissingOicTerminator)
    );
    assert_eq!(compile("#HAI x #GIMMEH BOLD unfinished"), Err(CompileError::MissingOicTerminator));
}

#[test]
fn error_missing_tldr_terminator() {
    assert_eq!(compile("#HAI #OBTW never closed"), Err(CompileError::MissingTldrTerminator));
}

#[test]
fn error_unexpected_after_maek() {
    assert_eq!(
        compile("#HAI words #MAEK foo #KBYE"),
        Err(CompileError::UnexpectedAfterMaek(s("FOO")))
    );
}

#[test]
fn error_unexpected_after_gimmeh_is_upper_cased() {
    assert_eq!(
        compile("#HAI words #GIMMEH straße #KBYE"),
        Err(CompileError::UnexpectedAfterGimmeh(s("STRASSE")))
    );
}

#[test]
fn error_unexpected_keyword() {
    assert_eq!(
        compile("#HAI words #WHAT #KBYE"),
        Err(CompileError::UnexpectedKeyword(s("#WHAT")))
    );
}

#[test]
fn error_undefined_variable() {
    assert_eq!(
        compile("#HAI #LEMMESEE nobody #OIC #KBYE"),
        Err(CompileError::UndefinedVariable(s("nobody")))
    );
}

#[test]
fn error_messages() {
    assert_eq!(
        CompileError::Expected { expected: s("#HAI"), found: s("x") }.message(),
        "Syntax error: expected #HAI, found x"
    );
    assert_eq!(CompileError::<String>::ExpectedHead.message(), "Syntax error: expected HEAD");
    assert_eq!(CompileError::<String>::ExpectedTitle.message(), "Syntax error: expected TITLE");
    assert_eq!(
        CompileError::<String>::MissingOicTerminator.message(),
        "Syntax error: TITLE missing #OIC terminator"
    );
    assert_eq!(
        CompileError::<String>::MissingTldrTerminator.message(),
        "Syntax error: comment missing #TLDR terminator"
    );
    assert_eq!(
        CompileError::UnexpectedAfterMaek(s("FOO")).message(),
        "Syntax error: unexpected token 'FOO' after #MAEK"
    );
    assert_eq!(
        CompileError::UnexpectedAfterGimmeh(s("FOO")).message(),
        "Syntax error: unexpected token 'FOO' after #GIMMEH"
    );
    assert_eq!(
        CompileError::UnexpectedKeyword(s("#X")).message(),
        "Syntax error: unexpected keyword '#X'"
    );
    assert_eq!(
        CompileError::UndefinedVariable(s("v")).message(),
        "Static semantic error: variable 'v' not defined"
    );
}

#[test]
fn compiler_trait_reads_tokens_in_order() {
    let mut c = LolcodeCompiler::new();
    c.compile("first  second\tthird");
    assert_eq!(c.current_token(), "first");
    assert_eq!(c.next_token(), "second");
    assert_eq!(c.next_token(), "third");
    assert_eq!(c.next_token(), "");
    assert_eq!(c.next_token(), "");
    c.set_current_token(s("#HAI"));
    assert_eq!(c.current_token(), "#HAI");
}

#[test]
fn compile_then_parse_fills_html() {
    let mut c = LolcodeCompiler::new();
    c.compile("#HAI some text #KBYE");
    assert_eq!(c.parse(), Ok(()));
    assert_eq!(c.html().as_str(), "<html>\nsome text </html>\n");
}

#[test]
fn parse_rules_directly() {
    let mut c = LolcodeCompiler::new();
    c.compile("#GIMMEH LINX a.b #OIC rest");
    assert_eq!(c.parse_link(), Ok(()));
    assert_eq!(c.html().as_str(), "<a href=\"a.b\">a.b</a>");
    assert_eq!(c.current_token(), "rest");

    let mut c = LolcodeCompiler::new();
    c.compile("#GIMMEH NEWLINE");
    assert_eq!(c.parse_newline(), Ok(()));
    assert_eq!(c.html().as_str(), "<br>\n");

    let mut c = LolcodeCompiler::new();
    c.compile("#OBTW a #TLDR #OBTW b #TLDR x");
    assert_eq!(c.parse_comment(), Ok(()));
    assert_eq!(c.html().as_str(), "<!-- a  -->\n<!-- b  -->\n");
    assert_eq!(c.current_token(), "x");

    let mut c = LolcodeCompiler::new();
    c.compile("plain");
    assert_eq!(c.parse_head(), Ok(()));
    assert_eq!(c.html().as_str(), "");
    assert_eq!(c.parse_text(), Ok(()));
    assert_eq!(c.html().as_str(), "plain ");
}

#[test]
fn list_items_stop_at_other_gimmeh() {
    let mut c = LolcodeCompiler::new();
    c.compile("#GIMMEH ITEM a #OIC #GIMMEH BOLD b #OIC");
    assert_eq!(c.parse_list_items(), Ok(()));
    assert_eq!(c.html().as_str(), "<li>a </li>\n");
    assert_eq!(c.current_token(), "#GIMMEH");
}

#[test]
fn head_closes_with_oic() {
    assert_eq!(
        compile("#HAI #MAEK HEAD #GIMMEH TITLE w #OIC #OIC #KBYE").unwrap(),
        "<html>\n<head>\n<title>w </title>\n</head>\n</html>\n"
    );
    assert_eq!(
        compile("#HAI #MAEK HEAD #GIMMEH TITLE w #OIC #MKAY #KBYE"),
        Err(CompileError::Expected { expected: s("#OIC"), found: s("#MKAY") })
    );
}

#[test]
fn error_leaves_output_so_far() {
    let mut c = LolcodeCompiler::new();
    c.compile(
        "#MAEK PARAGRAF #IHAZ x #ITIZ 1 #MKAY #LEMMESEE x #OIC #MKAY #LEMMESEE x #OIC #KBYE",
    );
    assert_eq!(c.parse_body(), Err(CompileError::UndefinedVariable(s("x"))));
    assert_eq!(c.html().as_str(), "<p>1 </p>\n");
    assert_eq!(c.current_token(), "#KBYE");
}

#[test]
fn error_state_after_expected_head() {
    let mut c = LolcodeCompiler::new();
    c.compile("#MAEK NOTHEAD rest");
    assert_eq!(c.parse_head(), Err(CompileError::ExpectedHead));
    assert_eq!(c.current_token(), "NOTHEAD");
}

#[test]
fn scopes_push_define_lookup_pop() {
    let mut c = LolcodeCompiler::new();
    c.define_var(s("x"), s("global"));
    assert_eq!(c.lookup_var(&s("x")), Ok(s("global")));
    c.push_scope();
    assert_eq!(c.lookup_var(&s("x")), Ok(s("global")));
    c.define_var(s("x"), s("local"));
    assert_eq!(c.lookup_var(&s("x")), Ok(s("local")));
    c.pop_scope();
    assert_eq!(c.lookup_var(&s("x")), Ok(s("global")));
    c.pop_scope();
    assert_eq!(c.lookup_var(&s("x")), Err(CompileError::UndefinedVariable(s("x"))));
    c.pop_scope();
    c.define_var(s("y"), s("1"));
    assert_eq!(c.lookup_var(&s("y")), Err(CompileError::UndefinedVariable(s("y"))));
}

#[test]
fn same_keyword_ignores_letter_case() {
    assert!(same_keyword("#kBYe", "#KBYE"));
    assert!(same_keyword("straße", "STRASSE"));
    assert!(!same_keyword("#KBY", "#KBYE"));
}

use trotter::parse::{symbol_of, Gemtext, Symbol};
use trotter::text::chars_of;

fn s(t: &str) -> String {
    t.to_string()
}

#[test]
fn gemtext_with_each_kind_of_line() {
    let doc = "# Title\n=> gemini://x.org/ Home\n* item one\n> a quote\n";
    assert_eq!(
        Gemtext::parse(doc).inner(),
        vec![
            Symbol::Header1(s("Title")),
            Symbol::Link(s("gemini://x.org/"), s("Home")),
            Symbol::List(s("item one")),
            Symbol::Quote(s("a quote")),
        ]
    );
}

#[test]
fn gemtext_headings() {
    assert_eq!(
        Gemtext::parse("#One\n## Two \n###  Three\n####Four").inner(),
        vec![
            Symbol::Header1(s("One")),
            Symbol::Header2(s("Two")),
            Symbol::Header3(s("Three")),
            Symbol::Header3(s("#Four")),
        ]
    );
}

#[test]
fn gemtext_links() {
    assert_eq!(
        Gemtext::parse("=>gemini://a\n=>   gemini://b    the  name  \n=> \n=>a\tb c").inner(),
        vec![
            Symbol::Link(s("gemini://a"), s("")),
            Symbol::Link(s("gemini://b"), s("the  name")),
            Symbol::Link(s(""), s("")),
            Symbol::Link(s("a\tb"), s("c")),
        ]
    );
}

#[test]
fn gemtext_plain_text_is_kept_as_it_is() {
    assert_eq!(
        Gemtext::parse("  indented \n\n = > no link\r\nlast").inner(),
        vec![
            Symbol::Text(s("  indented ")),
            Symbol::Text(s("")),
            Symbol::Text(s(" = > no link")),
            Symbol::Text(s("last")),
        ]
    );
    assert_eq!(Gemtext::parse("").inner(), vec![]);
    assert_eq!(Gemtext::parse("\n").inner(), vec![Symbol::Text(s(""))]);
}

#[test]
fn gemtext_preformatted_blocks() {
    let doc = "before\n``` alt text \n# no heading\n  kept \n=> no link\n```ignored\nafter";
    assert_eq!(
        Gemtext::parse(doc).inner(),
        vec![
            Symbol::Text(s("before")),
            Symbol::Codeblock(s("alt text"), s("# no heading\n  kept \n=> no link\n")),
            Symbol::Text(s("after")),
        ]
    );
}

#[test]
fn gemtext_block_without_an_end() {
    assert_eq!(
        Gemtext::parse("```\na\r\nb").inner(),
        vec![Symbol::Codeblock(s(""), s("a\nb\n"))]
    );
    assert_eq!(Gemtext::parse("```x").inner(), vec![Symbol::Codeblock(s("x"), s(""))]);
    assert_eq!(
        Gemtext::parse("```\n```\n```\n").inner(),
        vec![Symbol::Codeblock(s(""), s("")), Symbol::Codeblock(s(""), s(""))]
    );
}

#[test]
fn gemtext_list_and_quote_need_no_space() {
    assert_eq!(
        Gemtext::parse("*a\n>b\n**c").inner(),
        vec![Symbol::List(s("a")), Symbol::Quote(s("b")), Symbol::List(s("*c"))]
    );
}

#[test]
fn symbol_of_one_line() {
    assert_eq!(symbol_of(&chars_of("## x")), Symbol::Header2(s("x")));
    assert_eq!(symbol_of(&chars_of("x")), Symbol::Text(s("x")));
}

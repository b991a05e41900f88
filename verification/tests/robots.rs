use trotter::parse_robots;
use trotter::robots::{read_directive, RobotsTable, Said};
use trotter::text::chars_of;

fn v(items: &[&str]) -> Vec<String> {
    items.iter().map(|i| i.to_string()).collect()
}

#[test]
fn robots_group_of_two_agents() {
    let table = parse_robots("User-agent: indexer\nUser-agent: *\nDisallow: /private\nDisallow: /tmp\n");
    assert_eq!(table.get("indexer"), Some(&v(&["/private", "/tmp"])));
    assert_eq!(table.get("*"), Some(&v(&["/private", "/tmp"])));
    assert_eq!(table.get("archiver"), None);
}

#[test]
fn robots_disallow_closes_the_group() {
    let table = parse_robots(
        "User-agent: a\nDisallow: /1\nUser-agent: b\nDisallow: /2\nDisallow: /3\nUser-agent: a\nUser-agent: c\nDisallow: /4",
    );
    assert_eq!(table.get("a"), Some(&v(&["/1", "/4"])));
    assert_eq!(table.get("b"), Some(&v(&["/2", "/3"])));
    assert_eq!(table.get("c"), Some(&v(&["/4"])));
}

#[test]
fn robots_comments() {
    let table = parse_robots(
        "# User-agent: x\n   # Disallow: /no\nUser-agent: a # the agent\n\nnoise\nDisallow: /p#art\r\nDisallow:#\n",
    );
    assert_eq!(table.get("x"), None);
    assert_eq!(table.get("a"), Some(&v(&["/p", ""])));
}

#[test]
fn robots_comment_lines_do_not_close_a_group() {
    let table = parse_robots("User-agent: a\n# note\nother\nUser-agent: b\nDisallow: /x");
    assert_eq!(table.get("a"), Some(&v(&["/x"])));
    assert_eq!(table.get("b"), Some(&v(&["/x"])));
}

#[test]
fn robots_agent_named_twice_gets_the_rule_twice() {
    let table = parse_robots("User-agent: a\nUser-agent: a\nDisallow: /x");
    assert_eq!(table.get("a"), Some(&v(&["/x", "/x"])));
}

#[test]
fn robots_disallow_without_agent_and_agent_without_disallow() {
    let table = parse_robots("Disallow: /x\nUser-agent: a\n");
    assert_eq!(table.get("a"), None);
    assert_eq!(table, RobotsTable::new());
    assert_eq!(parse_robots(""), RobotsTable::new());
}

#[test]
fn robots_words_count_anywhere_and_case_counts() {
    let table = parse_robots("  x User-agent:   a b  \nuser-agent: c\nthe Disallow:/y Disallow: z\n");
    assert_eq!(table.get("a b"), Some(&v(&["/y Disallow: z"])));
    assert_eq!(table.get("c"), None);
}

#[test]
fn robots_table_add_and_get() {
    let mut table = RobotsTable::new();
    assert_eq!(table.get("a"), None);
    table.add("a", "/1");
    table.add("b", "/2");
    table.add("a", "/3");
    assert_eq!(table.get("a"), Some(&v(&["/1", "/3"])));
    assert_eq!(table.get("b"), Some(&v(&["/2"])));
    assert_eq!(table.get(""), None);
}

#[test]
fn robots_directives() {
    let line = chars_of(" User-agent: indexer # c");
    match read_directive(&line) {
        Some(Said::Agent(token)) => assert_eq!(token.iter().collect::<String>(), "indexer"),
        _ => panic!("no agent"),
    }
    let line = chars_of("Disallow: /a b ");
    match read_directive(&line) {
        Some(Said::Disallow(path)) => assert_eq!(path.iter().collect::<String>(), "/a b"),
        _ => panic!("no path"),
    }
    assert!(read_directive(&chars_of("Allow: /")).is_none());
    assert!(read_directive(&chars_of(" #Disallow: /")).is_none());
}

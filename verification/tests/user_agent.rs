use trotter::UserAgent;

#[test]
fn agents_have_their_tokens() {
    assert_eq!(UserAgent::Archiver.to_string(), "archiver");
    assert_eq!(UserAgent::Indexer.to_string(), "indexer");
    assert_eq!(UserAgent::Researcher.to_string(), "researcher");
    assert_eq!(UserAgent::Webproxy.to_string(), "webproxy");
    assert_eq!(UserAgent::Indexer.as_str(), "indexer");
}

#[test]
fn tokens_name_their_agents() {
    for agent in [UserAgent::Archiver, UserAgent::Indexer, UserAgent::Researcher, UserAgent::Webproxy] {
        assert_eq!(UserAgent::from_token(&agent.to_string()), Some(agent));
    }
    assert_eq!(UserAgent::from_token("Indexer"), None);
    assert_eq!(UserAgent::from_token(" indexer"), None);
    assert_eq!(UserAgent::from_token(""), None);
    assert_eq!(UserAgent::from_token("*"), None);
}

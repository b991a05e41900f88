//! The actor: what a client is configured with, and what it decides before
//! and after it talks to a server.
//!
//! A request runs in steps. The actor turns what the user typed into a URL
//! (`build_url`); if it declares a user agent, the server's robots.txt is
//! fetched first (`robots_url`) and obeyed (`obey_robots`); then the request
//! itself is sent. Sending is not done here: this module decides, and the
//! caller carries the bytes.

use crate::error::ActorError;
use crate::response::Response;
use crate::robots::{parse_robots, rules_of, robots_rules, Rules};
use crate::text::{chars_of, same, starts_with};
use crate::url::{normalized, schemed, url_parts, GeminiUrl, GeminiUrlView};
use crate::user_agent::UserAgent;
use std::path::PathBuf;
use vstd::prelude::*;
use vstd::utf8::{decode_utf8, valid_utf8};

verus! {

/// `std::path::PathBuf`: the path of a file. It is carried to whoever opens
/// the file, and never looked into here.
#[verifier::external_type_specification]
#[verifier::external_body]
pub struct ExPathBuf(PathBuf);

/// The seconds that a connection may take to be established, unless the
/// caller says otherwise.
pub const DEFAULT_TIMEOUT: u64 = 5;

/// What a client makes its requests with.
pub struct Actor {
    /// The file of the client certificate, if the client has one.
    pub cert: Option<PathBuf>,
    /// The file of the client key, if the client has one.
    pub key: Option<PathBuf>,
    /// The user agent that the client declares, if it declares one. A
    /// client that declares one obeys robots.txt.
    pub user_agent: Option<UserAgent>,
    /// How many seconds establishing the TCP connection may take.
    pub timeout: u64,
}

impl Default for Actor {
    fn default() -> (r: Self)
        ensures
            r.cert is None,
            r.key is None,
            r.user_agent is None,
            r.timeout == DEFAULT_TIMEOUT,
    {
        Actor { cert: None, key: None, user_agent: None, timeout: DEFAULT_TIMEOUT }
    }
}

/// Whether a rule of a robots.txt keeps a client out of `path`: the rule is
/// `/`, or `path` begins with it.
pub open spec fn denies(rule: Seq<char>, path: Seq<char>) -> bool {
    rule == seq!['/'] || rule.is_prefix_of(path)
}

/// The first of `rules` that keeps a client out of `path`, if one does.
pub open spec fn first_denial(rules: Seq<Seq<char>>, path: Seq<char>) -> Option<Seq<char>>
    decreases rules.len(),
{
    if rules.len() == 0 {
        None
    } else if denies(rules.first(), path) {
        Some(rules.first())
    } else {
        first_denial(rules.drop_first(), path)
    }
}

/// The rules that hold for `agent`: its own, and then those for every
/// agent, which stand under `*`.
pub open spec fn rules_for(table: Rules, agent: UserAgent) -> Seq<Seq<char>> {
    rules_of(table, agent.token()) + rules_of(table, seq!['*'])
}

/// The rule of the robots.txt `text` that keeps `agent` out of `path`, if
/// one does.
pub open spec fn denial(text: Seq<char>, agent: UserAgent, path: Seq<char>) -> Option<Seq<char>> {
    first_denial(rules_for(robots_rules(text), agent), path)
}

/// Looking for a denial among rules and more rules is looking among the
/// first, and among the others if none of the first denies.
pub proof fn lemma_first_denial_add(a: Seq<Seq<char>>, b: Seq<Seq<char>>, path: Seq<char>)
    ensures
        first_denial(a + b, path) == match first_denial(a, path) {
            Some(rule) => Some(rule),
            None => first_denial(b, path),
        },
    decreases a.len(),
{
    if a.len() == 0 {
        assert(a + b == b);
    } else {
        assert((a + b).first() == a.first());
        assert((a + b).drop_first() == a.drop_first() + b);
        lemma_first_denial_add(a.drop_first(), b, path);
    }
}

/// The first of `rules` that keeps a client out of `path`.
pub fn find_denial<'a>(rules: &'a Vec<String>, path: &[char]) -> (r: Option<&'a String>)
    ensures
        match r {
            Some(rule) => first_denial(rules.deep_view(), path@) == Some(rule@),
            None => first_denial(rules.deep_view(), path@) is None,
        },
{
    let slash: [char; 1] = ['/'];
    assert(slash@ == seq!['/']);
    let ghost all = rules.deep_view();
    let mut i: usize = 0;
    assert(all.skip(0) == all);
    while i < rules.len()
        invariant
            i <= rules.len(),
            slash@ == seq!['/'],
            all == rules.deep_view(),
            first_denial(all, path@) == first_denial(all.skip(i as int), path@),
        decreases rules.len() - i,
    {
        let rule = chars_of(rules[i].as_str());
        proof {
            assert(all.skip(i as int).first() == rules@[i as int]@);
            assert(all.skip(i as int).drop_first() == all.skip(i + 1));
        }
        if same(rule.as_slice(), slash.as_slice()) || starts_with(path, rule.as_slice()) {
            return Some(&rules[i]);
        }
        i += 1;
    }
    None
}

impl Actor {
    /// Sets the file of the client certificate.
    pub fn cert_file(self, cert: PathBuf) -> (r: Self)
        ensures
            r.cert == Some(cert),
            r.key == self.key,
            r.user_agent == self.user_agent,
            r.timeout == self.timeout,
    {
        Actor { cert: Some(cert), key: self.key, user_agent: self.user_agent, timeout: self.timeout }
    }

    /// Sets the file of the client key.
    pub fn key_file(self, key: PathBuf) -> (r: Self)
        ensures
            r.cert == self.cert,
            r.key == Some(key),
            r.user_agent == self.user_agent,
            r.timeout == self.timeout,
    {
        Actor { cert: self.cert, key: Some(key), user_agent: self.user_agent, timeout: self.timeout }
    }

    /// Declares a user agent. Whoever runs a service that takes other
    /// people's content from Gemini without looking at it should declare
    /// one: it lets servers keep kinds of services out.
    pub fn user_agent(self, useragent: UserAgent) -> (r: Self)
        ensures
            r.cert == self.cert,
            r.key == self.key,
            r.user_agent == Some(useragent),
            r.timeout == self.timeout,
    {
        Actor { cert: self.cert, key: self.key, user_agent: Some(useragent), timeout: self.timeout }
    }

    /// The URL that a request for `url` goes to, with `input` as its
    /// payload. `url` may leave the scheme out.
    pub fn build_url(&self, url: &str, input: Option<&str>) -> (r: Result<GeminiUrl, ActorError>)
        ensures
            match r {
                Ok(built) => normalized(url@, input.deep_view()) == Some(built@),
                Err(ActorError::Url(_)) => url_parts(schemed(url@)) is None,
                Err(ActorError::DomainErr) => {
                    &&& url_parts(schemed(url@)) matches Some(parts)
                    &&& parts.domain is None
                },
                Err(_) => false,
            },
            r matches Ok(built) ==> built@.path.len() > 0,
    {
        GeminiUrl::normalize(url, input)
    }

    /// The URL of the robots.txt to fetch before a request for `url`: none
    /// unless the actor declares a user agent.
    pub fn robots_url(&self, url: &GeminiUrl) -> (r: Option<GeminiUrl>)
        ensures
            r is Some <==> self.user_agent is Some,
            r matches Some(robots) ==> robots@ == (GeminiUrlView {
                domain: url@.domain,
                port: None,
                path: "/robots.txt"@,
                query: None,
            }),
    {
        match self.user_agent {
            Some(_) => Some(url.robots_url()),
            None => None,
        }
    }

    /// Whether the rules of a robots.txt let `agent` ask for `path`. The
    /// error holds the rule that denies it, and the agent.
    pub fn check_robots(robots: &str, agent: UserAgent, path: &str) -> (r: Result<(), ActorError>)
        ensures
            match r {
                Ok(()) => denial(robots@, agent, path@) is None,
                Err(ActorError::RobotDenied(rule, denied)) => {
                    &&& denial(robots@, agent, path@) == Some(rule@)
                    &&& denied == agent
                },
                Err(_) => false,
            },
    {
        let table = parse_robots(robots);
        let path_chars = chars_of(path);
        let ghost own = rules_of(table@, agent.token());
        let ghost all = rules_of(table@, seq!['*']);
        proof {
            lemma_first_denial_add(own, all, path@);
            reveal_strlit("*");
            assert("*"@ == seq!['*']);
        }
        match table.get(agent.as_str()) {
            Some(rules) => match find_denial(rules, path_chars.as_slice()) {
                Some(rule) => {
                    return Err(ActorError::RobotDenied(rule.clone(), agent));
                },
                None => {},
            },
            None => {},
        }
        match table.get("*") {
            Some(rules) => match find_denial(rules, path_chars.as_slice()) {
                Some(rule) => {
                    return Err(ActorError::RobotDenied(rule.clone(), agent));
                },
                None => {},
            },
            None => {},
        }
        Ok(())
    }

    /// Decides whether a request for `url` may go out, given what fetching
    /// the robots.txt gave. An actor without a user agent obeys nothing.
    /// A robots.txt that could not be fetched, that came with another
    /// status than 20, or that is not UTF-8 forbids nothing.
    pub fn obey_robots(&self, url: &GeminiUrl, fetched: &Result<Response, ActorError>) -> (r: Result<
        (),
        ActorError,
    >)
        ensures
            match r {
                Ok(()) => {
                    ||| self.user_agent is None
                    ||| fetched is Err
                    ||| fetched->Ok_0.status != 20
                    ||| !valid_utf8(fetched->Ok_0.content@)
                    ||| denial(
                        decode_utf8(fetched->Ok_0.content@),
                        self.user_agent->0,
                        url@.path,
                    ) is None
                },
                Err(ActorError::RobotDenied(rule, agent)) => {
                    &&& self.user_agent == Some(agent)
                    &&& fetched matches Ok(response)
                    &&& response.status == 20
                    &&& valid_utf8(response.content@)
                    &&& denial(decode_utf8(response.content@), agent, url@.path) == Some(rule@)
                },
                Err(_) => false,
            },
    {
        let agent = match self.user_agent {
            Some(agent) => agent,
            None => {
                return Ok(());
            },
        };
        match fetched {
            Ok(response) => match response.text() {
                Ok(text) => Actor::check_robots(text.as_str(), agent, url.path()),
                Err(_) => Ok(()),
            },
            Err(_) => Ok(()),
        }
    }
}

} // verus!

//! The user agents that the robots.txt convention for Gemini knows.

use crate::text::same_str;
use vstd::prelude::*;

verus! {

/// A kind of automated client. A client that declares one obeys the rules
/// that a server's robots.txt states for it.
#[derive(Debug, Clone, Copy, PartialEq, Eq, Structural)]
pub enum UserAgent {
    /// Fetches content to build public long-term archives of Geminispace,
    /// which serve old content after the source has changed or gone.
    Archiver,
    /// Fetches content to build searchable indexes of Geminispace.
    Indexer,
    /// Fetches content to study large-scale statistical properties of
    /// Geminispace, without rehosting, linking to or allowing search of it.
    Researcher,
    /// Fetches content to turn it into HTML and serve the result over
    /// HTTP(S).
    Webproxy,
}

impl UserAgent {
    /// The lower-case token by which robots.txt names this agent.
    pub open spec fn token(self) -> Seq<char> {
        match self {
            UserAgent::Archiver => "archiver"@,
            UserAgent::Indexer => "indexer"@,
            UserAgent::Researcher => "researcher"@,
            UserAgent::Webproxy => "webproxy"@,
        }
    }

    /// The agent's token as a string slice.
    pub fn as_str(&self) -> (r: &'static str)
        ensures
            r@ == self.token(),
    {
        match self {
            UserAgent::Archiver => "archiver",
            UserAgent::Indexer => "indexer",
            UserAgent::Researcher => "researcher",
            UserAgent::Webproxy => "webproxy",
        }
    }

    /// The agent's token.
    pub fn to_string(&self) -> (r: String)
        ensures
            r@ == self.token(),
    {
        self.as_str().to_owned()
    }

    /// The agent that `token` names, if it names one. Tokens are matched
    /// exactly: case counts, and nothing is trimmed.
    pub fn from_token(token: &str) -> (r: Option<UserAgent>)
        ensures
            match r {
                Some(agent) => token@ == agent.token(),
                None => forall|agent: UserAgent| token@ != agent.token(),
            },
    {
        if same_str(token, "archiver") {
            Some(UserAgent::Archiver)
        } else if same_str(token, "indexer") {
            Some(UserAgent::Indexer)
        } else if same_str(token, "researcher") {
            Some(UserAgent::Researcher)
        } else if same_str(token, "webproxy") {
            Some(UserAgent::Webproxy)
        } else {
            None
        }
    }
}

/// Different agents have different tokens.
pub proof fn lemma_tokens_differ(a: UserAgent, b: UserAgent)
    requires
        a != b,
    ensures
        a.token() != b.token(),
{
    reveal_strlit("archiver");
    reveal_strlit("indexer");
    reveal_strlit("researcher");
    reveal_strlit("webproxy");
    if a.token().len() == b.token().len() {
        assert(a.token()[0] != b.token()[0]);
    }
}

} // verus!

//! robots.txt: the rules by which a server keeps automated clients out.
//!
//! A robots.txt is read line by line. `User-agent:` lines that follow one
//! another name a group of agents; a `Disallow:` line adds its path to the
//! rules of every agent of the group that stands before it, and closes the
//! group, so that the next `User-agent:` line begins a new one.

use crate::text::{
    chars_of, found, lines, lines_of, same, split_at_first, split_once, starts_with, string_of,
    trim, trim_start, trimmed, trimmed_start, views,
};
use vstd::prelude::*;

verus! {

/// The rules of a robots.txt: for each agent token that has any, the paths
/// that it is told to keep out of, in the order of the file.
pub type Rules = Map<Seq<char>, Seq<Seq<char>>>;

/// The paths that `table` holds for `agent`: none where it does not name
/// the agent.
pub open spec fn rules_of(table: Rules, agent: Seq<char>) -> Seq<Seq<char>> {
    if table.contains_key(agent) {
        table[agent]
    } else {
        Seq::empty()
    }
}

/// `table` with `path` added as the last rule of `agent`.
pub open spec fn added(table: Rules, agent: Seq<char>, path: Seq<char>) -> Rules {
    table.insert(agent, rules_of(table, agent).push(path))
}

/// `table` with `path` added to the rules of each agent of `group`, once
/// for each time that the group names the agent.
pub open spec fn disallowed(table: Rules, group: Seq<Seq<char>>, path: Seq<char>) -> Rules
    decreases group.len(),
{
    if group.len() == 0 {
        table
    } else {
        added(disallowed(table, group.drop_last(), path), group.last(), path)
    }
}

/// What a line of a robots.txt says.
pub enum Directive {
    /// `User-agent:` and a token.
    Agent(Seq<char>),
    /// `Disallow:` and a path.
    Disallow(Seq<char>),
}

/// The line without its comment: `None` where the first thing on the line
/// is a `#`, otherwise what stands before the first `#`.
pub open spec fn uncommented(line: Seq<char>) -> Option<Seq<char>> {
    if seq!['#'].is_prefix_of(trimmed_start(line)) {
        None
    } else {
        match split_at_first(line, seq!['#']) {
            Some((before, _)) => Some(before),
            None => Some(line),
        }
    }
}

/// What the line says, if it says anything. The words `User-agent:` and
/// `Disallow:` count wherever they stand on the line, the first of them
/// first, as they are written here; what follows the word, trimmed, is the
/// token or the path.
pub open spec fn directive_of(line: Seq<char>) -> Option<Directive> {
    match uncommented(line) {
        None => None,
        Some(rest) => match split_at_first(trimmed(rest), "User-agent:"@) {
            Some((_, agent)) => Some(Directive::Agent(trimmed(agent))),
            None => match split_at_first(trimmed(rest), "Disallow:"@) {
                Some((_, path)) => Some(Directive::Disallow(trimmed(path))),
                None => None,
            },
        },
    }
}

/// Where the reading of a robots.txt stands after some of its lines.
pub struct Reading {
    /// The rules read so far.
    pub table: Rules,
    /// The agents of the group that was named last.
    pub group: Seq<Seq<char>>,
    /// Whether that group is still open: the last thing that a line said
    /// was `User-agent:`.
    pub open: bool,
}

/// The reading after one more line.
pub open spec fn step(before: Reading, line: Seq<char>) -> Reading {
    match directive_of(line) {
        Some(Directive::Agent(agent)) => Reading {
            table: before.table,
            group: if before.open {
                before.group.push(agent)
            } else {
                seq![agent]
            },
            open: true,
        },
        Some(Directive::Disallow(path)) => Reading {
            table: disallowed(before.table, before.group, path),
            group: before.group,
            open: false,
        },
        None => before,
    }
}

/// The reading after all of `lines`.
pub open spec fn reading(lines: Seq<Seq<char>>) -> Reading
    decreases lines.len(),
{
    if lines.len() == 0 {
        Reading { table: Map::empty(), group: Seq::empty(), open: false }
    } else {
        step(reading(lines.drop_last()), lines.last())
    }
}

/// The rules that the robots.txt `text` states.
pub open spec fn robots_rules(text: Seq<char>) -> Rules {
    reading(lines_of(text)).table
}

/// The first entry of `entries` under `key`.
pub open spec fn lookup(entries: Seq<(Seq<char>, Seq<Seq<char>>)>, key: Seq<char>) -> Option<
    Seq<Seq<char>>,
>
    decreases entries.len(),
{
    if entries.len() == 0 {
        None
    } else if entries.first().0 == key {
        Some(entries.first().1)
    } else {
        lookup(entries.drop_first(), key)
    }
}

/// The rules of a robots.txt, by agent token. Its view is the map from each
/// token that has rules to its rules.
#[derive(Debug, Clone, PartialEq, Eq)]
pub struct RobotsTable {
    entries: Vec<(String, Vec<String>)>,
}

impl View for RobotsTable {
    type V = Rules;

    closed spec fn view(&self) -> Rules {
        Map::new(
            |key: Seq<char>| lookup(self.entries.deep_view(), key) is Some,
            |key: Seq<char>| lookup(self.entries.deep_view(), key)->0,
        )
    }
}

/// Looking up `key` among entries of which the first `i` are under other
/// keys is looking it up among the rest.
proof fn lemma_lookup_skip(entries: Seq<(Seq<char>, Seq<Seq<char>>)>, key: Seq<char>, i: int)
    requires
        0 <= i <= entries.len(),
        forall|j: int| 0 <= j < i ==> (#[trigger] entries[j]).0 != key,
    ensures
        lookup(entries, key) == lookup(entries.skip(i), key),
    decreases i,
{
    if i == 0 {
        assert(entries.skip(0) == entries);
    } else {
        assert(entries.first() == entries[0]);
        assert(entries.drop_first().skip(i - 1) == entries.skip(i));
        assert forall|j: int| 0 <= j < i - 1 implies (#[trigger] entries.drop_first()[j]).0
            != key by {
            assert(entries.drop_first()[j] == entries[j + 1]);
        }
        lemma_lookup_skip(entries.drop_first(), key, i - 1);
    }
}

/// Replacing the rules of the first entry under a key changes what is
/// found under that key, and nothing else.
proof fn lemma_lookup_update(
    entries: Seq<(Seq<char>, Seq<Seq<char>>)>,
    i: int,
    rules: Seq<Seq<char>>,
    key: Seq<char>,
)
    requires
        0 <= i < entries.len(),
        forall|j: int| 0 <= j < i ==> (#[trigger] entries[j]).0 != entries[i].0,
    ensures
        lookup(entries.update(i, (entries[i].0, rules)), key) == if key == entries[i].0 {
            Some(rules)
        } else {
            lookup(entries, key)
        },
    decreases i,
{
    let after = entries.update(i, (entries[i].0, rules));
    if i == 0 {
        assert(after.drop_first() == entries.drop_first());
    } else {
        let rest = entries.drop_first();
        assert(after.drop_first() == rest.update(i - 1, (rest[i - 1].0, rules)));
        assert forall|j: int| 0 <= j < i - 1 implies (#[trigger] rest[j]).0 != rest[i - 1].0 by {
            assert(rest[j] == entries[j + 1]);
        }
        assert(entries[0].0 != entries[i].0);
        lemma_lookup_update(rest, i - 1, rules, key);
    }
}

/// A new entry at the end, under a key that no entry was under, is found
/// under that key, and changes nothing else.
proof fn lemma_lookup_push(
    entries: Seq<(Seq<char>, Seq<Seq<char>>)>,
    agent: Seq<char>,
    rules: Seq<Seq<char>>,
    key: Seq<char>,
)
    requires
        forall|j: int| 0 <= j < entries.len() ==> (#[trigger] entries[j]).0 != agent,
    ensures
        lookup(entries, agent) is None,
        lookup(entries.push((agent, rules)), key) == if key == agent {
            Some(rules)
        } else {
            lookup(entries, key)
        },
    decreases entries.len(),
{
    let after = entries.push((agent, rules));
    if entries.len() == 0 {
        assert(after.drop_first() == entries);
    } else {
        let rest = entries.drop_first();
        assert(after.drop_first() == rest.push((agent, rules)));
        assert(entries.first() == entries[0]);
        assert forall|j: int| 0 <= j < rest.len() implies (#[trigger] rest[j]).0 != agent by {
            assert(rest[j] == entries[j + 1]);
        }
        lemma_lookup_push(rest, agent, rules, key);
    }
}

impl RobotsTable {
    /// A table without rules.
    pub fn new() -> (r: RobotsTable)
        ensures
            r@ == Map::<Seq<char>, Seq<Seq<char>>>::empty(),
    {
        let r = RobotsTable { entries: Vec::new() };
        assert(r@ =~= Map::<Seq<char>, Seq<Seq<char>>>::empty());
        r
    }

    /// The index of the first entry under `agent`.
    fn position(&self, agent: &[char]) -> (r: Option<usize>)
        ensures
            match r {
                Some(i) => {
                    &&& i < self.entries@.len()
                    &&& self.entries@[i as int].0@ == agent@
                    &&& forall|j: int|
                        0 <= j < i ==> (#[trigger] self.entries.deep_view()[j]).0 != agent@
                    &&& lookup(self.entries.deep_view(), agent@) == Some(
                        self.entries@[i as int].1.deep_view(),
                    )
                },
                None => {
                    &&& forall|j: int|
                        0 <= j < self.entries@.len() ==> (#[trigger] self.entries.deep_view()[j]).0
                            != agent@
                    &&& lookup(self.entries.deep_view(), agent@) is None
                },
            },
    {
        let ghost all = self.entries.deep_view();
        let mut i: usize = 0;
        while i < self.entries.len()
            invariant
                i <= self.entries.len(),
                all == self.entries.deep_view(),
                forall|j: int| 0 <= j < i ==> (#[trigger] all[j]).0 != agent@,
            decreases self.entries.len() - i,
        {
            let key = chars_of(self.entries[i].0.as_str());
            assert(all[i as int] == self.entries@[i as int].deep_view());
            if same(key.as_slice(), agent) {
                proof {
                    lemma_lookup_skip(all, agent@, i as int);
                    assert(all.skip(i as int).first() == all[i as int]);
                }
                return Some(i);
            }
            i += 1;
        }
        proof {
            lemma_lookup_skip(all, agent@, i as int);
        }
        None
    }

    /// The rules of `agent`, if the table holds any for it.
    pub fn get(&self, agent: &str) -> (r: Option<&Vec<String>>)
        ensures
            match r {
                Some(rules) => self@.contains_key(agent@) && rules.deep_view() == self@[agent@],
                None => !self@.contains_key(agent@),
            },
    {
        let key = chars_of(agent);
        match self.position(key.as_slice()) {
            Some(i) => Some(&self.entries[i].1),
            None => None,
        }
    }

    /// Adds `path` as the last rule of `agent`.
    pub fn add(&mut self, agent: &str, path: &str)
        ensures
            final(self)@ == added(old(self)@, agent@, path@),
    {
        let key = chars_of(agent);
        let ghost before = self.entries.deep_view();
        match self.position(key.as_slice()) {
            Some(i) => {
                let ghost rules = before[i as int].1.push(path@);
                self.entries[i].1.push(path.to_owned());
                proof {
                    assert(before[i as int] == old(self).entries@[i as int].deep_view());
                    assert(self.entries@[i as int].1.deep_view() =~= rules);
                    assert(self.entries.deep_view() =~= before.update(i as int, (agent@, rules)));
                    assert forall|k: Seq<char>|
                        lookup(self.entries.deep_view(), k) == if k == agent@ {
                            Some(rules)
                        } else {
                            lookup(before, k)
                        } by {
                        lemma_lookup_update(before, i as int, rules, k);
                    }
                    assert(self@ =~= added(old(self)@, agent@, path@));
                }
            },
            None => {
                let ghost rules = seq![path@];
                let mut first: Vec<String> = Vec::new();
                first.push(path.to_owned());
                assert(first.deep_view() == rules);
                self.entries.push((agent.to_owned(), first));
                proof {
                    assert(self.entries.deep_view() == before.push((agent@, rules)));
                    assert forall|k: Seq<char>|
                        lookup(self.entries.deep_view(), k) == if k == agent@ {
                            Some(rules)
                        } else {
                            lookup(before, k)
                        } by {
                        lemma_lookup_push(before, agent@, rules, k);
                    }
                    assert(Seq::<Seq<char>>::empty().push(path@) == rules);
                    assert(self@ =~= added(old(self)@, agent@, path@));
                }
            },
        }
    }
}

/// What a line of a robots.txt says, as the line holds it.
pub enum Said<'a> {
    /// `User-agent:` and a token.
    Agent(&'a [char]),
    /// `Disallow:` and a path.
    Disallow(&'a [char]),
}

impl<'a> View for Said<'a> {
    type V = Directive;

    open spec fn view(&self) -> Directive {
        match self {
            Said::Agent(agent) => Directive::Agent(agent@),
            Said::Disallow(path) => Directive::Disallow(path@),
        }
    }
}

/// Reads what a line of a robots.txt says.
pub fn read_directive<'a>(line: &'a [char]) -> (r: Option<Said<'a>>)
    ensures
        match r {
            Some(said) => directive_of(line@) == Some(said@),
            None => directive_of(line@) is None,
        },
{
    let hash: [char; 1] = ['#'];
    assert(hash@ == seq!['#']);
    if starts_with(trim_start(line), hash.as_slice()) {
        return None;
    }
    let rest = match split_once(line, hash.as_slice()) {
        Some((before, _)) => before,
        None => line,
    };
    let rest = trim(rest);
    let agent_word = chars_of("User-agent:");
    let disallow_word = chars_of("Disallow:");
    match split_once(rest, agent_word.as_slice()) {
        Some((_, agent)) => Some(Said::Agent(trim(agent))),
        None => match split_once(rest, disallow_word.as_slice()) {
            Some((_, path)) => Some(Said::Disallow(trim(path))),
            None => None,
        },
    }
}

/// Reads a robots.txt.
pub fn parse_robots(txt: &str) -> (r: RobotsTable)
    ensures
        r@ == robots_rules(txt@),
{
    let chars = chars_of(txt);
    let ls = lines(chars.as_slice());
    let ghost all = views(ls@);
    let mut table = RobotsTable::new();
    let mut group: Vec<String> = Vec::new();
    let mut open = false;
    let mut i: usize = 0;
    assert(all.take(0) == Seq::<Seq<char>>::empty());
    while i < ls.len()
        invariant
            i <= ls.len(),
            all == views(ls@),
            all == lines_of(txt@),
            reading(all.take(i as int)).table == table@,
            reading(all.take(i as int)).group == group.deep_view(),
            reading(all.take(i as int)).open == open,
        decreases ls.len() - i,
    {
        let ghost before = reading(all.take(i as int));
        proof {
            assert(all.take(i + 1).drop_last() == all.take(i as int));
            assert(all.take(i + 1).last() == ls@[i as int]@);
        }
        match read_directive(ls[i]) {
            Some(Said::Agent(agent)) => {
                if !open {
                    group.clear();
                }
                let ghost shorter = group.deep_view();
                group.push(string_of(agent));
                assert(group.deep_view() == shorter.push(agent@));
                assert(Seq::<Seq<char>>::empty().push(agent@) == seq![agent@]);
                open = true;
            },
            Some(Said::Disallow(path)) => {
                let path = string_of(path);
                let ghost names = group.deep_view();
                let mut k: usize = 0;
                assert(names.take(0) == Seq::<Seq<char>>::empty());
                while k < group.len()
                    invariant
                        k <= group.len(),
                        names == group.deep_view(),
                        table@ == disallowed(before.table, names.take(k as int), path@),
                    decreases group.len() - k,
                {
                    proof {
                        assert(names.take(k + 1).drop_last() == names.take(k as int));
                        assert(names.take(k + 1).last() == group@[k as int]@);
                    }
                    table.add(group[k].as_str(), path.as_str());
                    k += 1;
                }
                assert(names.take(k as int) == names);
                open = false;
            },
            None => {},
        }
        i += 1;
    }
    assert(all.take(i as int) == all);
    table
}

} // verus!

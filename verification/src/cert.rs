//! Which domains a server's certificate is for.
//!
//! Gemini binds a server to its name by the certificate that it presents:
//! no chain to a trusted root is looked for. A certificate is accepted for a
//! domain if one of the DNS names among its subject alternative names
//! matches the domain, label by label.

use crate::error::ActorError;
use crate::text::{
    chars_of, found, lemma_found, lemma_found_is, lemma_found_none, occurs_at, split_once,
    string_of, views,
};
use openssl::x509::X509;
use vstd::prelude::*;

verus! {

/// `openssl::x509::X509`: a certificate. Nothing of its contents is known
/// here but what the functions of this file return.
#[verifier::external_type_specification]
#[verifier::external_body]
pub struct ExX509(X509);

/// Whether the pattern matches the whole of the text, where `?` in the
/// pattern stands for any one character and `*` for any run of characters,
/// the empty one too. Nothing escapes the two.
pub open spec fn glob_matches(pattern: Seq<char>, text: Seq<char>) -> bool
    decreases pattern.len(), text.len(),
{
    if pattern.len() == 0 {
        text.len() == 0
    } else if pattern.first() == '*' {
        glob_matches(pattern.drop_first(), text) || (text.len() > 0 && glob_matches(
            pattern,
            text.drop_first(),
        ))
    } else {
        text.len() > 0 && (pattern.first() == '?' || pattern.first() == text.first())
            && glob_matches(pattern.drop_first(), text.drop_first())
    }
}

/// The labels of a name: what stands between its dots.
pub open spec fn labels(name: Seq<char>) -> Seq<Seq<char>>
    decreases name.len(),
{
    match found(name, seq!['.']) {
        Some(i) => if 0 <= i < name.len() {
            seq![name.take(i)] + labels(name.skip(i + 1))
        } else {
            seq![name]
        },
        None => seq![name],
    }
}

/// Whether a name of a certificate covers the domain: both have the same
/// number of labels, and each label of the name, read as a pattern, matches
/// the label of the domain in its place. So a `*` never reaches across a
/// dot.
pub open spec fn name_covers(name: Seq<char>, domain: Seq<char>) -> bool {
    let p = labels(name);
    let d = labels(domain);
    p.len() == d.len() && forall|i: int| 0 <= i < p.len() ==> glob_matches(#[trigger] p[i], d[i])
}

/// The DNS names among the subject alternative names of a certificate:
/// `None` where the certificate has no such extension, and in the list
/// `None` for an entry that is no DNS name.
pub open spec fn dns_names(alt_names: Option<Seq<Option<Seq<char>>>>) -> Seq<Seq<char>> {
    match alt_names {
        Some(entries) => present(entries),
        None => Seq::empty(),
    }
}

/// The entries that are there, in order.
pub open spec fn present(entries: Seq<Option<Seq<char>>>) -> Seq<Seq<char>>
    decreases entries.len(),
{
    if entries.len() == 0 {
        Seq::empty()
    } else {
        match entries.last() {
            Some(name) => present(entries.drop_last()).push(name),
            None => present(entries.drop_last()),
        }
    }
}

/// Whether one of the names covers the domain.
pub open spec fn some_name_covers(names: Seq<Seq<char>>, domain: Seq<char>) -> bool {
    exists|i: int| 0 <= i < names.len() && name_covers(#[trigger] names[i], domain)
}

/// `WildMatch::new(pattern).matches(text)` of the `wildmatch` crate: whether
/// the pattern matches the entire text, with `?` for exactly one character
/// and `*` for any number of characters.
#[verifier::external_body]
fn wild_matches(pattern: &str, text: &str) -> (r: bool)
    ensures
        r == glob_matches(pattern@, text@),
{
    wildmatch::WildMatch::new(pattern).matches(text)
}

/// The subject alternative names that a certificate holds: `None` where it
/// has no such extension, and in the list `None` for an entry that is no
/// DNS name. They are data of the certificate, and of nothing else.
pub uninterp spec fn alt_names_of(certificate: X509) -> Option<Seq<Option<Seq<char>>>>;

/// `X509Ref::subject_alt_names` of the `openssl` crate, each entry turned
/// into what `GeneralNameRef::dnsname` gives for it. The contract names
/// the outcome, which the certificate alone decides, and says nothing more
/// of it.
#[verifier::external_body]
fn subject_alt_names(certificate: &X509) -> (r: Option<Vec<Option<String>>>)
    ensures
        r.deep_view() == alt_names_of(*certificate),
{
    let names = certificate.subject_alt_names()?;
    Some(names.iter().map(|name| name.dnsname().map(|dns| dns.to_string())).collect())
}

/// Cuts a name into its labels.
pub fn split_labels<'a>(name: &'a [char]) -> (r: Vec<&'a [char]>)
    ensures
        views(r@) == labels(name@),
{
    let mut out: Vec<&'a [char]> = Vec::new();
    let dot: [char; 1] = ['.'];
    assert(dot@ == seq!['.']);
    let mut rest: &'a [char] = name;
    loop
        invariant
            dot@ == seq!['.'],
            views(out@) + labels(rest@) == labels(name@),
        decreases rest@.len(),
    {
        let ghost before = views(out@);
        proof {
            lemma_found(rest@, dot@);
        }
        match split_once(rest, dot.as_slice()) {
            Some((label, after)) => {
                out.push(label);
                assert(views(out@) == before.push(label@));
                assert(before.push(label@) + labels(after@) == before + labels(rest@));
                rest = after;
            },
            None => {
                out.push(rest);
                assert(views(out@) == before.push(rest@));
                assert(before.push(rest@) == before + labels(rest@));
                return out;
            },
        }
    }
}

/// Whether a name of a certificate covers the domain.
pub fn name_matches(name: &str, domain: &str) -> (r: bool)
    ensures
        r == name_covers(name@, domain@),
{
    let name_chars = chars_of(name);
    let domain_chars = chars_of(domain);
    let p = split_labels(name_chars.as_slice());
    let d = split_labels(domain_chars.as_slice());
    if p.len() != d.len() {
        return false;
    }
    let mut i: usize = 0;
    while i < p.len()
        invariant
            i <= p.len() == d.len(),
            views(p@) == labels(name@),
            views(d@) == labels(domain@),
            forall|j: int| 0 <= j < i ==> glob_matches(#[trigger] labels(name@)[j], labels(domain@)[j]),
        decreases p.len() - i,
    {
        let pattern = string_of(p[i]);
        let label = string_of(d[i]);
        assert(views(p@)[i as int] == p@[i as int]@);
        assert(views(d@)[i as int] == d@[i as int]@);
        if !wild_matches(pattern.as_str(), label.as_str()) {
            return false;
        }
        i += 1;
    }
    true
}

/// Checks the subject alternative names of a certificate against the
/// domain that was asked for. `alt_names` is `None` where the certificate
/// has no such extension; an entry of the list is `None` where it is no DNS
/// name.
pub fn check_names(alt_names: Option<Vec<Option<String>>>, domain: &str) -> (r: Result<
    (),
    ActorError,
>)
    ensures
        match r {
            Ok(()) => some_name_covers(dns_names(alt_names.deep_view()), domain@),
            Err(ActorError::NoDomains) => dns_names(alt_names.deep_view()).len() == 0,
            Err(ActorError::DomainUncerified(names, asked)) => {
                &&& names.deep_view() == dns_names(alt_names.deep_view())
                &&& names@.len() > 0
                &&& !some_name_covers(dns_names(alt_names.deep_view()), domain@)
                &&& asked@ == domain@
            },
            Err(_) => false,
        },
{
    let entries = match alt_names {
        Some(entries) => entries,
        None => {
            return Err(ActorError::NoDomains);
        },
    };
    let ghost all = entries.deep_view();
    let mut names: Vec<String> = Vec::new();
    let mut covered = false;
    let mut i: usize = 0;
    assert(all.take(0) == Seq::<Option<Seq<char>>>::empty());
    while i < entries.len()
        invariant
            i <= entries.len(),
            all == entries.deep_view(),
            names.deep_view() == present(all.take(i as int)),
            covered == some_name_covers(names.deep_view(), domain@),
        decreases entries.len() - i,
    {
        let ghost before = names.deep_view();
        proof {
            assert(all.take(i + 1).drop_last() == all.take(i as int));
            assert(all.take(i + 1).last() == all[i as int]);
            assert(all[i as int] == entries@[i as int].deep_view());
        }
        match &entries[i] {
            Some(name) => {
                let hit = name_matches(name.as_str(), domain);
                names.push(name.clone());
                proof {
                    assert(names.deep_view() == before.push(name@));
                    if hit {
                        assert(names.deep_view()[names.len() - 1] == name@);
                    } else if some_name_covers(names.deep_view(), domain@) {
                        let k = choose|k: int|
                            0 <= k < names.deep_view().len() && name_covers(
                                #[trigger] names.deep_view()[k],
                                domain@,
                            );
                        assert(before[k] == names.deep_view()[k]);
                    } else if covered {
                        let k = choose|k: int|
                            0 <= k < before.len() && name_covers(#[trigger] before[k], domain@);
                        assert(names.deep_view()[k] == before[k]);
                    }
                }
                covered = covered || hit;
            },
            None => {},
        }
        i += 1;
    }
    assert(all.take(i as int) == all);
    if names.len() == 0 {
        Err(ActorError::NoDomains)
    } else if covered {
        Ok(())
    } else {
        Err(ActorError::DomainUncerified(names, domain.to_owned()))
    }
}

/// Checks the certificate that the server presented, if it presented one,
/// against the domain that was asked for, and hands it back if it is for
/// that domain: one of the DNS names among its subject alternative names
/// covers the domain. Without a certificate the error is `NoCertificate`;
/// with one that holds no DNS name it is `NoDomains`; with one whose names
/// all fail to cover the domain it is `DomainUncerified`, with those names.
pub fn check_certificate(certificate: Option<X509>, domain: &str) -> (r: Result<X509, ActorError>)
    ensures
        match r {
            Ok(c) => {
                &&& certificate == Some(c)
                &&& some_name_covers(dns_names(alt_names_of(c)), domain@)
            },
            Err(ActorError::NoCertificate) => certificate is None,
            Err(ActorError::NoDomains) => {
                &&& certificate matches Some(c)
                &&& dns_names(alt_names_of(c)).len() == 0
            },
            Err(ActorError::DomainUncerified(names, asked)) => {
                &&& certificate matches Some(c)
                &&& names.deep_view() == dns_names(alt_names_of(c))
                &&& names@.len() > 0
                &&& !some_name_covers(names.deep_view(), domain@)
                &&& asked@ == domain@
            },
            Err(_) => false,
        },
{
    match certificate {
        Some(certificate) => {
            let alt_names = subject_alt_names(&certificate);
            match check_names(alt_names, domain) {
                Ok(()) => Ok(certificate),
                Err(e) => Err(e),
            }
        },
        None => Err(ActorError::NoCertificate),
    }
}

/// Every pattern matches itself.
pub proof fn lemma_glob_matches_itself(p: Seq<char>)
    ensures
        glob_matches(p, p),
    decreases p.len(),
{
    if p.len() > 0 {
        lemma_glob_matches_itself(p.drop_first());
        if p.first() == '*' {
            assert(glob_matches(p, p.drop_first()));
        }
    }
}

/// A lone `*` matches every text.
pub proof fn lemma_star_matches_all(text: Seq<char>)
    ensures
        glob_matches(seq!['*'], text),
    decreases text.len(),
{
    let star = seq!['*'];
    assert(star.drop_first() == Seq::<char>::empty());
    if text.len() > 0 {
        lemma_star_matches_all(text.drop_first());
    } else {
        assert(glob_matches(star.drop_first(), text));
    }
}

/// The labels of a label, a dot and a name are the label and then the
/// labels of the name.
pub proof fn lemma_labels_after_label(label: Seq<char>, name: Seq<char>)
    requires
        forall|i: int| 0 <= i < label.len() ==> label[i] != '.',
    ensures
        labels(label + seq!['.'] + name) == seq![label] + labels(name),
{
    let whole = label + seq!['.'] + name;
    let dot = seq!['.'];
    let at = label.len() as int;
    assert(whole.subrange(at, at + 1) == dot);
    assert forall|j: int| 0 <= j < at implies !occurs_at(whole, dot, j) by {
        assert(whole.subrange(j, j + 1)[0] == label[j]);
    }
    lemma_found_is(whole, dot, at);
    assert(whole.take(at) == label);
    assert(whole.skip(at + 1) == name);
}

/// A name without a dot is one label.
pub proof fn lemma_labels_of_label(label: Seq<char>)
    requires
        forall|i: int| 0 <= i < label.len() ==> label[i] != '.',
    ensures
        labels(label) == seq![label],
{
    let dot = seq!['.'];
    assert forall|j: int| 0 <= j && j + dot.len() <= label.len() implies !occurs_at(
        label,
        dot,
        j,
    ) by {
        assert(label.subrange(j, j + 1)[0] == label[j]);
    }
    lemma_found_none(label, dot);
}

/// For every domain `d`, the wildcard name `*.d` covers `sub.d` and does not
/// cover `d` itself. It does not cover `other.tld` either, unless `d` is a
/// single label that, read as a pattern, matches `tld`.
pub proof fn lemma_wildcard_name(d: Seq<char>)
    ensures
        name_covers("*."@ + d, "sub."@ + d),
        !name_covers("*."@ + d, d),
        !(labels(d).len() == 1 && glob_matches(labels(d)[0], "tld"@)) ==> !name_covers(
            "*."@ + d,
            "other.tld"@,
        ),
{
    reveal_strlit("*.");
    reveal_strlit("sub.");
    reveal_strlit("other.tld");
    reveal_strlit("tld");
    let star = seq!['*'];
    let sub = seq!['s', 'u', 'b'];
    let other = seq!['o', 't', 'h', 'e', 'r'];
    let tld = seq!['t', 'l', 'd'];
    assert("*."@ + d == star + seq!['.'] + d);
    assert("sub."@ + d == sub + seq!['.'] + d);
    assert("other.tld"@ == other + seq!['.'] + tld);
    assert("tld"@ == tld);
    lemma_labels_after_label(star, d);
    lemma_labels_after_label(sub, d);
    lemma_labels_after_label(other, tld);
    lemma_labels_of_label(tld);
    let p = labels(star + seq!['.'] + d);
    let s = labels(sub + seq!['.'] + d);
    assert forall|i: int| 0 <= i < p.len() implies glob_matches(#[trigger] p[i], s[i]) by {
        if i == 0 {
            lemma_star_matches_all(sub);
        } else {
            assert(p[i] == labels(d)[i - 1]);
            assert(s[i] == labels(d)[i - 1]);
            lemma_glob_matches_itself(p[i]);
        }
    }
    let o = labels(other + seq!['.'] + tld);
    assert(o == seq![other, tld]);
    if name_covers(star + seq!['.'] + d, other + seq!['.'] + tld) {
        assert(p.len() == 2);
        assert(glob_matches(p[1], o[1]));
        assert(p[1] == labels(d)[0]);
    }
}

} // verus!

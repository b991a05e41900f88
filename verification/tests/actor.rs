use openssl::asn1::Asn1Time;
use openssl::hash::MessageDigest;
use openssl::pkey::PKey;
use openssl::rsa::Rsa;
use openssl::x509::{X509Builder, X509NameBuilder, X509};
use std::path::PathBuf;
use trotter::actor::{find_denial, DEFAULT_TIMEOUT};
use trotter::error::ActorError;
use trotter::text::chars_of;
use trotter::url::GeminiUrl;
use trotter::{Actor, Response, UserAgent};

const ROBOTS: &str = "User-agent: indexer\nUser-agent: *\nDisallow: /private\nDisallow: /tmp\n";

fn certificate() -> X509 {
    let key = PKey::from_rsa(Rsa::generate(2048).unwrap()).unwrap();
    let mut name = X509NameBuilder::new().unwrap();
    name.append_entry_by_text("CN", "example.org").unwrap();
    let name = name.build();
    let mut builder = X509Builder::new().unwrap();
    builder.set_subject_name(&name).unwrap();
    builder.set_issuer_name(&name).unwrap();
    builder.set_pubkey(&key).unwrap();
    builder.set_not_before(&Asn1Time::days_from_now(0).unwrap()).unwrap();
    builder.set_not_after(&Asn1Time::days_from_now(1).unwrap()).unwrap();
    builder.sign(&key, MessageDigest::sha256()).unwrap();
    builder.build()
}

fn fetched(status: u8, content: &[u8]) -> Result<Response, ActorError> {
    Ok(Response { status, meta: "text/plain".to_string(), content: content.to_vec(), certificate: certificate() })
}

fn url(raw: &str) -> GeminiUrl {
    Actor::default().build_url(raw, None).unwrap()
}

#[test]
fn actor_by_default() {
    let actor = Actor::default();
    assert_eq!(actor.cert, None);
    assert_eq!(actor.key, None);
    assert_eq!(actor.user_agent, None);
    assert_eq!(actor.timeout, 5);
    assert_eq!(DEFAULT_TIMEOUT, 5);
}

#[test]
fn actor_is_built_step_by_step() {
    let actor = Actor::default()
        .cert_file(PathBuf::from("demo.crt"))
        .key_file(PathBuf::from("demo.key"))
        .user_agent(UserAgent::Indexer);
    assert_eq!(actor.cert, Some(PathBuf::from("demo.crt")));
    assert_eq!(actor.key, Some(PathBuf::from("demo.key")));
    assert_eq!(actor.user_agent, Some(UserAgent::Indexer));
    assert_eq!(actor.timeout, 5);
    let actor = actor.user_agent(UserAgent::Archiver).cert_file(PathBuf::from("other.crt"));
    assert_eq!(actor.cert, Some(PathBuf::from("other.crt")));
    assert_eq!(actor.key, Some(PathBuf::from("demo.key")));
    assert_eq!(actor.user_agent, Some(UserAgent::Archiver));
}

#[test]
fn actor_builds_urls() {
    let actor = Actor::default();
    assert_eq!(actor.build_url("localhost", None).unwrap().to_string(), "gemini://localhost/");
    assert_eq!(
        actor.build_url("localhost/input", Some("notice me!")).unwrap().to_string(),
        "gemini://localhost/input?notice%20me%21"
    );
    assert!(matches!(actor.build_url("a b", None), Err(ActorError::Url(_))));
    assert!(matches!(actor.build_url("", None), Err(ActorError::DomainErr)));
}

#[test]
fn robots_are_fetched_only_with_a_user_agent() {
    let page = url("example.org:1999/page");
    assert_eq!(Actor::default().robots_url(&page), None);
    let robots = Actor::default().user_agent(UserAgent::Webproxy).robots_url(&page).unwrap();
    assert_eq!(robots.to_string(), "gemini://example.org/robots.txt");
}

#[test]
fn indexer_is_kept_out_of_private() {
    match Actor::check_robots(ROBOTS, UserAgent::Indexer, "/private/x") {
        Err(ActorError::RobotDenied(rule, agent)) => {
            assert_eq!(rule, "/private");
            assert_eq!(agent, UserAgent::Indexer);
        },
        other => panic!("{:?}", other),
    }
    assert!(Actor::check_robots(ROBOTS, UserAgent::Indexer, "/public").is_ok());
    assert!(matches!(
        Actor::check_robots(ROBOTS, UserAgent::Archiver, "/tmp"),
        Err(ActorError::RobotDenied(_, UserAgent::Archiver))
    ));
}

#[test]
fn own_rules_come_before_the_rules_for_all() {
    let robots = "User-agent: *\nDisallow: /a\nUser-agent: researcher\nDisallow: /a/b\nDisallow: /c";
    match Actor::check_robots(robots, UserAgent::Researcher, "/a/b/c") {
        Err(ActorError::RobotDenied(rule, _)) => assert_eq!(rule, "/a/b"),
        other => panic!("{:?}", other),
    }
    match Actor::check_robots(robots, UserAgent::Researcher, "/a/x") {
        Err(ActorError::RobotDenied(rule, _)) => assert_eq!(rule, "/a"),
        other => panic!("{:?}", other),
    }
    assert!(Actor::check_robots(robots, UserAgent::Indexer, "/c").is_ok());
    assert!(Actor::check_robots(robots, UserAgent::Researcher, "/b").is_ok());
}

#[test]
fn slash_and_empty_rules_keep_out_of_everything() {
    assert!(Actor::check_robots("User-agent: *\nDisallow: /", UserAgent::Indexer, "/x").is_err());
    assert!(Actor::check_robots("User-agent: *\nDisallow: /", UserAgent::Indexer, "x").is_err());
    assert!(Actor::check_robots("User-agent: *\nDisallow:", UserAgent::Indexer, "/x").is_err());
    assert!(Actor::check_robots("User-agent: webproxy\nDisallow: /", UserAgent::Indexer, "/x").is_ok());
    assert!(Actor::check_robots("", UserAgent::Indexer, "/x").is_ok());
}

#[test]
fn first_denial_is_found() {
    let rules = vec!["/a".to_string(), "/".to_string(), "/b".to_string()];
    assert_eq!(find_denial(&rules, &chars_of("/b/c")), Some(&rules[1]));
    assert_eq!(find_denial(&rules[..1].to_vec(), &chars_of("/b/c")), None);
    assert_eq!(find_denial(&rules[..1].to_vec(), &chars_of("/ab")), Some(&rules[0]));
    assert_eq!(find_denial(&Vec::new(), &chars_of("/")), None);
}

#[test]
fn actor_obeys_robots() {
    let indexer = Actor::default().user_agent(UserAgent::Indexer);
    let private = url("example.org/private/x");
    let public = url("example.org/public");
    match indexer.obey_robots(&private, &fetched(20, ROBOTS.as_bytes())) {
        Err(ActorError::RobotDenied(rule, agent)) => {
            assert_eq!(rule, "/private");
            assert_eq!(agent, UserAgent::Indexer);
        },
        other => panic!("{:?}", other),
    }
    assert!(indexer.obey_robots(&public, &fetched(20, ROBOTS.as_bytes())).is_ok());
}

#[test]
fn robots_that_could_not_be_read_forbid_nothing() {
    let indexer = Actor::default().user_agent(UserAgent::Indexer);
    let private = url("example.org/private/x");
    assert!(indexer.obey_robots(&private, &fetched(51, ROBOTS.as_bytes())).is_ok());
    assert!(indexer.obey_robots(&private, &fetched(20, &[0xff])).is_ok());
    assert!(indexer.obey_robots(&private, &Err(ActorError::NoCertificate)).is_ok());
    assert!(Actor::default().obey_robots(&private, &fetched(20, ROBOTS.as_bytes())).is_ok());
}

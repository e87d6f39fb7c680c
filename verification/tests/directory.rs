use cypherpunk::directory::{match_line, parse_directory, parse_line, to_record, Record};
use cypherpunk::registry::RelayRegistry;
use cypherpunk::utils::IMatch;

const FEED: &str = "\
$remailer{\"austria\"} = \"<mixmaster@remailer.privacy.at> cpunk max mix pgp pgponly\";
$remailer{\"dizum\"} = \"<remailer@dizum.com> cpunk pgp\";
some line that means nothing

Last update: Thu 2 Jan 2020 10:00:01 GMT
remailer  email address                        history  latency  uptime
-----------------------------------------------------------------------
austria   mixmaster@remailer.privacy.at        ************     34:11  100.0%
dizum     remailer@dizum.com                   ++++++++++++   1:23:45   99.87%
paranoia  mixmaster@paranoici.org              -- - ----          99      abc%
";

fn chars(s: &str) -> Vec<char> {
    s.chars().collect()
}

fn strings(items: &[&str]) -> Vec<String> {
    items.iter().map(|s| s.to_string()).collect()
}

#[test]
fn a_listing_fills_the_first_three_captures() {
    let found = match_line(&chars("$remailer{\"dizum\"} = \"<remailer@dizum.com> cpunk pgp\";"));
    assert_eq!(
        found,
        IMatch {
            name: Some("dizum".to_string()),
            email: Some("remailer@dizum.com".to_string()),
            options: Some(" cpunk pgp".to_string()),
            ..IMatch::default()
        }
    );
}

#[test]
fn a_time_stamp_fills_the_date() {
    let found = match_line(&chars("Last update: Thu 2 Jan 2020 10:00:01 GMT"));
    assert_eq!(
        found,
        IMatch { date: Some("Thu 2 Jan 2020 10:00:01 GMT".to_string()), ..IMatch::default() }
    );
}

#[test]
fn statistics_fill_the_last_four_captures() {
    let found = match_line(&chars("dizum  remailer@dizum.com  ++++ ++++  1:23:45   99.87%"));
    assert_eq!(
        found,
        IMatch {
            name2: Some("dizum".to_string()),
            email2: Some("remailer@dizum.com".to_string()),
            latency: Some("1:23:45".to_string()),
            uptime: Some("99.87".to_string()),
            ..IMatch::default()
        }
    );
}

#[test]
fn other_lines_fill_nothing() {
    for line in [
        "",
        "remailer  email address                        history  latency  uptime",
        "-----------------------------------------------------------------------",
        "$remailer{\"\"} = \"<a@b.c> cpunk\";",
        "$remailer{\"x\"} = \"<> cpunk\";",
        "$remailer{\"x\"} = \"<a@b.c> cpunk\"",
        "$remailer{\"x\"} = <a@b.c> cpunk\";",
        " $remailer{\"x\"} = \"<a@b.c> cpunk\";",
        "Last update:",
        "dizum remailer@dizum.com 1:23:45 99.87%",
        "dizum remailer@dizum.com ++++ 1:23:45 99.87",
    ] {
        assert_eq!(match_line(&chars(line)), IMatch::default(), "line {:?}", line);
    }
}

#[test]
fn captures_become_records() {
    assert_eq!(to_record(IMatch::default()), None);
    assert_eq!(
        to_record(IMatch {
            name: Some("n".to_string()),
            email: Some("e".to_string()),
            options: Some("  a \t b ".to_string()),
            ..IMatch::default()
        }),
        Some(Record::Identity {
            name: "n".to_string(),
            email: "e".to_string(),
            options: strings(&["a", "b"]),
        })
    );
    assert_eq!(
        to_record(IMatch {
            name: Some("n".to_string()),
            email: Some("e".to_string()),
            ..IMatch::default()
        }),
        None
    );
    assert_eq!(
        to_record(IMatch {
            name2: Some("n".to_string()),
            email2: Some("e".to_string()),
            latency: Some("99".to_string()),
            uptime: Some("12.5".to_string()),
            ..IMatch::default()
        }),
        Some(Record::Stats {
            name: "n".to_string(),
            email: "e".to_string(),
            latency: 0,
            uptime: 1250,
        })
    );
}

#[test]
fn the_feed_in_order() {
    let records = parse_directory(FEED);
    assert_eq!(
        records,
        vec![
            Record::Identity {
                name: "austria".to_string(),
                email: "mixmaster@remailer.privacy.at".to_string(),
                options: strings(&["cpunk", "max", "mix", "pgp", "pgponly"]),
            },
            Record::Identity {
                name: "dizum".to_string(),
                email: "remailer@dizum.com".to_string(),
                options: strings(&["cpunk", "pgp"]),
            },
            Record::Freshness { date: "Thu 2 Jan 2020 10:00:01 GMT".to_string() },
            Record::Stats {
                name: "austria".to_string(),
                email: "mixmaster@remailer.privacy.at".to_string(),
                latency: 34 * 60 + 11,
                uptime: 10000,
            },
            Record::Stats {
                name: "dizum".to_string(),
                email: "remailer@dizum.com".to_string(),
                latency: 5025,
                uptime: 9987,
            },
            Record::Stats {
                name: "paranoia".to_string(),
                email: "mixmaster@paranoici.org".to_string(),
                latency: 0,
                uptime: 0,
            },
        ]
    );
}

#[test]
fn one_line_at_a_time() {
    assert_eq!(
        parse_line(&chars("Last update: today\r")),
        Some(Record::Freshness { date: "today".to_string() })
    );
    assert_eq!(
        parse_line(&chars("a a@x.org ### 0:05 50%")),
        Some(Record::Stats {
            name: "a".to_string(),
            email: "a@x.org".to_string(),
            latency: 5,
            uptime: 5000,
        })
    );
    assert_eq!(parse_line(&chars("\r")), None);
    assert_eq!(parse_line(&chars("nothing to see")), None);
}

#[test]
fn carriage_returns_are_dropped() {
    let records = parse_directory("Last update: now\r\n$remailer{\"a\"} = \"<a@x.org>\";\r\n");
    assert_eq!(
        records,
        vec![
            Record::Freshness { date: "now".to_string() },
            Record::Identity {
                name: "a".to_string(),
                email: "a@x.org".to_string(),
                options: vec![],
            },
        ]
    );
    assert!(parse_directory("").is_empty());
}

#[test]
fn the_registry_merges_listing_and_statistics() {
    let mut registry = RelayRegistry::new();
    let stamps = registry.ingest(FEED);
    assert_eq!(stamps, strings(&["Thu 2 Jan 2020 10:00:01 GMT"]));
    assert_eq!(registry.len(), 3);
    let dizum = registry.get("dizum").unwrap();
    assert_eq!(dizum.get_email(), "remailer@dizum.com");
    assert_eq!(dizum.get_options(), &strings(&["cpunk", "pgp"]));
    assert_eq!(dizum.get_latency(), 5025);
    assert_eq!(dizum.get_uptime(), 9987);
    let paranoia = registry.get("paranoia").unwrap();
    assert_eq!(paranoia.get_email(), "mixmaster@paranoici.org");
    assert!(paranoia.get_options().is_empty());
    assert_eq!(paranoia.get_latency(), 0);
    assert!(registry.get("nobody").is_none());
    let names: Vec<&str> = registry.relays().iter().map(|r| r.get_name().as_str()).collect();
    assert_eq!(names, vec!["austria", "dizum", "paranoia"]);
}

#[test]
fn statistics_before_listing_keep_their_numbers() {
    let mut registry = RelayRegistry::new();
    registry.apply(Record::Stats {
        name: "a".to_string(),
        email: "stats@x.org".to_string(),
        latency: 7,
        uptime: 5000,
    });
    registry.apply(Record::Identity {
        name: "a".to_string(),
        email: "listing@x.org".to_string(),
        options: strings(&["cpunk"]),
    });
    registry.apply(Record::Freshness { date: "now".to_string() });
    assert_eq!(registry.len(), 1);
    let a = registry.get("a").unwrap();
    assert_eq!(a.get_email(), "stats@x.org");
    assert_eq!(a.get_options(), &strings(&["cpunk"]));
    assert_eq!(a.get_latency(), 7);
    assert_eq!(a.get_uptime(), 5000);
}

#[test]
fn later_records_replace_only_their_fields() {
    let mut registry = RelayRegistry::new();
    registry.apply(Record::Identity {
        name: "a".to_string(),
        email: "a@x.org".to_string(),
        options: strings(&["cpunk"]),
    });
    registry.apply(Record::Stats {
        name: "a".to_string(),
        email: "other@x.org".to_string(),
        latency: 7,
        uptime: 5000,
    });
    registry.apply(Record::Identity {
        name: "a".to_string(),
        email: "third@x.org".to_string(),
        options: strings(&["mix", "pgp"]),
    });
    registry.apply(Record::Identity {
        name: "b".to_string(),
        email: "b@x.org".to_string(),
        options: vec![],
    });
    assert_eq!(registry.len(), 2);
    let a = registry.get("a").unwrap();
    assert_eq!(a.get_email(), "a@x.org");
    assert_eq!(a.get_options(), &strings(&["mix", "pgp"]));
    assert_eq!(a.get_latency(), 7);
    assert_eq!(a.get_uptime(), 5000);
}

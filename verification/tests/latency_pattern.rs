use cypherpunk::remailer::parse_latency;
use regex::Regex;

/// The seconds of a token by the grammar of latencies written as a regular expression.
fn by_pattern(pattern: &Regex, token: &str) -> u64 {
    match pattern.captures(token) {
        None => 0,
        Some(found) => {
            let field = |name: &str| -> Option<u64> {
                match found.name(name) {
                    None => Some(0),
                    Some(text) => text.as_str().parse::<u64>().ok(),
                }
            };
            let total = field("hour")
                .and_then(|h| h.checked_mul(3600))
                .and_then(|h| field("minute").and_then(|m| h.checked_add(m * 60)))
                .and_then(|t| field("second").and_then(|s| t.checked_add(s)));
            total.unwrap_or(0)
        }
    }
}

fn pattern() -> Regex {
    Regex::new(r"^((?P<hour>\d+):)?(?P<minute>[0-5]?\d):(?P<second>[0-5]\d)$").unwrap()
}

#[test]
fn agrees_with_the_pattern_on_short_tokens() {
    let pattern = pattern();
    let alphabet = ['0', '5', '6', '9', ':', 'a'];
    let mut tokens: Vec<String> = vec![String::new()];
    let mut last: Vec<String> = vec![String::new()];
    for _ in 0..6 {
        let mut next = Vec::new();
        for token in &last {
            for c in alphabet {
                let mut longer = token.clone();
                longer.push(c);
                next.push(longer);
            }
        }
        tokens.extend(next.iter().cloned());
        last = next;
    }
    assert_eq!(tokens.len(), 1 + 6 + 36 + 216 + 1296 + 7776 + 46656);
    for token in &tokens {
        assert_eq!(parse_latency(token), by_pattern(&pattern, token), "token {:?}", token);
    }
}

#[test]
fn agrees_with_the_pattern_on_chosen_tokens() {
    let pattern = pattern();
    for token in [
        "1:23:45",
        "99",
        "34:11",
        "0:00",
        "59:59",
        "60:00",
        "00:60",
        "100:00:00",
        "0001:5:09",
        "5124095576030431:00:15",
        "5124095576030431:00:16",
        "18446744073709551615:00:00",
        "18446744073709551616:00:00",
        "1:2:3:04",
        " 1:23",
        "1:23 ",
        "1:23\n",
        "-1:23",
        "+1:23",
        "1::23",
        "::",
        ":",
    ] {
        assert_eq!(parse_latency(token), by_pattern(&pattern, token), "token {:?}", token);
    }
}

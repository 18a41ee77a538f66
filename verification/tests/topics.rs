use mcutt::v3::packets::common::topic::has_valid_wildcard;
use mcutt::v3::packets::publish::contains_wildcard_char;

#[test]
fn not_wildcard_topic() {
    for topic in ["a/b", "/"] {
        assert!(has_valid_wildcard(topic), "{topic}");
    }
}

#[test]
fn multi_level_wildcard() {
    for topic in ["#", "sport/#", "sport/tennis/#"] {
        assert!(has_valid_wildcard(topic), "{topic}");
    }
}

#[test]
fn single_level_wildcard() {
    for topic in ["+/tennis/#", "sport/+/player1", "+", "/+", "+/+"] {
        assert!(has_valid_wildcard(topic), "{topic}");
    }
}

#[test]
fn invalid_wildcard() {
    for topic in ["sport/tennis#", "sport/tennis/#/ranking", "sport+"] {
        assert!(!has_valid_wildcard(topic), "{topic}");
    }
}

#[test]
fn should_match_whildcard() {
    for topic in ["/foo/+", "/foo/#"] {
        assert!(contains_wildcard_char(topic));
    }
    assert!(!contains_wildcard_char("/foo/bar"));
}

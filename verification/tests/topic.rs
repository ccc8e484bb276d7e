use mqtt_core::err::DecodeErrorKind;
use mqtt_core::topic::{TopicFilter, TopicName, TopicToken};

#[test]
fn topic_filter_multi_level_wildcard() {
    let topic_filter = TopicFilter::from_str("sport/tennis/player1/#").unwrap();

    // pattern match on a generic topic_filter
    assert_eq!(
        TopicName::from_str("sport/tennis/player1").unwrap(),
        topic_filter
    );
    assert_eq!(
        TopicName::from_str("sport/tennis/player1/ranking").unwrap(),
        topic_filter
    );
    assert_eq!(
        TopicName::from_str("sport/tennis/player1/score/wimbledon").unwrap(),
        topic_filter
    );

    // multi-level wildcards also include the parent topic
    assert_eq!(
        TopicName::from_str("sport").unwrap(),
        TopicFilter::from_str("sport/#").unwrap()
    );

    // a wildcard character inside a level is a character of the name.
    assert_ne!(TopicName::from_str("sport/tennis#").unwrap(), topic_filter);

    // multi-level wildcards must be at the end of a filter.
    assert!(TopicFilter::from_str("sport/tennis/#/ranking").is_err())
}

#[test]
fn topic_filter_single_level_wildcard() {
    let topic_filter = TopicFilter::from_str("sport/tennis/+").unwrap();

    assert_eq!(
        topic_filter,
        TopicName::from_str("sport/tennis/player1").unwrap()
    );

    assert_eq!(
        topic_filter,
        TopicName::from_str("sport/tennis/player1").unwrap()
    );

    assert_ne!(
        topic_filter,
        TopicName::from_str("sport/tennis/player1/ranking").unwrap()
    );

    let topic_filter = TopicFilter::from_str("sport/+").unwrap();

    assert_eq!(topic_filter, TopicName::from_str("sport/").unwrap());
    assert_ne!(topic_filter, TopicName::from_str("sport").unwrap());

    assert_eq!(
        TopicFilter::from_str("sport/+/player1").unwrap(),
        TopicName::from_str("sport/tennis/player1").unwrap()
    );

    let topic_name = TopicName::from_str("/finance").unwrap();

    assert_eq!(TopicFilter::from_str("+/+").unwrap(), topic_name);
    assert_eq!(TopicFilter::from_str("/+").unwrap(), topic_name);
    assert_ne!(TopicFilter::from_str("+").unwrap(), topic_name);
}

#[test]
fn topic_begining_with_dollar_sign() {
    let root_sub = TopicFilter::from_str("#").unwrap();

    assert_ne!(root_sub, TopicName::from_str("$SYS").unwrap());

    assert_ne!(
        TopicFilter::from_str("+/monitor/Clients").unwrap(),
        TopicName::from_str("$SYS/monitor/Clients").unwrap()
    );

    assert_eq!(
        TopicFilter::from_str("$SYS/#").unwrap(),
        TopicName::from_str("$SYS/anything/else").unwrap()
    );

    assert_eq!(
        TopicFilter::from_str("$SYS/monitor/+").unwrap(),
        TopicName::from_str("$SYS/monitor/Clients").unwrap()
    );

    // a level that begins with `$` is out of reach of `#` wherever it stands
    assert_ne!(root_sub, TopicName::from_str("other/$something").unwrap());
}

#[test]
fn multi_level_wildcard_alone_matches_any_depth() {
    let root_sub = TopicFilter::from_str("#").unwrap();
    assert!(root_sub.matches(&TopicName::from_str("a").unwrap()));
    assert!(root_sub.matches(&TopicName::from_str("a/b/c").unwrap()));
    assert!(root_sub.matches(&TopicName::from_str("/").unwrap()));
}

#[test]
fn single_level_wildcard_guards_only_the_first_level() {
    let filter = TopicFilter::from_str("a/+").unwrap();
    assert!(filter.matches(&TopicName::from_str("a/$x").unwrap()));
    assert!(!TopicFilter::from_str("+/x")
        .unwrap()
        .matches(&TopicName::from_str("$a/x").unwrap()));
    assert!(!TopicFilter::from_str("a/#")
        .unwrap()
        .matches(&TopicName::from_str("a/$x").unwrap()));
}

#[test]
fn plain_levels_must_be_equal() {
    let filter = TopicFilter::from_str("a/b").unwrap();
    assert!(filter.matches(&TopicName::from_str("a/b").unwrap()));
    assert!(!filter.matches(&TopicName::from_str("a/c").unwrap()));
    assert!(!filter.matches(&TopicName::from_str("a").unwrap()));
    assert!(!filter.matches(&TopicName::from_str("a/b/c").unwrap()));
    assert!(!filter.matches(&TopicName::from_str("a/b/").unwrap()));
}

#[test]
fn topic_name_rejects_empty_and_wildcard_levels() {
    assert_eq!(
        TopicName::from_str("").unwrap_err().kind(),
        DecodeErrorKind::MalformedTopicName
    );
    assert_eq!(
        TopicName::from_str("a/+").unwrap_err().kind(),
        DecodeErrorKind::MalformedTopicName
    );
    assert_eq!(
        TopicName::from_str("#").unwrap_err().kind(),
        DecodeErrorKind::MalformedTopicName
    );
    assert_eq!(
        TopicName::from_str("a/#/b").unwrap_err().kind(),
        DecodeErrorKind::MalformedTopicName
    );
    assert!(TopicName::from_str("a+/b#").is_ok());
}

#[test]
fn topic_filter_rejects_empty_and_misplaced_multi_level() {
    assert_eq!(
        TopicFilter::from_str("").unwrap_err().kind(),
        DecodeErrorKind::MalformedTopicFilter
    );
    assert_eq!(
        TopicFilter::from_str("#/a").unwrap_err().kind(),
        DecodeErrorKind::MalformedTopicFilter
    );
    assert!(TopicFilter::from_str("+/+/#").is_ok());
}

#[test]
fn topic_string_round_trip() {
    for text in ["a", "a/b", "/", "/a", "a/", "a//b", "$SYS/x", "größe/日本"] {
        let name = TopicName::from_str(text).unwrap();
        assert_eq!(name.len(), text.len());
        assert_eq!(name.clone().to_string(), text);
        assert_eq!(TopicName::from_str(&name.to_string()).unwrap(), TopicName::from_str(text).unwrap());
    }
    for text in ["#", "+", "a/+/b", "a/#", "+/+", "$SYS/#"] {
        let filter = TopicFilter::from_str(text).unwrap();
        assert_eq!(filter.len(), text.len());
        assert_eq!(filter.to_string(), text);
    }
}

#[test]
fn topic_names_compare_by_their_levels() {
    assert_eq!(
        TopicName::from_str("a/b").unwrap(),
        TopicName::from_str("a/b").unwrap()
    );
    assert_ne!(
        TopicName::from_str("a/b").unwrap(),
        TopicName::from_str("a/b/").unwrap()
    );
    assert_ne!(
        TopicFilter::from_str("a/+").unwrap(),
        TopicFilter::from_str("a/#").unwrap()
    );
    assert_eq!(TopicName::from_str("a/b").unwrap().levels(), 2);
    assert!(TopicName::from_str("$SYS/b").unwrap().is_reserved());
    assert!(!TopicName::from_str("a/$b").unwrap().is_reserved());
}

#[test]
fn tokens_follow_their_text() {
    assert_eq!(TopicToken::from_str("#"), TopicToken::MultiLevel);
    assert_eq!(TopicToken::from_str("+"), TopicToken::SingleLevel);
    assert_eq!(
        TopicToken::from_str("$x"),
        TopicToken::Dollar(String::from("$x"))
    );
    assert_eq!(
        TopicToken::from_str("x#"),
        TopicToken::String(String::from("x#"))
    );
    assert_eq!(TopicToken::from_str(""), TopicToken::String(String::new()));
    assert_eq!(TopicToken::from_str("#").as_str(), "#");
    assert_eq!(TopicToken::from_str("+").as_str(), "+");
    assert_eq!(TopicToken::from_str("$x").as_str(), "$x");
}

use shiguredo_mqtt::topic_filter::{is_valid_topic_filter, is_valid_v5_topic_filter};
#[test]
fn valid_topic_filters() {
    assert!(is_valid_topic_filter("a/b"));
    assert!(is_valid_topic_filter("a/+/b"));
    assert!(is_valid_topic_filter("a/#"));
    assert!(is_valid_topic_filter("#"));
    assert!(is_valid_topic_filter("+"));
    assert!(is_valid_topic_filter("+/a/#"));
}

#[test]
fn empty_topic_levels_are_allowed() {
    assert!(is_valid_topic_filter("/a"));
    assert!(is_valid_topic_filter("a/"));
    assert!(is_valid_topic_filter("a//b"));
    assert!(is_valid_topic_filter("/"));
    assert!(is_valid_topic_filter("///"));
    assert!(is_valid_topic_filter("/#"));
    assert!(is_valid_topic_filter("+/"));
}

#[test]
fn invalid_topic_filters() {
    assert!(!is_valid_topic_filter(""));
    assert!(!is_valid_topic_filter("a+"));
    assert!(!is_valid_topic_filter("a#"));
    assert!(!is_valid_topic_filter("#/a"));
    assert!(!is_valid_topic_filter("a/+/b#"));
}

#[test]
fn valid_v5_shared_subscriptions() {
    assert!(is_valid_v5_topic_filter("a/b"));
    assert!(is_valid_v5_topic_filter("a/+/b"));
    assert!(is_valid_v5_topic_filter("a/#"));
    assert!(is_valid_v5_topic_filter("$share/group/a/b"));
    assert!(is_valid_v5_topic_filter("$share/mygroup/#"));
    assert!(is_valid_v5_topic_filter("$share/G1/+/status"));
    assert!(is_valid_v5_topic_filter("$share/group//a"));
    assert!(is_valid_v5_topic_filter("$share/group/a//b"));
}

#[test]
fn invalid_v5_shared_subscriptions() {
    assert!(!is_valid_v5_topic_filter("$share//a/b"));
    assert!(!is_valid_v5_topic_filter("$share/group"));
    assert!(!is_valid_v5_topic_filter("$share/gr+up/a/b"));
    assert!(!is_valid_v5_topic_filter("$share/gr#up/a/b"));
    assert!(!is_valid_v5_topic_filter("$share/group/a#/b"));
}

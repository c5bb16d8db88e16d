use podsync::model::Episode;
use podsync::text::{duration_to_int, explicit_flag, explicit_from_lowered, same_text, sort_title, strip_leading_article};

#[test]
fn duration_forms() {
    assert_eq!(duration_to_int(Some("1:02:03")), Some(3723));
    assert_eq!(duration_to_int(Some("02:03")), Some(123));
    assert_eq!(duration_to_int(Some("45")), Some(45));
    assert_eq!(duration_to_int(Some("abc")), None);
    assert_eq!(duration_to_int(Some("1:ab:03")), None);
}

#[test]
fn duration_edge_cases() {
    assert_eq!(duration_to_int(None), None);
    assert_eq!(duration_to_int(Some("")), None);
    assert_eq!(duration_to_int(Some("1:2:3:4")), None);
    assert_eq!(duration_to_int(Some("12:")), None);
    assert_eq!(duration_to_int(Some(":12")), None);
    assert_eq!(duration_to_int(Some("2147483647")), Some(2147483647));
    assert_eq!(duration_to_int(Some("2147483648")), None);
    assert_eq!(duration_to_int(Some("596523:14:07")), Some(2147483647));
    assert_eq!(duration_to_int(Some("596523:14:08")), None);
    assert_eq!(duration_to_int(Some("007")), Some(7));
}

#[test]
fn sort_title_strips_one_article() {
    assert_eq!(sort_title("The Daily"), "daily");
    assert_eq!(sort_title("A Show"), "show");
    assert_eq!(sort_title("Anomaly"), "anomaly");
    assert_eq!(sort_title("An Hour"), "hour");
    assert_eq!(sort_title("The The Band"), "the band");
    assert_eq!(sort_title("Theory"), "theory");
    assert_eq!(sort_title(""), "");
}

#[test]
fn strip_article_of_lowered_text() {
    assert_eq!(strip_leading_article("the daily"), "daily");
    assert_eq!(strip_leading_article("The Daily"), "The Daily");
}

#[test]
fn explicit_values() {
    assert_eq!(explicit_flag("Yes"), Some(true));
    assert_eq!(explicit_flag("EXPLICIT"), Some(true));
    assert_eq!(explicit_flag("true"), Some(true));
    assert_eq!(explicit_flag("No"), Some(false));
    assert_eq!(explicit_flag("clean"), Some(false));
    assert_eq!(explicit_flag("FALSE"), Some(false));
    assert_eq!(explicit_flag("maybe"), None);
    assert_eq!(explicit_flag(""), None);
    assert_eq!(explicit_from_lowered("YES"), None);
}

#[test]
fn same_text_compares_characters() {
    assert!(same_text("abc", "abc"));
    assert!(!same_text("abc", "abd"));
    assert!(!same_text("ab", "abc"));
}

fn episode_with(duration: Option<i64>) -> Episode {
    Episode {
        id: 1,
        pod_id: 1,
        title: String::new(),
        url: String::new(),
        guid: String::new(),
        description: String::new(),
        pubdate: None,
        duration,
        path: None,
        played: false,
        hidden: false,
        last_position: 0,
        image_url: None,
    }
}

#[test]
fn format_duration_text() {
    assert_eq!(episode_with(Some(3723)).format_duration(), "01:02:03");
    assert_eq!(episode_with(Some(0)).format_duration(), "00:00:00");
    assert_eq!(episode_with(Some(360000)).format_duration(), "100:00:00");
    assert_eq!(episode_with(None).format_duration(), "--:--:--");
    assert_eq!(episode_with(Some(-3723)).format_duration(), format!("{:02}:{:02}:{:02}", -1, -2, -3));
    assert_eq!(episode_with(Some(-59)).format_duration(), "00:00:-59");
}

use e6kiro::search::{authorization_value, join_tags, search_url, user_agent};

#[test]
fn url_holds_limit_filters_and_tags() {
    let tags = vec!["male".to_string(), "rating:safe".to_string()];
    assert_eq!(
        search_url(&tags, 3),
        "https://e621.net/posts.json?limit=3&tags=order:random+-female+-intersex+male+rating:safe"
    );
}

#[test]
fn tags_join_with_plus() {
    assert_eq!(join_tags(&vec![]), "");
    assert_eq!(join_tags(&vec!["a".to_string()]), "a");
    assert_eq!(join_tags(&vec!["a".to_string(), "b".to_string(), "c".to_string()]), "a+b+c");
}

#[test]
fn authorization_is_basic_base64() {
    assert_eq!(authorization_value("abc"), "Basic a2Fsa2E6YWJj");
    assert_eq!(authorization_value("é"), "Basic a2Fsa2E6w6k=");
}

#[test]
fn agent_is_fixed() {
    assert_eq!(user_agent(), "e6kiro / made by Kalka");
}

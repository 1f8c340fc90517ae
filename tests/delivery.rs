use e6kiro::delivery::{
    after_fetch, after_link, after_upload, spoiler_filename, start, DeliveryFailure,
    DeliveryOutcome, Post, Step,
};

fn posts() -> Vec<Post> {
    vec![
        Post { id: 12345, url: "https://static1.e621.net/data/a.png".to_string() },
        Post { id: 7, url: "https://static1.e621.net/data/b.webm".to_string() },
    ]
}

fn outcome(step: Step) -> DeliveryOutcome {
    match step {
        Step::Finish { outcome } => outcome,
        _ => panic!("the delivery should have ended"),
    }
}

#[test]
fn empty_result_notifies_once() {
    match start(&vec![]) {
        Step::Notify { text, outcome } => {
            assert_eq!(text, "No post found!");
            assert_eq!(outcome, DeliveryOutcome::Empty);
        }
        _ => panic!("an empty result should notify"),
    }
}

#[test]
fn posts_are_fetched_in_order() {
    match start(&posts()) {
        Step::Fetch { urls } => assert_eq!(
            urls,
            vec!["https://static1.e621.net/data/a.png", "https://static1.e621.net/data/b.webm"]
        ),
        _ => panic!("posts should be fetched"),
    }
}

#[test]
fn fetched_files_are_spoilered() {
    match after_fetch(Some(vec!["a.png".to_string(), "b.webm".to_string()])) {
        Step::Upload { filenames } => assert_eq!(filenames, vec!["SPOILER_a.png", "SPOILER_b.webm"]),
        _ => panic!("fetched files should be uploaded"),
    }
    assert_eq!(spoiler_filename("x.jpg"), "SPOILER_x.jpg");
}

#[test]
fn failed_fetch_sends_nothing() {
    assert_eq!(
        outcome(after_fetch(None)),
        DeliveryOutcome::Failed(DeliveryFailure::AttachmentFetch)
    );
}

#[test]
fn sent_attachments_end_the_delivery() {
    assert_eq!(outcome(after_upload(&posts(), true)), DeliveryOutcome::AttachmentsSent);
}

#[test]
fn failed_upload_links_the_first_post() {
    match after_upload(&posts(), false) {
        Step::SendLink { text } => assert_eq!(text, "||https://e621.net/posts/12345||"),
        _ => panic!("a failed upload should fall back to a link"),
    }
    assert_eq!(outcome(after_link(true)), DeliveryOutcome::LinkSent);
    assert_eq!(outcome(after_link(false)), DeliveryOutcome::Failed(DeliveryFailure::Send));
}

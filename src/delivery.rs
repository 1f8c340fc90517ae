use vstd::prelude::*;
use crate::text::{decimal, push_decimal, views};

verus! {

/// One search result: its identifier and the URL of its file.
pub struct Post {
    pub id: u64,
    pub url: String,
}

/// What a post holds, as plain values.
pub struct PostView {
    pub id: u64,
    pub url: Seq<char>,
}

impl View for Post {
    type V = PostView;

    open spec fn view(&self) -> PostView {
        PostView { id: self.id, url: self.url@ }
    }
}

/// The views of a list of posts.
pub open spec fn post_views(posts: Seq<Post>) -> Seq<PostView> {
    posts.map_values(|p: Post| p@)
}

/// Why a delivery ended without reaching the channel.
#[derive(Clone, Copy, Debug, PartialEq, Eq, Structural)]
pub enum DeliveryFailure {
    /// A post's file could not be fetched; nothing was sent.
    AttachmentFetch,
    /// Neither the attachments nor the fallback link could be sent.
    Send,
}

/// How one delivery ended.
#[derive(Clone, Copy, Debug, PartialEq, Eq, Structural)]
pub enum DeliveryOutcome {
    AttachmentsSent,
    LinkSent,
    Empty,
    Failed(DeliveryFailure),
}

/// The next thing the channel side has to do.
pub enum Step {
    /// Send `text`; the delivery then ends with `outcome`, whether or not
    /// the send succeeded.
    Notify { text: String, outcome: DeliveryOutcome },
    /// Fetch the file at each URL, in order, into an attachment.
    Fetch { urls: Vec<String> },
    /// Send the fetched attachments, under these names, in one message with
    /// empty text.
    Upload { filenames: Vec<String> },
    /// Send `text` as the fallback link.
    SendLink { text: String },
    /// Nothing more to do.
    Finish { outcome: DeliveryOutcome },
}

/// A step, as plain values.
pub enum StepView {
    Notify { text: Seq<char>, outcome: DeliveryOutcome },
    Fetch { urls: Seq<Seq<char>> },
    Upload { filenames: Seq<Seq<char>> },
    SendLink { text: Seq<char> },
    Finish { outcome: DeliveryOutcome },
}

impl View for Step {
    type V = StepView;

    open spec fn view(&self) -> StepView {
        match self {
            Step::Notify { text, outcome } => StepView::Notify { text: text@, outcome: *outcome },
            Step::Fetch { urls } => StepView::Fetch { urls: views(urls@) },
            Step::Upload { filenames } => StepView::Upload { filenames: views(filenames@) },
            Step::SendLink { text } => StepView::SendLink { text: text@ },
            Step::Finish { outcome } => StepView::Finish { outcome: *outcome },
        }
    }
}

/// The message sent when a search found nothing.
pub open spec fn no_post_text() -> Seq<char> {
    "No post found!"@
}

/// The permalink of a post, wrapped in spoiler markup.
pub open spec fn link_text(id: u64) -> Seq<char> {
    "||https://e621.net/posts/"@ + decimal(id as nat) + "||"@
}

/// An attachment name marked as a spoiler, so that it shows blurred.
pub open spec fn spoiler_name(name: Seq<char>) -> Seq<char> {
    "SPOILER_"@ + name
}

/// The first step: tell the channel that nothing was found, or fetch the
/// file of every post.
pub open spec fn start_step(posts: Seq<PostView>) -> StepView {
    if posts.len() == 0 {
        StepView::Notify { text: no_post_text(), outcome: DeliveryOutcome::Empty }
    } else {
        StepView::Fetch { urls: posts.map_values(|p: PostView| p.url) }
    }
}

/// The step after fetching: give up when a fetch failed, else send all the
/// attachments under spoiler names.
pub open spec fn fetched_step(names: Option<Seq<Seq<char>>>) -> StepView {
    match names {
        None => StepView::Finish {
            outcome: DeliveryOutcome::Failed(DeliveryFailure::AttachmentFetch),
        },
        Some(n) => StepView::Upload { filenames: n.map_values(|x: Seq<char>| spoiler_name(x)) },
    }
}

/// The step after sending the attachments: done when they went out, else
/// fall back to a link to the first post.
pub open spec fn uploaded_step(posts: Seq<PostView>, sent: bool) -> StepView {
    if sent {
        StepView::Finish { outcome: DeliveryOutcome::AttachmentsSent }
    } else {
        StepView::SendLink { text: link_text(posts[0].id) }
    }
}

/// The step after sending the link.
pub open spec fn linked_step(sent: bool) -> StepView {
    if sent {
        StepView::Finish { outcome: DeliveryOutcome::LinkSent }
    } else {
        StepView::Finish { outcome: DeliveryOutcome::Failed(DeliveryFailure::Send) }
    }
}

/// Appends the spoiler-wrapped permalink of post `id` to `out`.
fn push_link(out: &mut String, id: u64)
    ensures
        final(out)@ == old(out)@ + link_text(id),
{
    out.append("||https://e621.net/posts/");
    push_decimal(out, id);
    out.append("||");
}

/// Decides the first step of a delivery.
pub fn start(posts: &Vec<Post>) -> (r: Step)
    ensures
        r@ == start_step(post_views(posts@)),
{
    if posts.len() == 0 {
        return Step::Notify {
            text: String::from_str("No post found!"),
            outcome: DeliveryOutcome::Empty,
        };
    }
    let mut urls: Vec<String> = Vec::new();
    let mut i: usize = 0;
    while i < posts.len()
        invariant
            i <= posts@.len(),
            views(urls@) == post_views(posts@).subrange(0, i as int).map_values(
                |p: PostView| p.url,
            ),
        decreases posts.len() - i,
    {
        let ghost before = urls@;
        let url = posts[i].url.clone();
        urls.push(url);
        assert(views(urls@) =~= views(before).push(posts@[i as int].url@));
        assert(post_views(posts@)[i as int].url == posts@[i as int].url@);
        assert(views(urls@) =~= post_views(posts@).subrange(0, i + 1).map_values(
            |p: PostView| p.url,
        ));
        i = i + 1;
    }
    assert(post_views(posts@).subrange(0, posts@.len() as int) =~= post_views(posts@));
    Step::Fetch { urls }
}

/// Names an attachment as a spoiler.
pub fn spoiler_filename(name: &str) -> (r: String)
    ensures
        r@ == spoiler_name(name@),
{
    let mut out = String::from_str("SPOILER_");
    out.append(name);
    out
}

/// Decides what follows the fetch of the attachments, given the names of the
/// fetched files in order, or `None` when a fetch failed.
pub fn after_fetch(names: Option<Vec<String>>) -> (r: Step)
    ensures
        r@ == fetched_step(
            match names {
                Some(n) => Some(views(n@)),
                None => None,
            },
        ),
{
    match names {
        None => Step::Finish { outcome: DeliveryOutcome::Failed(DeliveryFailure::AttachmentFetch) },
        Some(n) => {
            let mut filenames: Vec<String> = Vec::new();
            let mut i: usize = 0;
            while i < n.len()
                invariant
                    i <= n@.len(),
                    views(filenames@) == views(n@).subrange(0, i as int).map_values(
                        |x: Seq<char>| spoiler_name(x),
                    ),
                decreases n.len() - i,
            {
                let ghost before = filenames@;
                let named = spoiler_filename(n[i].as_str());
                filenames.push(named);
                assert(views(filenames@) =~= views(before).push(named@));
                assert(views(n@)[i as int] == n@[i as int]@);
                assert(views(filenames@) =~= views(n@).subrange(0, i + 1).map_values(
                    |x: Seq<char>| spoiler_name(x),
                ));
                i = i + 1;
            }
            assert(views(n@).subrange(0, n@.len() as int) =~= views(n@));
            Step::Upload { filenames }
        },
    }
}

/// Decides what follows the attempt to send the attachments.
pub fn after_upload(posts: &Vec<Post>, sent: bool) -> (r: Step)
    requires
        posts@.len() > 0,
    ensures
        r@ == uploaded_step(post_views(posts@), sent),
{
    if sent {
        Step::Finish { outcome: DeliveryOutcome::AttachmentsSent }
    } else {
        let mut text = String::new();
        push_link(&mut text, posts[0].id);
        assert(text@ =~= link_text(posts@[0].id));
        Step::SendLink { text }
    }
}

/// Decides how the delivery ends after the attempt to send the link.
pub fn after_link(sent: bool) -> (r: Step)
    ensures
        r@ == linked_step(sent),
{
    if sent {
        Step::Finish { outcome: DeliveryOutcome::LinkSent }
    } else {
        Step::Finish { outcome: DeliveryOutcome::Failed(DeliveryFailure::Send) }
    }
}

/// What a whole delivery did: the texts it sent, the attachment batches it
/// sent (as file names), whether it fetched files, and how it ended.
pub struct DeliveryRun {
    pub texts: Seq<Seq<char>>,
    pub uploads: Seq<Seq<Seq<char>>>,
    pub fetched: bool,
    pub outcome: Option<DeliveryOutcome>,
}

/// The outcome a step ends the delivery with, if it ends it.
pub open spec fn ending(s: StepView) -> Option<DeliveryOutcome> {
    match s {
        StepView::Notify { outcome, .. } => Some(outcome),
        StepView::Finish { outcome } => Some(outcome),
        _ => None,
    }
}

/// The delivery of `posts` followed step by step, where `names` are the
/// fetched file names (`None`: a fetch failed) and the two flags say whether
/// the attachment send and the link send went out.
pub open spec fn delivery_run(
    posts: Seq<PostView>,
    names: Option<Seq<Seq<char>>>,
    upload_sent: bool,
    link_sent: bool,
) -> DeliveryRun {
    match start_step(posts) {
        StepView::Notify { text, outcome } => DeliveryRun {
            texts: seq![text],
            uploads: seq![],
            fetched: false,
            outcome: Some(outcome),
        },
        _ => match fetched_step(names) {
            StepView::Upload { filenames } => match uploaded_step(posts, upload_sent) {
                StepView::SendLink { text } => DeliveryRun {
                    texts: seq![text],
                    uploads: seq![filenames],
                    fetched: true,
                    outcome: ending(linked_step(link_sent)),
                },
                s => DeliveryRun {
                    texts: seq![],
                    uploads: seq![filenames],
                    fetched: true,
                    outcome: ending(s),
                },
            },
            s => DeliveryRun { texts: seq![], uploads: seq![], fetched: true, outcome: ending(s) },
        },
    }
}

/// When the attachments of a non-empty result go out, the delivery ends as
/// `AttachmentsSent` after sending that one batch and no text at all (so no
/// link).
pub proof fn lemma_attachments_sent(
    posts: Seq<PostView>,
    names: Seq<Seq<char>>,
    link_sent: bool,
)
    requires
        posts.len() >= 1,
    ensures
        delivery_run(posts, Some(names), true, link_sent) == (DeliveryRun {
            texts: seq![],
            uploads: seq![names.map_values(|x: Seq<char>| spoiler_name(x))],
            fetched: true,
            outcome: Some(DeliveryOutcome::AttachmentsSent),
        }),
{
}

/// When the attachments of a non-empty result cannot be sent, exactly one
/// text goes out: the spoiler-wrapped permalink of the first post; the
/// delivery ends as `LinkSent` if that send succeeds, else as a send failure.
pub proof fn lemma_link_fallback(
    posts: Seq<PostView>,
    names: Seq<Seq<char>>,
    link_sent: bool,
)
    requires
        posts.len() >= 1,
    ensures
        delivery_run(posts, Some(names), false, link_sent).texts == seq![link_text(posts[0].id)],
        delivery_run(posts, Some(names), false, link_sent).outcome == Some(
            if link_sent {
                DeliveryOutcome::LinkSent
            } else {
                DeliveryOutcome::Failed(DeliveryFailure::Send)
            },
        ),
{
}

/// An empty result sends exactly one text, "No post found!", fetches and
/// uploads nothing, and ends as `Empty`, whatever the later events would be.
pub proof fn lemma_empty_result(
    names: Option<Seq<Seq<char>>>,
    upload_sent: bool,
    link_sent: bool,
)
    ensures
        delivery_run(Seq::empty(), names, upload_sent, link_sent) == (DeliveryRun {
            texts: seq![no_post_text()],
            uploads: seq![],
            fetched: false,
            outcome: Some(DeliveryOutcome::Empty),
        }),
{
}

/// When a file of a non-empty result cannot be fetched, nothing at all is
/// sent and the delivery ends as a fetch failure.
pub proof fn lemma_fetch_failure(posts: Seq<PostView>, upload_sent: bool, link_sent: bool)
    requires
        posts.len() >= 1,
    ensures
        delivery_run(posts, None, upload_sent, link_sent) == (DeliveryRun {
            texts: seq![],
            uploads: seq![],
            fetched: true,
            outcome: Some(DeliveryOutcome::Failed(DeliveryFailure::AttachmentFetch)),
        }),
{
}

} // verus!

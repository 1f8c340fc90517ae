use vstd::prelude::*;
use crate::query::{
    build_query, clamp_quantity, clamped, query_tags, requested_quantity, SearchQuery,
};
use crate::text::{has_prefix, same_text, starts_with, views};

verus! {

/// What an incoming chat message asks of the bot.
pub enum Command {
    /// Reply with this text and do nothing else.
    Reply(String),
    /// Run this search, its quantity already capped, and deliver the result.
    Search(SearchQuery),
    /// Not a command.
    Ignore,
}

/// Whether a message is the ping command.
pub open spec fn is_ping(content: Seq<char>) -> bool {
    content == "!ping"@
}

/// Whether a message is a search command.
pub open spec fn is_search(content: Seq<char>) -> bool {
    starts_with(content, "!e6"@)
}

/// Reads what a chat message asks for.
pub fn classify(content: &str) -> (r: Command)
    ensures
        is_ping(content@) <==> r is Reply,
        r is Reply ==> r->Reply_0@ == "Pong!"@,
        !is_ping(content@) && is_search(content@) <==> r is Search,
        r is Search ==> views(r->Search_0.tags@) == query_tags(content@)
            && r->Search_0.quantity == clamped(requested_quantity(content@)),
        r is Ignore <==> !is_ping(content@) && !is_search(content@),
{
    if same_text(content, "!ping") {
        Command::Reply(String::from_str("Pong!"))
    } else if has_prefix(content, "!e6") {
        let query = build_query(content);
        let quantity = clamp_quantity(query.quantity);
        Command::Search(SearchQuery { tags: query.tags, quantity })
    } else {
        Command::Ignore
    }
}

} // verus!

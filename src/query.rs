use vstd::prelude::*;
use crate::text::{
    contains, first_word, first_word_of, has_prefix, has_substring, parse_u32, parse_u32_of,
    split_on, split_on_char, starts_with, views, lemma_split_on_len,
};

verus! {

/// The largest number of posts one command may ask for.
pub const MAX_QUANTITY: u32 = 10;

/// The quantity used when the command names none that can be read.
pub const DEFAULT_QUANTITY: u32 = 1;

/// What a search command asks for: the tags, the user's tags followed by one
/// rating filter, and the quantity as given (not yet capped).
pub struct SearchQuery {
    pub tags: Vec<String>,
    pub quantity: u32,
}

/// The text of a search command after its leading `!e6 `.
pub open spec fn command_body(raw: Seq<char>) -> Seq<char> {
    if starts_with(raw, "!e6 "@) {
        raw.subrange("!e6 "@.len() as int, raw.len() as int)
    } else {
        raw
    }
}

/// The user's tags: the comma-separated pieces of the body, the last one cut
/// down to its first word (which drops a quantity or flag written after it).
pub open spec fn user_tags(body: Seq<char>) -> Seq<Seq<char>> {
    let pieces = split_on(body, ',');
    pieces.update(pieces.len() - 1, first_word(pieces.last()))
}

/// The rating filter: safe content when `--safe` occurs anywhere in the
/// command, explicit content otherwise.
pub open spec fn rating_tag(raw: Seq<char>) -> Seq<char> {
    if contains(raw, "--safe"@) {
        "rating:safe"@
    } else {
        "rating:explicit"@
    }
}

/// All tags of a command: the user's tags, then the rating filter.
pub open spec fn query_tags(raw: Seq<char>) -> Seq<Seq<char>> {
    user_tags(command_body(raw)).push(rating_tag(raw))
}

/// The token that may give the quantity: the second piece of the body split
/// at single spaces, when there is one.
pub open spec fn quantity_token(body: Seq<char>) -> Option<Seq<char>> {
    let words = split_on(body, ' ');
    if words.len() > 1 {
        Some(words[1])
    } else {
        None
    }
}

/// The quantity a command asks for: its quantity token read as a `u32`, or
/// `DEFAULT_QUANTITY` when the token is absent or not a number.
pub open spec fn requested_quantity(raw: Seq<char>) -> u32 {
    match quantity_token(command_body(raw)) {
        Some(t) => match parse_u32(t) {
            Some(q) => q,
            None => DEFAULT_QUANTITY,
        },
        None => DEFAULT_QUANTITY,
    }
}

/// The quantity actually requested: the given one, capped at `MAX_QUANTITY`.
pub open spec fn clamped(quantity: u32) -> u32 {
    if quantity <= MAX_QUANTITY {
        quantity
    } else {
        MAX_QUANTITY
    }
}

/// Caps a requested quantity at `MAX_QUANTITY`.
pub fn clamp_quantity(quantity: u32) -> (r: u32)
    ensures
        r == clamped(quantity),
{
    if quantity <= MAX_QUANTITY {
        quantity
    } else {
        MAX_QUANTITY
    }
}

/// Turns the text of a search command into its tags and quantity.
pub fn build_query(raw: &str) -> (r: SearchQuery)
    ensures
        views(r.tags@) == query_tags(raw@),
        r.tags@.last()@ == rating_tag(raw@),
        r.quantity == requested_quantity(raw@),
{
    let n = raw.unicode_len();
    let prefix = "!e6 ";
    proof {
        reveal_strlit("!e6 ");
    }
    let body = if has_prefix(raw, prefix) {
        raw.substring_char(4, n)
    } else {
        raw
    };
    assert(body@ == command_body(raw@));
    let mut tags = split_on_char(body, ',');
    proof {
        lemma_split_on_len(body@, ',');
    }
    let ghost pieces = tags@;
    let last_piece = tags.pop().unwrap();
    assert(pieces.last()@ == split_on(body@, ',').last());
    let last = first_word_of(last_piece.as_str());
    tags.push(last);
    assert(views(tags@) =~= user_tags(body@));
    let rating = if has_substring(raw, "--safe") {
        String::from_str("rating:safe")
    } else {
        String::from_str("rating:explicit")
    };
    let ghost user = tags@;
    tags.push(rating);
    assert(views(tags@) =~= views(user).push(rating@));

    let words = split_on_char(body, ' ');
    let mut quantity: u32 = DEFAULT_QUANTITY;
    if words.len() > 1 {
        assert(views(words@)[1] == words@[1]@);
        match parse_u32_of(words[1].as_str()) {
            Some(q) => {
                quantity = q;
            },
            None => {},
        }
    }
    SearchQuery { tags, quantity }
}

/// A command whose body has N comma-separated pieces (always N >= 1) gives
/// exactly N + 1 tags: the pieces in order, the last one cut down to its first
/// word, and then one rating filter.
pub proof fn lemma_tag_count(raw: Seq<char>)
    ensures
        ({
            let pieces = split_on(command_body(raw), ',');
            let tags = query_tags(raw);
            &&& pieces.len() >= 1
            &&& tags.len() == pieces.len() + 1
            &&& forall|i: int| 0 <= i < pieces.len() - 1 ==> tags[i] == pieces[i]
            &&& tags[pieces.len() - 1] == first_word(pieces.last())
            &&& tags[pieces.len() as int] == rating_tag(raw)
        }),
{
    lemma_split_on_len(command_body(raw), ',');
}

/// The capped quantity never exceeds `MAX_QUANTITY` and is at least one
/// (unless the quantity token itself reads as zero); a command whose quantity
/// token is absent or not a number asks for `DEFAULT_QUANTITY`.
pub proof fn lemma_quantity_bounds(raw: Seq<char>)
    requires
        quantity_token(command_body(raw)) is None || parse_u32(
            quantity_token(command_body(raw))->0,
        ) != Some(0u32),
    ensures
        1 <= clamped(requested_quantity(raw)) <= MAX_QUANTITY,
        quantity_token(command_body(raw)) is None || parse_u32(
            quantity_token(command_body(raw))->0,
        ) is None ==> requested_quantity(raw) == DEFAULT_QUANTITY,
{
}

} // verus!

use vstd::prelude::*;
use vstd::string::StringSliceAdditionalSpecFns;
use vstd::utf8::{encode_utf8, is_ascii_chars, is_ascii_chars_encode_utf8};
use base64::Engine;
use crate::text::{decimal, push_decimal, views};

verus! {

/// The tags joined with `+`, the form the search endpoint reads.
pub open spec fn joined_tags(tags: Seq<Seq<char>>) -> Seq<char>
    decreases tags.len(),
{
    if tags.len() == 0 {
        Seq::empty()
    } else if tags.len() == 1 {
        tags[0]
    } else {
        joined_tags(tags.drop_last()) + seq!['+'] + tags.last()
    }
}

/// The search request: at most `quantity` posts, in random order, never
/// tagged `female` or `intersex`, matching all of `tags`.
pub open spec fn search_url_of(tags: Seq<Seq<char>>, quantity: u32) -> Seq<char> {
    "https://e621.net/posts.json?limit="@ + decimal(quantity as nat)
        + "&tags=order:random+-female+-intersex+"@ + joined_tags(tags)
}

/// Joins the tags with `+`.
pub fn join_tags(tags: &Vec<String>) -> (r: String)
    ensures
        r@ == joined_tags(views(tags@)),
{
    let mut out = String::new();
    let mut i: usize = 0;
    proof {
        assert(views(tags@).subrange(0, 0) =~= Seq::<Seq<char>>::empty());
    }
    while i < tags.len()
        invariant
            i <= tags@.len(),
            out@ == joined_tags(views(tags@).subrange(0, i as int)),
        decreases tags.len() - i,
    {
        let ghost done = views(tags@).subrange(0, i as int);
        let ghost next = views(tags@).subrange(0, i + 1);
        assert(next.drop_last() =~= done);
        assert(next.last() == tags@[i as int]@);
        let ghost prev = out@;
        proof {
            reveal_strlit("+");
        }
        assert("+"@ =~= seq!['+']);
        if i > 0 {
            out.append("+");
        }
        out.append(tags[i].as_str());
        proof {
            if i == 0 {
                assert(out@ =~= next[0]);
            } else {
                assert(prev == joined_tags(done));
                assert(next.len() > 1);
                assert(out@ =~= prev + seq!['+'] + next.last());
            }
        }
        i = i + 1;
    }
    assert(views(tags@).subrange(0, tags@.len() as int) =~= views(tags@));
    out
}

/// Builds the search request for `tags` and `quantity`.
pub fn search_url(tags: &Vec<String>, quantity: u32) -> (r: String)
    ensures
        r@ == search_url_of(views(tags@), quantity),
{
    let mut url = String::from_str("https://e621.net/posts.json?limit=");
    push_decimal(&mut url, quantity as u64);
    url.append("&tags=order:random+-female+-intersex+");
    let joined = join_tags(tags);
    url.append(joined.as_str());
    url
}

/// The user agent the search requests carry.
pub fn user_agent() -> (r: &'static str)
    ensures
        r@ == "e6kiro / made by Kalka"@,
{
    "e6kiro / made by Kalka"
}

/// The standard padded base64 text of `bytes`.
pub uninterp spec fn standard_base64(bytes: Seq<u8>) -> Seq<char>;

/// Relies on `base64::engine::general_purpose::STANDARD.encode`: the padded
/// standard-alphabet encoding, four characters for each started group of three
/// bytes; it panics only when that length overflows `usize`.
#[verifier::external_body]
fn encode_base64(bytes: &[u8]) -> (r: String)
    requires
        bytes@.len() <= usize::MAX / 2,
    ensures
        r@ == standard_base64(bytes@),
        r@.len() == 4 * ((bytes@.len() + 2) / 3),
{
    base64::engine::general_purpose::STANDARD.encode(bytes)
}

/// The Basic credentials for the search endpoint: the UTF-8 text
/// `kalka:<token>`.
pub open spec fn credentials(token: Seq<char>) -> Seq<u8> {
    encode_utf8("kalka:"@) + encode_utf8(token)
}

/// The `Authorization` header value: `Basic ` and the base64 credentials.
pub open spec fn authorization_of(token: Seq<char>) -> Seq<char> {
    "Basic "@ + standard_base64(credentials(token))
}

/// Builds the `Authorization` header value for the search token.
pub fn authorization_value(token: &str) -> (r: String)
    requires
        token.len() <= usize::MAX / 4,
    ensures
        r@ == authorization_of(token@),
{
    let mut bytes = "kalka:".as_bytes_vec();
    let tail = token.as_bytes();
    let tail_len = tail.len();
    assert(tail@.len() == tail_len);
    let ghost head = bytes@;
    let mut i: usize = 0;
    proof {
        reveal_strlit("kalka:");
        assert(is_ascii_chars("kalka:"@));
        is_ascii_chars_encode_utf8("kalka:"@);
    }
    while i < tail.len()
        invariant
            i <= tail@.len(),
            tail@ == token.spec_bytes(),
            head == encode_utf8("kalka:"@),
            head.len() == 6,
            bytes@ == head + tail@.subrange(0, i as int),
        decreases tail.len() - i,
    {
        bytes.push(tail[i]);
        assert(bytes@ =~= head + tail@.subrange(0, i + 1));
        i = i + 1;
    }
    assert(tail@.subrange(0, tail@.len() as int) =~= tail@);
    let encoded = encode_base64(bytes.as_slice());
    let mut value = String::from_str("Basic ");
    value.append(encoded.as_str());
    value
}

} // verus!

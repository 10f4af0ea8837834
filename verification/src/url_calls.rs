//! The calls into the url and serde_urlencoded crates. How an address is
//! parsed and how form data is written is not modelled here: each result
//! has a name, and the contracts of the callers are stated over those names.
use vstd::prelude::*;

verus! {

#[verifier::external_type_specification]
#[verifier::external_body]
pub struct ExUrlParseError(url::ParseError);

#[verifier::external_type_specification]
#[verifier::external_body]
pub struct ExFormError(serde_urlencoded::de::Error);

#[verifier::external_type_specification]
#[verifier::external_body]
pub struct ExFormWriteError(serde_urlencoded::ser::Error);

/// The form data that writes `pairs` in their order, as the serializer of
/// structured values writes it; `None` where it refuses them.
pub uninterp spec fn form_of(pairs: Seq<(Seq<char>, Seq<char>)>) -> Option<Seq<char>>;

/// The names and values that `text` holds as form data, in the order in
/// which they stand; `None` where it cannot be read as such.
pub uninterp spec fn form_pairs(text: Seq<char>) -> Option<Seq<(Seq<char>, Seq<char>)>>;

/// The form data that writes `pairs`, in their order.
pub uninterp spec fn form_text(pairs: Seq<(Seq<char>, Seq<char>)>) -> Seq<char>;

/// The names and values of the query of `address`, in the order in which
/// they stand; `None` where `address` is no absolute address.
pub uninterp spec fn address_query(address: Seq<char>) -> Option<Seq<(Seq<char>, Seq<char>)>>;

/// `address` as the parser writes it back; `None` where it is no absolute
/// address.
pub uninterp spec fn address_text(address: Seq<char>) -> Option<Seq<char>>;

/// `address` with `query` in place of its own query, as the parser writes
/// it; `None` where `address` is no absolute address.
pub uninterp spec fn address_with_query(address: Seq<char>, query: Seq<char>) -> Option<Seq<char>>;

/// Above this many characters an address or a query is not handed to the
/// parser, which counts positions in 32 bits.
pub const ADDRESS_LIMIT: usize = 0x0400_0000;

/// The text of each pair of a list.
pub open spec fn pairs_view(pairs: Seq<(String, String)>) -> Seq<(Seq<char>, Seq<char>)> {
    Seq::new(pairs.len(), |i: int| (pairs[i].0@, pairs[i].1@))
}

/// The text of a list of pairs that may have failed.
pub open spec fn parsed_pairs_view<E>(pairs: Result<Vec<(String, String)>, E>) -> Option<
    Seq<(Seq<char>, Seq<char>)>,
> {
    match pairs {
        Ok(pairs) => Some(pairs_view(pairs@)),
        Err(_) => None,
    }
}

/// The text of a string that may have failed.
pub open spec fn parsed_text_view<E>(text: Result<String, E>) -> Option<Seq<char>> {
    match text {
        Ok(text) => Some(text@),
        Err(_) => None,
    }
}

/// `serde_urlencoded::from_str`, reading a list of pairs of strings. The
/// result is the one that `form_pairs` names.
#[verifier::external_body]
pub(crate) fn parse_form(text: &str) -> (pairs: Result<Vec<(String, String)>, serde_urlencoded::de::Error>)
    ensures
        parsed_pairs_view(pairs) == form_pairs(text@),
{
    serde_urlencoded::from_str::<Vec<(String, String)>>(text)
}

/// `serde_urlencoded::to_string`, writing a list of pairs of strings. The
/// result is the one that `form_of` names.
#[verifier::external_body]
pub(crate) fn to_form(pairs: &Vec<(String, String)>) -> (text: Result<String, serde_urlencoded::ser::Error>)
    ensures
        parsed_text_view(text) == form_of(pairs_view(pairs@)),
{
    serde_urlencoded::to_string(pairs)
}

/// `form_urlencoded::Serializer` of the url crate: a new one, `extend_pairs`
/// with the pairs in their order, then `finish`. The result is the one that
/// `form_text` names.
#[verifier::external_body]
pub(crate) fn write_form(pairs: &Vec<(String, String)>) -> (text: String)
    ensures
        text@ == form_text(pairs_view(pairs@)),
{
    url::form_urlencoded::Serializer::new(String::new()).extend_pairs(pairs.iter()).finish()
}

/// `Url::parse` and `Url::query_pairs` of the url crate, each name and value
/// handed out as an owned string. The result is the one that `address_query`
/// names.
#[verifier::external_body]
pub(crate) fn query_of(address: &str) -> (pairs: Result<Vec<(String, String)>, url::ParseError>)
    ensures
        parsed_pairs_view(pairs) == address_query(address@),
{
    let parsed = url::Url::parse(address)?;
    Ok(parsed.query_pairs().map(|(name, value)| (name.into_owned(), value.into_owned())).collect())
}

/// `Url::parse` of the url crate, and the address written back as its
/// `Display` does. The result is the one that `address_text` names.
#[verifier::external_body]
pub(crate) fn normalize(address: &str) -> (text: Result<String, url::ParseError>)
    ensures
        parsed_text_view(text) == address_text(address@),
{
    Ok(url::Url::parse(address)?.to_string())
}

/// `Url::parse` and `Url::set_query` of the url crate, and the address
/// written back as its `Display` does. The result is the one that
/// `address_with_query` names. The lengths are bounded because `set_query`
/// stops the program on an address that does not fit 32 bits.
#[verifier::external_body]
pub(crate) fn replace_query(address: &str, query: &str) -> (text: Result<String, url::ParseError>)
    requires
        address@.len() <= ADDRESS_LIMIT,
        query@.len() <= ADDRESS_LIMIT,
    ensures
        parsed_text_view(text) == address_with_query(address@, query@),
{
    let mut parsed = url::Url::parse(address)?;
    parsed.set_query(Some(query));
    Ok(parsed.to_string())
}

} // verus!

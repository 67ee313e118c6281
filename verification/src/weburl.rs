//! URLs, taken apart and put together by the `url` crate.
use vstd::prelude::*;

verus! {

/// A URL in its normal form, with the parts that decisions depend on.
#[derive(Debug, PartialEq, Eq)]
pub struct WebUrl {
    pub text: String,
    pub scheme: String,
    pub path: String,
    pub has_query: bool,
    pub has_fragment: bool,
}

/// The mathematical value of a URL.
pub struct UrlView {
    pub text: Seq<char>,
    pub scheme: Seq<char>,
    pub path: Seq<char>,
    pub has_query: bool,
    pub has_fragment: bool,
}

impl View for WebUrl {
    type V = UrlView;

    open spec fn view(&self) -> UrlView {
        UrlView {
            text: self.text@,
            scheme: self.scheme@,
            path: self.path@,
            has_query: self.has_query,
            has_fragment: self.has_fragment,
        }
    }
}

impl Clone for WebUrl {
    fn clone(&self) -> (copy: Self)
        ensures
            copy@ == self@,
    {
        WebUrl {
            text: self.text.clone(),
            scheme: self.scheme.clone(),
            path: self.path.clone(),
            has_query: self.has_query,
            has_fragment: self.has_fragment,
        }
    }
}

/// What `Url::parse` reads from a text: the URL, or the message that says why the text is none.
pub uninterp spec fn url_of(text: Seq<char>) -> Result<UrlView, Seq<char>>;

/// What `Url::join` gives for the URL that a text is and a relative reference, or the message
/// that says why there is none.
pub uninterp spec fn joined_url(base: Seq<char>, reference: Seq<char>) -> Result<
    UrlView,
    Seq<char>,
>;

/// The URL that a text is with pairs added to its query, encoded as the `url` crate does; nothing
/// where the text is no URL.
pub uninterp spec fn url_with_pairs(text: Seq<char>, pairs: Seq<(Seq<char>, Seq<char>)>) -> Option<
    Seq<char>,
>;

/// Outside function: `Url::parse`. The URL and the message of a refusal depend on the text alone.
#[verifier::external_body]
pub(crate) fn parse(text: &str) -> (r: Result<WebUrl, String>)
    ensures
        match r {
            Ok(url) => url_of(text@) == Ok::<UrlView, Seq<char>>(url@),
            Err(message) => url_of(text@) == Err::<UrlView, Seq<char>>(message@),
        },
{
    let url = url::Url::parse(text).map_err(|error| error.to_string())?;
    Ok(
        WebUrl {
            text: url.as_str().to_owned(),
            scheme: url.scheme().to_owned(),
            path: url.path().to_owned(),
            has_query: url.query().is_some(),
            has_fragment: url.fragment().is_some(),
        },
    )
}

/// Outside function: `Url::join`, on the URL that a text is. The URL and the message of a refusal
/// depend on the two texts alone.
#[verifier::external_body]
pub(crate) fn join(base: &str, reference: &str) -> (r: Result<WebUrl, String>)
    ensures
        match r {
            Ok(url) => joined_url(base@, reference@) == Ok::<UrlView, Seq<char>>(url@),
            Err(message) => joined_url(base@, reference@) == Err::<UrlView, Seq<char>>(message@),
        },
{
    let base = url::Url::parse(base).map_err(|error| error.to_string())?;
    let url = base.join(reference).map_err(|error| error.to_string())?;
    Ok(
        WebUrl {
            text: url.as_str().to_owned(),
            scheme: url.scheme().to_owned(),
            path: url.path().to_owned(),
            has_query: url.query().is_some(),
            has_fragment: url.fragment().is_some(),
        },
    )
}

/// One name and value of a query.
#[derive(Debug, PartialEq, Eq)]
pub struct QueryPair {
    pub name: &'static str,
    pub value: String,
}

/// The values of a run of pairs.
pub open spec fn pair_views(pairs: Seq<QueryPair>) -> Seq<(Seq<char>, Seq<char>)> {
    Seq::new(pairs.len(), |i: int| (pairs[i].name@, pairs[i].value@))
}

/// Outside function: `extend_pairs` on `Url::query_pairs_mut`, on the URL that a text is. The
/// result depends on the text and the pairs alone, and there is one exactly where the text is a
/// URL.
#[verifier::external_body]
pub(crate) fn extend_pairs(text: &str, pairs: &Vec<QueryPair>) -> (r: Option<String>)
    ensures
        match r {
            Some(url) => url_with_pairs(text@, pair_views(pairs@)) == Some(url@),
            None => url_with_pairs(text@, pair_views(pairs@)) is None,
        },
        r is Some <==> url_of(text@) is Ok,
{
    let mut url = url::Url::parse(text).ok()?;
    let mut query = url.query_pairs_mut();
    query.extend_pairs(pairs.iter().map(|pair| (pair.name, pair.value.as_str())));
    drop(query);
    Some(url.into())
}

/// The URL that a text is with a query of just these pairs, encoded as the `url` crate does;
/// nothing where the text is no URL.
pub uninterp spec fn url_with_query(text: Seq<char>, pairs: Seq<(Seq<char>, Seq<char>)>) -> Option<
    Seq<char>,
>;

/// Outside function: `clear` and then `extend_pairs` on `Url::query_pairs_mut`, on the URL that a
/// text is. The result depends on the text and the pairs alone, and there is one exactly where the
/// text is a URL.
#[verifier::external_body]
pub(crate) fn replace_pairs(text: &str, pairs: &Vec<QueryPair>) -> (r: Option<String>)
    ensures
        match r {
            Some(url) => url_with_query(text@, pair_views(pairs@)) == Some(url@),
            None => url_with_query(text@, pair_views(pairs@)) is None,
        },
        r is Some <==> url_of(text@) is Ok,
{
    let mut url = url::Url::parse(text).ok()?;
    let mut query = url.query_pairs_mut();
    query.clear().extend_pairs(pairs.iter().map(|pair| (pair.name, pair.value.as_str())));
    drop(query);
    Some(url.into())
}

} // verus!

//! `/buscarengoogle`: the request sent to the search service and the
//! messages made from its answer.

use vstd::prelude::*;
use vstd::string::*;

verus! {

/// One organic search result, as far as the bot reads it: the `title`,
/// `link` and `snippet` fields, each present when it is a JSON string.
#[derive(Debug, Clone, PartialEq, Eq)]
pub struct OrganicResult {
    pub title: Option<String>,
    pub link: Option<String>,
    pub snippet: Option<String>,
}

/// What the bot reads of a search answer.
#[derive(Debug, Clone, PartialEq, Eq)]
pub struct SearchResults {
    /// `ai_overview.snippet`, when it is a JSON array: for each element,
    /// its `snippet` field when that is a JSON string.
    pub ai_overview: Option<Vec<Option<String>>>,
    /// `organic_results`, when it is a JSON array.
    pub organic_results: Option<Vec<OrganicResult>>,
}

/// The messages answering a search, in the order they are sent, and
/// whether a failed delivery ends the command with an error (it does not
/// for the AI overview answer, whose delivery errors are ignored).
#[derive(Debug, Clone, PartialEq, Eq)]
pub struct SearchReply {
    pub messages: Vec<String>,
    pub must_deliver: bool,
}

/// The view of a list of messages.
pub open spec fn texts(ms: Seq<String>) -> Seq<Seq<char>> {
    ms.map_values(|m: String| m@)
}

/// The view of an optional string, or `default` when it is absent.
pub open spec fn or_default(s: Option<String>, default: Seq<char>) -> Seq<char> {
    match s {
        Some(t) => t@,
        None => default,
    }
}

/// The message made of one organic result.
pub open spec fn organic_message(r: OrganicResult) -> Seq<char> {
    or_default(r.link, ""@) + "\n\n"@ + or_default(r.title, "Sin título"@) + "\n\n"@
        + or_default(r.snippet, ""@) + "\n\n"@
}

/// The messages answering a search whose answer is `r`.
pub open spec fn search_messages(r: SearchResults) -> Seq<Seq<char>> {
    match r.ai_overview {
        Some(refs) => if refs@.len() > 0 {
            seq![or_default(refs@[0], "No se encontró una respuesta de la IA."@)]
        } else {
            seq!["No se encontraron referencias."@]
        },
        None => match r.organic_results {
            Some(results) => if results@.len() > 0 {
                seq!["🌐Resultados de la Busqueda\n\n"@, organic_message(results@[0])]
            } else {
                seq!["🌐Resultados de la Busqueda\n\n"@]
            },
            None => seq!["Google no proporcionó referencias de IA."@],
        },
    }
}

/// The parameters of a Google search for `query`: the API key, the engine
/// and the query, in that order.
pub fn search_options(api_key: &String, query: &String) -> (opts: Vec<(String, String)>)
    ensures
        opts@.map_values(|kv: (String, String)| (kv.0@, kv.1@)) == seq![
            ("api_key"@, api_key@),
            ("engine"@, "google"@),
            ("q"@, query@),
        ],
{
    let mut opts: Vec<(String, String)> = Vec::new();
    opts.push((String::from_str("api_key"), api_key.clone()));
    opts.push((String::from_str("engine"), String::from_str("google")));
    opts.push((String::from_str("q"), query.clone()));
    assert(opts@.map_values(|kv: (String, String)| (kv.0@, kv.1@)) =~= seq![
        ("api_key"@, api_key@),
        ("engine"@, "google"@),
        ("q"@, query@),
    ]);
    opts
}

fn text_or(s: &Option<String>, default: &str) -> (t: String)
    ensures
        t@ == or_default(*s, default@),
{
    match s {
        Some(t) => t.clone(),
        None => String::from_str(default),
    }
}

/// The message made of one organic result: link, title and snippet, each
/// followed by a blank line.
pub fn organic_result_message(r: &OrganicResult) -> (m: String)
    ensures
        m@ == organic_message(*r),
{
    let mut m = text_or(&r.link, "");
    m.append("\n\n");
    let title = text_or(&r.title, "Sin título");
    m.append(title.as_str());
    m.append("\n\n");
    let snippet = text_or(&r.snippet, "");
    m.append(snippet.as_str());
    m.append("\n\n");
    assert(m@ =~= organic_message(*r));
    m
}

/// The messages answering a search: the AI overview's first snippet when
/// the answer has an AI overview, else a heading and the first organic
/// result, else a message saying that nothing was found.
pub fn search_replies(r: &SearchResults) -> (reply: SearchReply)
    ensures
        texts(reply.messages@) == search_messages(*r),
        reply.must_deliver == (r.ai_overview is None),
{
    match &r.ai_overview {
        Some(refs) => {
            let mut messages: Vec<String> = Vec::new();
            if refs.len() > 0 {
                messages.push(text_or(&refs[0], "No se encontró una respuesta de la IA."));
            } else {
                messages.push(String::from_str("No se encontraron referencias."));
            }
            assert(texts(messages@) =~= search_messages(*r));
            SearchReply { messages, must_deliver: false }
        },
        None => match &r.organic_results {
            Some(results) => {
                let mut messages: Vec<String> = Vec::new();
                messages.push(String::from_str("🌐Resultados de la Busqueda\n\n"));
                if results.len() > 0 {
                    messages.push(organic_result_message(&results[0]));
                }
                assert(texts(messages@) =~= search_messages(*r));
                SearchReply { messages, must_deliver: true }
            },
            None => {
                let mut messages: Vec<String> = Vec::new();
                messages.push(String::from_str("Google no proporcionó referencias de IA."));
                assert(texts(messages@) =~= search_messages(*r));
                SearchReply { messages, must_deliver: true }
            },
        },
    }
}


/// A search is always answered with at least one message and at most
/// two, and no message is made of an organic result other than the first.
pub proof fn search_answers_with_first_result(r: SearchResults)
    ensures
        1 <= search_messages(r).len() <= 2,
        r.ai_overview is None && r.organic_results is Some && r.organic_results->0@.len() > 0
            ==> search_messages(r).last() == organic_message(r.organic_results->0@[0]),
{
}

} // verus!

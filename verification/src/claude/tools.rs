//! Host-side tools the agent loop can offer beside the plugin registry.

use vstd::prelude::*;
use super::api::Tool as ToolMetadata;
use super::api::spec_tool_name;
use super::schema::Schema;
use crate::strings::concat_str;
use crate::strings::str_eq;
use vstd::string::*;

verus! {

/// A capability the model may invoke: its declaration for the remote
/// model, and the callback that runs it.
pub trait Tool {
    /// The declaration this tool is announced by.
    spec fn spec_metadata(&self) -> ToolMetadata;

    /// The declaration this tool is announced by.
    fn metadata(&self) -> (r: &ToolMetadata)
        ensures
            *r == self.spec_metadata(),
    ;

    /// Run the tool on the given input.
    fn invoke(&mut self, params: &Vec<(String, String)>) -> Result<Option<String>, String>;
}

/// Whether a tool is announced under `name`.
pub open spec fn announces<T: Tool>(t: T, name: Seq<char>) -> bool {
    spec_tool_name(t.spec_metadata()) == name
}

/// Resolve `name` against the collection and run the matching tool.
/// Without a match the collection is untouched and the lookup fails with
/// its fixed message; with one, the first announcing tool alone is run on
/// the input, and every other entry stays as it was.  What the matching
/// tool returns is its own business.
pub fn invoke_tool<T: Tool>(
    collection: &mut Vec<T>,
    name: &str,
    input: &Vec<(String, String)>,
) -> (r: Result<Option<String>, String>)
    ensures
        final(collection)@.len() == old(collection)@.len(),
        (forall|i: int| 0 <= i < old(collection)@.len() ==> !announces(
            #[trigger] old(collection)@[i],
            name@,
        )) ==> final(collection)@ == old(collection)@ && (r matches Err(m) && m@
            == "No tool found!"@),
        (exists|i: int| 0 <= i < old(collection)@.len() && announces(
            #[trigger] old(collection)@[i],
            name@,
        )) ==> exists|i: int|
            0 <= i < old(collection)@.len() && announces(#[trigger] old(collection)@[i], name@)
                && (forall|j: int| 0 <= j < i ==> !announces(old(collection)@[j], name@)) && (
            forall|k: int|
                0 <= k < old(collection)@.len() && k != i ==> final(collection)@[k] == old(
                    collection,
                )@[k]),
{
    let mut i: usize = 0;
    let n = collection.len();
    while i < n
        invariant
            n == collection@.len(),
            collection@.len() == old(collection)@.len(),
            collection@ == old(collection)@,
            i <= n,
            forall|j: int| 0 <= j < i ==> !announces(#[trigger] old(collection)@[j], name@),
        decreases n - i,
    {
        let found = str_eq(collection[i].metadata().name(), name);
        if found {
            let ghost pre = collection@;
            let mut t = collection.remove(i);
            let r = t.invoke(input);
            collection.insert(i, t);
            proof {
                assert(announces(old(collection)@[i as int], name@));
                assert forall|k: int|
                    0 <= k < old(collection)@.len() && k != i implies final(collection)@[k]
                    == old(collection)@[k] by {
                    if k < i {
                        assert(collection@[k] == pre.remove(i as int).insert(
                            i as int,
                            collection@[i as int],
                        )[k]);
                    }
                }
            }
            return r;
        }
        i += 1;
    }
    Err("No tool found!".to_owned())
}

/// What the text extraction of an HTML document yields; relies on the
/// scraper crate, whose result is a function of the markup alone.
pub uninterp spec fn html_text_of(s: Seq<char>) -> Seq<char>;

/// Relies on `scraper::Html::parse_document` and `ElementRef::text`: the
/// concatenated text content of the document.
#[verifier::external_body]
fn html_text(html: &str) -> (r: String)
    ensures
        r@ == html_text_of(html@),
{
    let doc = scraper::Html::parse_document(html);
    doc.root_element().text().collect::<Vec<_>>().join("")
}

/// The displayed text of a fetched page: its extracted text, cut to the
/// first 1024 characters with a truncation marker when it runs past 1200.
pub fn page_text(html: &str) -> (r: String)
    ensures
        html_text_of(html@).len() > 1200 ==> r@ == html_text_of(html@).subrange(0, 1024)
            + " <truncated>"@,
        html_text_of(html@).len() <= 1200 ==> r@ == html_text_of(html@),
{
    let text = html_text(html);
    let n = text.as_str().unicode_len();
    if n > 1200 {
        let cut = text.as_str().substring_char(0, 1024);
        concat_str(cut.to_owned(), " <truncated>")
    } else {
        text
    }
}

/// Retrieves the textual representation of a webpage on request.
pub struct FetchTool(ToolMetadata);

impl FetchTool {
    /// The fetch tool, declared under the name `fetch_url` with a single
    /// required `url` property.
    pub fn new() -> (r: FetchTool)
        ensures
            spec_tool_name(r.spec_metadata()) == "fetch_url"@,
            r.spec_metadata() matches ToolMetadata::Custom {
                name,
                description,
                input_schema,
            } && name@ == "fetch_url"@ && description@
                == "Retrieve the textual representation of a given webpage.  This tool should only be used when you are explicitly asked to fetch a webpage."@
                && (input_schema matches Schema::Object { properties, required }
                && properties@.len() == 1 && properties@[0].0@ == "url"@ && (properties@[0].1
                matches Schema::String { description: d } && d@
                == "the full path to a website to retrieve, starting with http:// or https://"@)
                && required@.len() == 1 && required@[0]@ == "url"@),
    {
        FetchTool(
            ToolMetadata::Custom {
                name: "fetch_url".to_owned(),
                description:
                    "Retrieve the textual representation of a given webpage.  This tool should only be used when you are explicitly asked to fetch a webpage.".to_owned(),
                input_schema: Schema::object().with_property(
                    "url".to_owned(),
                    Schema::string(
                        "the full path to a website to retrieve, starting with http:// or https://".to_owned(),
                    ),
                    true,
                ),
            },
        )
    }
}

/// The first value under the given key, if any.
fn find_param(params: &Vec<(String, String)>, key: &str) -> (r: Option<String>)
    ensures
        r is Some <==> exists|i: int| 0 <= i < params@.len() && (#[trigger] params@[i].0@)
            == key@,
{
    let mut i: usize = 0;
    while i < params.len()
        invariant
            i <= params@.len(),
            forall|j: int| 0 <= j < i ==> (#[trigger] params@[j].0@) != key@,
        decreases params@.len() - i,
    {
        if str_eq(params[i].0.as_str(), key) {
            return Some(params[i].1.clone());
        }
        i += 1;
    }
    None
}

impl Tool for FetchTool {
    closed spec fn spec_metadata(&self) -> ToolMetadata {
        self.0
    }

    fn metadata(&self) -> (r: &ToolMetadata) {
        &self.0
    }

    /// Fetch the page the first `url` parameter names and hand back its
    /// text.  Without a `url` parameter the invocation fails with its
    /// fixed message before any request is made; with one, success and
    /// the failure message are the network's to decide.
    fn invoke(&mut self, params: &Vec<(String, String)>) -> (r: Result<Option<String>, String>)
        ensures
            (forall|i: int| 0 <= i < params@.len() ==> (#[trigger] params@[i].0@) != "url"@)
                ==> (r matches Err(m) && m@ == "No URL provided!"@),
            r is Ok ==> exists|i: int|
                0 <= i < params@.len() && (#[trigger] params@[i].0@) == "url"@,
    {
        let url = match find_param(params, "url") {
            Option::Some(u) => u,
            Option::None => {
                return Err("No URL provided!".to_owned());
            },
        };
        let headers: Vec<(String, String)> = Vec::new();
        let body = match crate::plugins::bindings::http_get(url.as_str(), &headers) {
            Result::Ok(b) => b,
            Result::Err(m) => {
                return Err(m);
            },
        };
        Ok(Some(page_text(body.as_str())))
    }
}

} // verus!

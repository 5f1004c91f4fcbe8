use salvo::http::StatusCode;
use vstd::prelude::*;
use vstd::string::StringExecFns;

use crate::status::internal_server_error;
use crate::status::status_number;

verus! {

/// The version of the client-side assets that every page names.
pub open spec fn asset_version() -> Seq<char> {
    "1.0.0"@
}

/// The page object that is sent to the client.
#[derive(Debug)]
pub struct Page<T> {
    pub component: String,
    pub props: T,
    pub url: String,
    pub version: String,
}

/// A component and its props, to be sent as a page.
#[derive(Debug)]
pub struct Inertia<T> {
    component: String,
    props: T,
}

/// The form in which a page is sent.
#[derive(Clone, Copy, Debug, PartialEq, Eq, Structural)]
pub enum PageFormat {
    /// The page object alone, as JSON: the client is already running.
    Json,
    /// The page object inside the HTML shell: a first visit.
    Html,
}

/// What is sent for a first visit.
#[derive(Debug)]
pub enum ShellReply {
    /// The shell as the template engine rendered it.
    Html(String),
    /// The template engine failed: its words, with the status to send them under.
    Failure { status: StatusCode, body: String },
}

impl<T> Inertia<T> {
    /// A page of `component` with `props`.
    pub fn new(component: String, props: T) -> (inertia: Inertia<T>)
        ensures
            inertia.component() == component,
            inertia.props() == props,
    {
        Inertia { component, props }
    }

    /// The name of the component.
    pub closed spec fn component(&self) -> String {
        self.component
    }

    /// The props of the component.
    pub closed spec fn props(&self) -> T {
        self.props
    }

    /// The page object for a request of `path_and_query`; a request without
    /// one is a request of the root.
    pub fn into_page(self, path_and_query: Option<&str>) -> (page: Page<T>)
        ensures
            page.component == self.component(),
            page.props == self.props(),
            page.url@ == match path_and_query {
                Some(visited) => visited@,
                None => "/"@,
            },
            page.version@ == asset_version(),
    {
        let url = match path_and_query {
            Some(visited) => String::from_str(visited),
            None => String::from_str("/"),
        };
        Page { component: self.component, props: self.props, url, version: String::from_str("1.0.0") }
    }
}

/// The form in which a page is sent: JSON to a client that announces
/// itself, the HTML shell to everyone else.
pub fn page_format(announced: bool) -> (format: PageFormat)
    ensures
        format == if announced {
            PageFormat::Json
        } else {
            PageFormat::Html
        },
{
    if announced {
        PageFormat::Json
    } else {
        PageFormat::Html
    }
}

/// The words that report a failure of the template engine.
pub open spec fn rendering_failure(words: Seq<char>) -> Seq<char> {
    "Template rendering error: "@ + words
}

/// What is sent for a first visit, given what the template engine made of
/// the shell: the HTML, or its failure under the server-error status 500.
pub fn shell_reply(rendered: Result<String, String>) -> (reply: ShellReply)
    ensures
        match rendered {
            Ok(html) => reply == ShellReply::Html(html),
            Err(words) => reply matches ShellReply::Failure { status, body } && status_number(status)
                == 500 && body@ == rendering_failure(words@),
        },
{
    match rendered {
        Ok(html) => ShellReply::Html(html),
        Err(words) => ShellReply::Failure {
            status: internal_server_error(),
            body: String::from_str("Template rendering error: ").concat(words.as_str()),
        },
    }
}

} // verus!

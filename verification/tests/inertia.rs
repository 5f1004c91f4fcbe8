use salvo::http::StatusCode;
use valipower::inertia::page_format;
use valipower::inertia::shell_reply;
use valipower::inertia::Inertia;
use valipower::inertia::PageFormat;
use valipower::inertia::ShellReply;

#[test]
fn a_page_names_its_component_props_url_and_version() {
    let page = Inertia::new("Users/Show".to_string(), 7u32).into_page(Some("/users/7?tab=posts"));
    assert_eq!(page.component, "Users/Show");
    assert_eq!(page.props, 7);
    assert_eq!(page.url, "/users/7?tab=posts");
    assert_eq!(page.version, "1.0.0");
}

#[test]
fn a_request_without_path_is_a_request_of_the_root() {
    let page = Inertia::new("hello".to_string(), ()).into_page(None);
    assert_eq!(page.component, "hello");
    assert_eq!(page.url, "/");
    assert_eq!(page.version, "1.0.0");
}

#[test]
fn an_announced_client_gets_json_and_a_first_visit_html() {
    assert_eq!(page_format(true), PageFormat::Json);
    assert_eq!(page_format(false), PageFormat::Html);
}

#[test]
fn a_rendered_shell_is_sent_as_it_is() {
    match shell_reply(Ok("<html></html>".to_string())) {
        ShellReply::Html(html) => assert_eq!(html, "<html></html>"),
        other => panic!("not html: {:?}", other),
    }
}

#[test]
fn a_failed_rendering_is_a_server_error() {
    match shell_reply(Err("Template 'app.html.tera' not found".to_string())) {
        ShellReply::Failure { status, body } => {
            assert_eq!(status, StatusCode::INTERNAL_SERVER_ERROR);
            assert_eq!(status.as_u16(), 500);
            assert_eq!(body, "Template rendering error: Template 'app.html.tera' not found");
        }
        other => panic!("not a failure: {:?}", other),
    }
}

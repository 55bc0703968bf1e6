use alloy::config::MarkdownEngine;
use alloy::links::LinkIndex;
use alloy::preview_worker::{
    Arrival, Drain, RenderRequest, WorkerEngines, WorkerExtensions, assemble_result,
    drain_to_latest, error_text,
};
use alloy::style::{Color, Text};

fn default_extensions() -> WorkerExtensions {
    WorkerExtensions { gfm: true, ..Default::default() }
}

fn req(revision: u64) -> RenderRequest {
    RenderRequest {
        revision,
        markdown: format!("# Revision {revision}\n\nSome content."),
        col_width: 80,
    }
}

/// Holds a first request, takes newer ones as long as they arrive, and returns what is rendered.
fn drained(first: RenderRequest, newer: Vec<RenderRequest>, last: Arrival) -> RenderRequest {
    let mut current = first;
    for request in newer {
        match drain_to_latest(current, Arrival::Newer(request)) {
            Drain::Wait(held) => current = held,
            Drain::Render(_) => panic!("more requests may come"),
        }
    }
    match drain_to_latest(current, last) {
        Drain::Render(request) => request,
        Drain::Wait(_) => panic!("the window has passed"),
    }
}

#[test]
fn worker_renders_latest_revision() {
    let engines = WorkerEngines::new(default_extensions());
    let request = drained(req(1), (2..=5).map(req).collect(), Arrival::Timeout);
    let result = engines.render(&request);
    assert_eq!(result.revision, 5, "expected final result revision = 5, got {}", result.revision);
    assert!(result.html.contains("Revision 5"));
}

#[test]
fn result_carries_correct_revision() {
    let engines = WorkerEngines::new(default_extensions());
    let request = drained(req(42), Vec::new(), Arrival::Disconnected);
    assert_eq!(engines.render(&request).revision, 42);
}

#[test]
fn rendered_text_contains_heading_content() {
    let engines = WorkerEngines::new(default_extensions());
    let result = engines.render(&RenderRequest {
        revision: 1,
        markdown: "# Hello Alloy\n\nSome paragraph.\n".to_owned(),
        col_width: 80,
    });

    let plain: String = result
        .rendered
        .lines
        .iter()
        .flat_map(|l| l.spans.iter())
        .map(|s| s.content.as_str())
        .collect();

    assert!(
        plain.contains("Hello Alloy"),
        "rendered output should contain heading text: {plain:?}"
    );
    assert_eq!(result.link_index.len(), 1);
}

#[test]
fn html_field_contains_h1_tag() {
    let engines = WorkerEngines::new(default_extensions());
    let result = engines.render(&RenderRequest {
        revision: 1,
        markdown: "# My Heading\n\nParagraph text.\n".to_owned(),
        col_width: 80,
    });
    assert!(
        result.html.contains("<h1>") || result.html.contains("<h1 "),
        "html field should contain h1 tag: {:?}",
        result.html
    );
}

#[test]
fn the_terminal_engine_can_be_chosen() {
    let request = RenderRequest {
        revision: 1,
        markdown: "# Title\n\n[a](https://a.b)\n".to_owned(),
        col_width: 80,
    };
    let with = |engine: MarkdownEngine| {
        WorkerEngines::new(WorkerExtensions { gfm: true, engine, ..Default::default() })
            .render(&request)
    };
    assert_eq!(with(MarkdownEngine::PulldownCmark).link_index.len(), 2);
    assert_eq!(with(MarkdownEngine::MarkdownRs).link_index.len(), 2);
    let comrak = with(MarkdownEngine::Comrak);
    assert!(comrak.link_index.is_empty());
    assert!(comrak.rendered.lines.iter().any(|l| l.spans.iter().any(|s| s.content == "Title")));
}

#[test]
fn debounce_coalesces_rapid_requests() {
    let request = drained(req(1), (2..=10).map(req).collect(), Arrival::Timeout);
    assert_eq!(request.revision, 10);
}

#[test]
fn a_renderer_that_fails_leaves_a_message() {
    let text = error_text("oops");
    assert_eq!(text.lines.len(), 1);
    assert_eq!(text.lines[0].spans[0].content, "oops");
    assert_eq!(text.lines[0].spans[0].style.fg, Some(Color::Red));

    let result = assemble_result(7, None, Some("<p>".to_string()));
    assert_eq!(result.revision, 7);
    assert_eq!(result.html, "<p>");
    assert_eq!(result.rendered.lines[0].spans[0].style.fg, Some(Color::Red));
    assert!(result.link_index.is_empty());

    let empty = Some((Text { lines: Vec::new() }, LinkIndex::new()));
    let result = assemble_result(8, empty, None);
    assert!(result.rendered.lines.is_empty());
    assert!(!result.html.is_empty());
}

#[test]
fn the_latest_request_is_rendered_when_the_channel_closes() {
    let request = drained(req(1), (2..=4).map(req).collect(), Arrival::Disconnected);
    assert_eq!(request.revision, 4);
    let copy = request.clone();
    assert_eq!(copy.markdown, request.markdown);
    assert!(default_extensions().clone().gfm);
}

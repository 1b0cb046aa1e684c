use blog_render::dates::date_label;
use blog_render::site::{page_dir_entry, post_dir_entry};
use blog_render::page::{landing_page_html, replace_text, BlogPost, Page, StaticPage};
use blog_render::render::{render_body, render_line, slug, strip_paragraph_tags, RenderState, Section};
use blog_render::symbols::{escape_equals, post_process, wrap_symbols};

fn lines(ls: &[&str]) -> Vec<String> {
    ls.iter().map(|l| l.to_string()).collect()
}

fn gfm(s: &str) -> String {
    markdown::to_html_with_options(s, &markdown::Options::gfm()).unwrap()
}

#[test]
fn slug_of_heading_with_colon_and_digit() {
    assert_eq!(slug("Getting Started: Part 2"), "getting_started_part_2");
    assert_eq!(slug("Getting Started: Part 2"), slug("Getting Started: Part 2"));
}

#[test]
fn plain_document_is_converter_output_in_order() {
    let ls = ["Hello *world*", "Second line", "", "- item"];
    let body = render_body(&lines(&ls));
    let expected: String = ls.iter().map(|l| gfm(l)).collect();
    assert_eq!(body.html, expected);
    assert!(body.sections.is_empty());
}

#[test]
fn insert_with_background_and_caption() {
    let body = render_body(&lines(&["!insert bg ![alt](img.png)", "!image_subtitle A caption", "After"]));
    let open = "</div><div class='post-insert with-background'><div class='insert-content'><div class='insert-content-inner'>";
    let image = "<img src=\"img.png\" alt=\"alt\" />";
    let caption = "<br><div class='insert-description'><em>A caption</em>";
    let close = "</div></div></div></div><div class='post-text'>\n";
    let expected = format!("{open}{image}{caption}{close}{}", gfm("After"));
    assert_eq!(body.html, expected);
}

#[test]
fn insert_without_caption_closes_before_paragraph() {
    let body = render_body(&lines(&["!insert some *text*", "A paragraph"]));
    let open = "</div><div class='post-insert'><div class='insert-content'><div class='insert-content-inner'>";
    let close = "</div></div></div><div class='post-text'>\n";
    let expected = format!("{open}some <em>text</em>{close}{}", gfm("A paragraph"));
    assert_eq!(body.html, expected);
    assert!(body.html.contains("A paragraph"));
}

#[test]
fn untagged_code_fence_is_verbatim() {
    let body = render_body(&lines(&["```", "let a = (b) + [c];", "x < y", "```"]));
    assert_eq!(body.html, "<pre>let a = (b) + [c];\nx < y\n</pre>");
    assert!(!body.html.contains("symbol"));
}

#[test]
fn unknown_language_fence_is_verbatim() {
    let body = render_body(&lines(&["```rust", "fn f() {}", "```"]));
    assert_eq!(body.html, "<pre>fn f() {}\n</pre>");
}

#[test]
fn gdscript_fence_is_highlighted_and_symbols_wrapped() {
    let body = render_body(&lines(&["```GDScript", "var x = foo(1)", "```"]));
    assert!(body.html.starts_with("<pre>"));
    assert!(body.html.ends_with("</pre>"));
    assert!(body.html.contains("<span class='symbol'>(</span>"));
    assert!(body.html.contains("<span class='symbol'>&equals;</span>"));
    assert_ne!(body.html, "<pre>var x = foo(1)\n</pre>");
}

#[test]
fn duplicate_headings_share_anchor() {
    let body = render_body(&lines(&["## Intro", "text", "## Intro"]));
    assert_eq!(body.sections.len(), 2);
    assert_eq!(body.sections[0].slug, "intro");
    assert_eq!(body.sections[1].slug, "intro");
    assert_eq!(body.sections[0].title, "Intro");
    assert_eq!(body.html.matches("<h2 id='intro'>").count(), 2);
    assert!(body.html.contains("\n                <h2 id='intro'>Intro<a href='#intro'><div class='section-link' alt='Section link'>\n                </div></a></h2>"));
}

#[test]
fn raw_html_line_passes_through() {
    let body = render_body(&lines(&["!html <div class='x'>*a*</div>"]));
    assert_eq!(body.html, "<div class='x'>*a*</div>");
}

#[test]
fn caption_without_insert_is_plain_text() {
    let body = render_body(&lines(&["!image_subtitle hello"]));
    assert_eq!(body.html, gfm("!image_subtitle hello"));
}

#[test]
fn fence_after_insert_closes_wrapper() {
    let body = render_body(&lines(&["!insert x", "```", "a", "```"]));
    let open = "</div><div class='post-insert'><div class='insert-content'><div class='insert-content-inner'>";
    let close = "</div></div></div><div class='post-text'>\n";
    assert_eq!(body.html, format!("{open}x{close}<pre>a\n</pre>"));
}

#[test]
fn render_line_steps_through_states() {
    let mut out = String::new();
    let mut sections: Vec<Section> = Vec::new();
    let st = render_line(RenderState::Normal, "```", &mut out, &mut sections);
    assert!(matches!(st, RenderState::InCodeBlock { language: None, .. }));
    let st = render_line(st, "code", &mut out, &mut sections);
    match &st {
        RenderState::InCodeBlock { buffer, .. } => assert_eq!(buffer, "code\n"),
        _ => panic!("expected a code block"),
    }
    let st = render_line(st, "```", &mut out, &mut sections);
    assert!(matches!(st, RenderState::Normal));
    let st = render_line(st, "!insert a", &mut out, &mut sections);
    assert!(matches!(st, RenderState::AwaitingCaption));
    assert_eq!(out, "<pre>code\n</pre></div><div class='post-insert'><div class='insert-content'><div class='insert-content-inner'>a");
    let st = render_line(RenderState::Normal, "```GDScript", &mut out, &mut sections);
    match &st {
        RenderState::InCodeBlock { language, buffer } => {
            assert_eq!(language.as_deref(), Some("GDScript"));
            assert_eq!(buffer, "");
        }
        _ => panic!("expected a code block"),
    }
    assert!(sections.is_empty());
}

#[test]
fn escape_equals_outside_tags_only() {
    let s: Vec<char> = "<a href=x>a=b</a>".chars().collect();
    assert_eq!(escape_equals(&s), "<a href=x>a&equals;b</a>");
}

#[test]
fn wrap_symbols_wraps_each_once() {
    let input = "( ) [ ] : + - * { } &gt; &#x2f; &equals;";
    let s: Vec<char> = input.chars().collect();
    let out = wrap_symbols(&s);
    assert_eq!(out.matches("<span class='symbol'>").count(), 13);
    assert!(out.starts_with("<span class='symbol'>(</span> <span class='symbol'>)</span>"));
    assert!(out.ends_with("<span class='symbol'>&#x2f;</span> <span class='symbol'>&equals;</span>"));
}

#[test]
fn wrap_symbols_leaves_symbol_free_text() {
    let input = "<span class='symbol'>abc</span> = x";
    let s: Vec<char> = input.chars().collect();
    let once = wrap_symbols(&s);
    assert_eq!(once, input);
    let again: Vec<char> = once.chars().collect();
    assert_eq!(wrap_symbols(&again), once);
}

#[test]
fn post_process_runs_both_passes() {
    assert_eq!(post_process("<b>a=(b)</b>"), "<b>a<span class='symbol'>&equals;</span><span class='symbol'>(</span>b<span class='symbol'>)</span></b>");
}

#[test]
fn strip_paragraph_only_outer_pair() {
    assert_eq!(strip_paragraph_tags("<p>a</p>"), "a");
    assert_eq!(strip_paragraph_tags("<p>a</p><p>b</p>"), "a</p><p>b");
    assert_eq!(strip_paragraph_tags("<em>a</em>"), "<em>a</em>");
    assert_eq!(strip_paragraph_tags("<p>"), "<p>");
}

fn post() -> BlogPost {
    BlogPost {
        id: "first".to_string(),
        title: "First".to_string(),
        summary: "Sum".to_string(),
        author_name: "N".to_string(),
        author_email: "e".to_string(),
        author_uri: "u".to_string(),
        image: "a.png".to_string(),
        image_alt: "Alt".to_string(),
        published: "2024-01-02".to_string(),
        updated: "2024-02-03".to_string(),
        markdown: "## One\nText".to_string(),
    }
}

fn page(id: &str, image: &str) -> StaticPage {
    StaticPage {
        id: id.to_string(),
        order: 1,
        name: format!("Name {id}"),
        title: "About".to_string(),
        summary: "S".to_string(),
        author_fediverse: "@me@x".to_string(),
        image: image.to_string(),
        image_alt: "alt".to_string(),
        markdown: "## Part A\nBody".to_string(),
    }
}

#[test]
fn entry_fragment_exact() {
    let e = post().to_entry_fragment("January  2, 2024");
    assert_eq!(
        e,
        "<div class='post-entry'>\n                <img class='entry-image' src='blog/first/a.png' alt='Alt'/>\n                <div class='entry-text'>\n                    <a href='blog/first/index.html' class='entry-link'></a>\n         \t\t\t<h2 class='entry-title'>First</h2>\n         \t\t\t<span class='entry-date'>January  2, 2024</span>\n         \t\t\t<p class='entry-summary'>Sum</p>\n                </div>\n\t\t\t</div>"
    );
}

#[test]
fn post_page_has_dates_sections_and_deep_home_link() {
    let html = post().to_html("<HEADER>", "<FOOTER>", "https://b", "Site", "Jan 2", "Feb 3");
    assert!(html.starts_with("<!DOCTYPE html>"));
    assert!(html.contains("<meta property=\"og:url\" content=\"https://b/blog/first\">"));
    assert!(html.contains("Published <span class='sidebar-date'>Jan 2</span>"));
    assert!(html.contains("Updated <span class='sidebar-date'>Feb 3</span>"));
    assert!(html.contains("<ol><li><a href='#one'>One</a></li></ol></div>"));
    assert!(html.contains("<a href='../../index.html'>"));
    assert!(!html.contains("fediverse"));
    assert!(html.ends_with("<FOOTER>"));
    let h = html.find("<HEADER>").unwrap();
    let side = html.find("<div id='sidebar'>").unwrap();
    let title = html.find("<h1>First</h1>").unwrap();
    assert!(h < side && side < title);
}

#[test]
fn page_without_image_has_no_sidebar() {
    let pages = vec![page("about", ""), page("links", "")];
    let html = pages[0].to_html("<nav>___STATIC_PAGES___</nav>", "<F>", &pages, "https://b", "Site");
    assert!(!html.contains("sidebar"));
    assert!(html.contains("<nav><a href=\"../index.html\">Blog</a><a href=\"../about/index.html\">Name about</a><a href=\"../links/index.html\">Name links</a></nav>"));
    assert!(html.contains("<meta name='fediverse:creator' content='@me@x'/>"));
    assert!(html.contains("<a href='../index.html'><div id='home-link'>"));
    assert!(html.contains("<h2 id='part_a'>Part A"));
}

#[test]
fn page_with_image_has_section_sidebar() {
    let pages = vec![page("about", "hero.png")];
    let html = pages[0].to_html("<nav>___STATIC_PAGES___</nav>", "<F>", &pages, "https://b", "Site");
    assert!(html.contains("\n        <div id='sidebar'>\n        <ol><li><a href='#part_a'>Part A</a></li></ol></div>\n            "));
    assert!(html.contains("<img alt='alt' src='hero.png' class='post-image'>"));
    assert!(!html.contains("sidebar-info"));
}

#[test]
fn landing_page_lists_links_and_entries() {
    let pages = vec![page("about", "")];
    let posts = vec![post()];
    let labels = vec!["L1".to_string()];
    let html = landing_page_html("<h>___STATIC_PAGES___</h>", "<f>", &pages, &posts, &labels);
    let expected = format!(
        "<h><a href=\"../../about/index.html\">Name about</a></h>{}<f>",
        posts[0].to_entry_fragment("L1")
    );
    assert_eq!(html, expected);
}

#[test]
fn date_label_long_form() {
    assert_eq!(date_label("2024-01-02").unwrap(), "January  2, 2024");
    assert_eq!(date_label("2024-11-25").unwrap(), "November 25, 2024");
    assert_eq!(date_label("2024-02-29").unwrap(), "February 29, 2024");
    assert!(date_label("2023-02-29").is_none());
    assert!(date_label("2024-13-01").is_none());
    assert!(date_label("").is_none());
    assert!(date_label("not a date").is_none());
}

#[test]
fn post_labels_from_dates() {
    let p = post();
    assert_eq!(p.published_label().unwrap(), "January  2, 2024");
    assert_eq!(p.updated_label().unwrap(), "February  3, 2024");
    assert_eq!(p.published_key(), Some((2024, 1, 2)));
    let mut bad = post();
    bad.updated = "yesterday".to_string();
    assert!(bad.updated_label().is_none());
}

#[test]
fn page_dir_names() {
    assert_eq!(page_dir_entry("2_about"), Some((2, "about".to_string())));
    assert_eq!(page_dir_entry("0_x"), Some((0, "x".to_string())));
    assert_eq!(page_dir_entry("2_.hidden"), None);
    assert_eq!(page_dir_entry("about"), None);
    assert_eq!(page_dir_entry("3"), None);
    assert_eq!(post_dir_entry(".DS_Store"), None);
    assert_eq!(post_dir_entry("my-post"), Some("my-post".to_string()));
}

#[test]
fn post_page_ends_with_closing_links_and_footer() {
    let html = post().to_html("<HEADER>", "<FOOTER>", "https://b", "Site", "Jan 2", "Feb 3");
    assert!(html.ends_with("<div class='post-end'>\n\t<a href='../../index.html'><div id='home-link'></div>Home</a>\n\t<a href='#page-top'><div id='top-link'></div>Back to the top</a>\n</div></div><FOOTER>"));
    assert!(html.starts_with("<!DOCTYPE html>\n        <html>\n        <head>\n\t<meta http-equiv=\"Content-Type\" content=\"text/html; charset=utf-8\">"));
    assert!(html.contains("\"/>\n\t<title>First</title><HEADER>"));
}

#[test]
fn wrapped_spans_are_not_wrapped_again() {
    let tokens = ["(", ")", "[", "]", ":", "+", "-", "*", "{", "}", "&gt;", "&#x2f;", "&equals;"];
    let w: String = tokens.iter().map(|t| format!("<span class='symbol'>{t}</span>")).collect();
    assert_eq!(post_process(&w), w);
    let chars: Vec<char> = w.chars().collect();
    assert_eq!(wrap_symbols(&chars), w);
    let once = post_process("<b>f(x) = [y]</b>");
    assert_eq!(post_process(&once), once);
    assert!(!once.contains("<span class='symbol'><span class='symbol'>"));
}

#[test]
fn highlighted_block_has_no_nested_spans() {
    let body = render_body(&lines(&["```GDScript", "func f(a): return a * [1] - {}", "```"]));
    assert!(body.html.contains("<span class='symbol'>"));
    assert!(!body.html.contains("<span class='symbol'><span class='symbol'>"));
}

#[test]
fn replace_text_left_to_right_without_overlap() {
    assert_eq!(replace_text("a__b__", "__", "X"), "aXbX");
    assert_eq!(replace_text("aaa", "aa", "X"), "Xa");
    assert_eq!(replace_text("none", "__", "X"), "none");
}

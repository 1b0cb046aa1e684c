//! Blog posts and standalone pages, and the assembly of their HTML around
//! a rendered body.

use vstd::prelude::*;

use crate::outside::{lines_of, push_char, split_lines, to_chars, views};
use crate::render::{
    concat_converted, is_plain_line, lemma_plain_document, render_body, render_lines, section_views,
    Section,
};
use crate::text::{rest, starts_at, starts_with};

verus! {

/// A blog post: its metadata and its markdown body.
pub struct BlogPost {
    pub id: String,
    pub title: String,
    pub summary: String,
    pub author_name: String,
    pub author_email: String,
    pub author_uri: String,
    pub image: String,
    pub image_alt: String,
    pub published: String,
    pub updated: String,
    pub markdown: String,
}

/// A standalone page: its metadata and its markdown body.
pub struct StaticPage {
    pub id: String,
    pub order: u8,
    pub name: String,
    pub title: String,
    pub summary: String,
    pub author_fediverse: String,
    pub image: String,
    pub image_alt: String,
    pub markdown: String,
}

/// The list items of the sections, in order.
pub open spec fn section_items(s: Seq<(Seq<char>, Seq<char>)>) -> Seq<char>
    decreases s.len(),
{
    if s.len() == 0 {
        Seq::empty()
    } else {
        section_items(s.drop_last()) + "<li><a href='#"@ + s.last().1 + "'>"@ + s.last().0
            + "</a></li>"@
    }
}

/// `s` with every occurrence of the non-empty `pat`, scanned from the left
/// without overlap, replaced by `with`.
pub open spec fn replace_spec(s: Seq<char>, pat: Seq<char>, with: Seq<char>) -> Seq<char>
    decreases s.len(),
{
    if s.len() == 0 || pat.len() == 0 {
        s
    } else if starts_with(s, pat) {
        with + replace_spec(rest(s, pat.len()), pat, with)
    } else {
        seq![s[0]] + replace_spec(s.drop_first(), pat, with)
    }
}

/// `s` with every occurrence of the non-empty `pat` replaced by `with`,
/// scanning from the left without overlap.
pub fn replace_text(s: &str, pat: &str, with: &str) -> (r: String)
    requires
        pat@.len() > 0,
    ensures
        r@ == replace_spec(s@, pat@, with@),
{
    let c = to_chars(s);
    let pc = to_chars(pat);
    let n = c.len();
    let mut out = String::new();
    let mut i: usize = 0;
    assert(rest(c@, 0) =~= c@);
    while i < n
        invariant
            n == c.len(),
            c@ == s@,
            pc@ == pat@,
            pat@.len() > 0,
            i <= n,
            replace_spec(s@, pat@, with@) == out@ + replace_spec(rest(c@, i as nat), pat@, with@),
        decreases n - i,
    {
        let ghost tail = rest(c@, i as nat);
        let ghost before = out@;
        let step: usize;
        if starts_at(&c, i, &pc) {
            out.append(with);
            step = pc.len();
            assert(rest(tail, pat@.len()) =~= rest(c@, (i + step) as nat));
        } else {
            push_char(&mut out, c[i]);
            step = 1;
            assert(tail[0] == c@[i as int]);
            assert(tail.drop_first() =~= rest(c@, (i + 1) as nat));
        }
        proof {
            let next = rest(c@, (i + step) as nat);
            let added = out@.subrange(before.len() as int, out@.len() as int);
            assert(out@ =~= before + added);
            assert(replace_spec(tail, pat@, with@) == added + replace_spec(next, pat@, with@));
            assert(before + (added + replace_spec(next, pat@, with@)) =~= out@ + replace_spec(next, pat@, with@));
        }
        i += step;
    }
    assert(rest(c@, n as nat) =~= Seq::<char>::empty());
    out
}

/// Appends the list items of the sections.
pub fn push_section_items(out: &mut String, sections: &Vec<Section>)
    ensures
        final(out)@ == old(out)@ + section_items(section_views(sections@)),
{
    let mut i: usize = 0;
    assert(section_views(sections@).subrange(0, 0) =~= Seq::<(Seq<char>, Seq<char>)>::empty());
    assert(out@ =~= old(out)@ + Seq::<char>::empty());
    while i < sections.len()
        invariant
            i <= sections.len(),
            out@ == old(out)@ + section_items(section_views(sections@).subrange(0, i as int)),
        decreases sections.len() - i,
    {
        let ghost before = out@;
        let ghost upto = section_views(sections@).subrange(0, i + 1);
        assert(upto.drop_last() =~= section_views(sections@).subrange(0, i as int));
        assert(upto.last() == sections@[i as int]@);
        out.append("<li><a href='#");
        out.append(sections[i].slug.as_str());
        out.append("'>");
        out.append(sections[i].title.as_str());
        out.append("</a></li>");
        i += 1;
        assert(out@ =~= old(out)@ + section_items(upto));
    }
    assert(section_views(sections@).subrange(0, sections.len() as int) =~= section_views(sections@));
}

/// The social metadata tags that open the head of a page.
pub open spec fn meta_html(
    site_name: Seq<char>,
    url_base: Seq<char>,
    id: Seq<char>,
    title: Seq<char>,
    summary: Seq<char>,
    image: Seq<char>,
) -> Seq<char> {
    "<!DOCTYPE html>\n        <html>\n        <head>\n\t<meta http-equiv=\"Content-Type\" content=\"text/html; charset=utf-8\">\n\t<meta property=\"og:site_name\" content=\""@
        + site_name + "\">\n\t<meta property=\"og:type\" content=\"website\" />\n\t<meta property=\"og:url\" content=\""@
        + url_base + "/blog/"@ + id + "\">\n\t<meta property=\"og:title\" content=\""@ + title
        + "\" />\n\t<meta property=\"og:description\" content=\""@ + summary
        + "\">\n\t<meta property=\"og:image\" content=\""@ + url_base + "/blog/"@ + id + "/"@
        + image + "\"/>"@
}

/// The fediverse creator tag of a standalone page.
pub open spec fn creator_html(creator: Option<Seq<char>>) -> Seq<char> {
    match creator {
        Some(c) => "\n    <meta name='fediverse:creator' content='"@ + c + "'/>"@,
        None => Seq::empty(),
    }
}

/// The head of a page: social metadata, the creator tag where there is
/// one, and the title.
pub open spec fn head_html(
    site_name: Seq<char>,
    url_base: Seq<char>,
    id: Seq<char>,
    title: Seq<char>,
    summary: Seq<char>,
    image: Seq<char>,
    creator: Option<Seq<char>>,
) -> Seq<char> {
    meta_html(site_name, url_base, id, title, summary, image) + creator_html(creator) + "\n\t<title>"@
        + title + "</title>"@
}

/// Appends the social metadata tags.
fn push_meta(
    out: &mut String,
    site_name: &str,
    url_base: &str,
    id: &str,
    title: &str,
    summary: &str,
    image: &str,
)
    ensures
        final(out)@ == old(out)@ + meta_html(site_name@, url_base@, id@, title@, summary@, image@),
{
    let ghost start = out@;
    out.append("<!DOCTYPE html>\n        <html>\n        <head>\n\t<meta http-equiv=\"Content-Type\" content=\"text/html; charset=utf-8\">\n\t<meta property=\"og:site_name\" content=\"");
    out.append(site_name);
    out.append("\">\n\t<meta property=\"og:type\" content=\"website\" />\n\t<meta property=\"og:url\" content=\"");
    out.append(url_base);
    out.append("/blog/");
    out.append(id);
    out.append("\">\n\t<meta property=\"og:title\" content=\"");
    out.append(title);
    out.append("\" />\n\t<meta property=\"og:description\" content=\"");
    out.append(summary);
    out.append("\">\n\t<meta property=\"og:image\" content=\"");
    out.append(url_base);
    out.append("/blog/");
    out.append(id);
    out.append("/");
    out.append(image);
    out.append("\"/>");
    assert(out@ =~= start + meta_html(site_name@, url_base@, id@, title@, summary@, image@));
}

/// Appends the head of a page.
fn push_head(
    out: &mut String,
    site_name: &str,
    url_base: &str,
    id: &str,
    title: &str,
    summary: &str,
    image: &str,
    creator: Option<&str>,
)
    ensures
        final(out)@ == old(out)@ + head_html(
            site_name@,
            url_base@,
            id@,
            title@,
            summary@,
            image@,
            match creator {
                Some(c) => Some(c@),
                None => None,
            },
        ),
{
    let ghost start = out@;
    push_meta(out, site_name, url_base, id, title, summary, image);
    let ghost mid = out@;
    let ghost cv = match creator {
        Some(c) => Some(c@),
        None => None,
    };
    match creator {
        Some(c) => {
            out.append("\n    <meta name='fediverse:creator' content='");
            out.append(c);
            out.append("'/>");
            assert(out@ =~= mid + creator_html(cv));
        },
        None => {
            assert(out@ =~= mid + creator_html(cv));
        },
    }
    let ghost after = out@;
    out.append("\n\t<title>");
    out.append(title);
    out.append("</title>");
    assert(out@ =~= start + head_html(site_name@, url_base@, id@, title@, summary@, image@, cv));
}

/// The hero image block of a page.
pub open spec fn image_html(alt: Seq<char>, image: Seq<char>) -> Seq<char> {
    "<div class='post-header-image'>\n                <img alt='"@ + alt + "' src='"@ + image
        + "' class='post-image'><br />\n            </div>\n            "@
}

/// The sidebar of a post: its dates, then its sections.
pub open spec fn post_sidebar(
    published: Seq<char>,
    updated: Seq<char>,
    sections: Seq<(Seq<char>, Seq<char>)>,
) -> Seq<char> {
    "\n        <div id='sidebar'>\n        <div class='sidebar-info'>\n        Published <span class='sidebar-date'>"@
        + published + "</span><br>\n        Updated <span class='sidebar-date'>"@ + updated
        + "</span><br>\n        </div>\n        <hr>\n        <ol>"@ + section_items(sections) + "</ol></div>\n            "@
}

/// The sidebar of a standalone page: its sections.
pub open spec fn page_sidebar(sections: Seq<(Seq<char>, Seq<char>)>) -> Seq<char> {
    "\n        <div id='sidebar'>\n        <ol>"@ + section_items(sections) + "</ol></div>\n            "@
}

/// The opening of the text column, with the title.
pub open spec fn text_open(title: Seq<char>) -> Seq<char> {
    "<div class='post-text'><h1>"@ + title + "</h1>"@
}

/// The closing links of a page; `home` is the relative path of the home page.
pub open spec fn page_end(home: Seq<char>) -> Seq<char> {
    "<div class='post-end'>\n\t<a href='"@ + home
        + "'><div id='home-link'></div>Home</a>\n\t<a href='#page-top'><div id='top-link'></div>Back to the top</a>\n</div></div>"@
}

/// Appends the sidebar of a post.
fn push_post_sidebar(out: &mut String, published: &str, updated: &str, sections: &Vec<Section>)
    ensures
        final(out)@ == old(out)@ + post_sidebar(published@, updated@, section_views(sections@)),
{
    let ghost start = out@;
    out.append("\n        <div id='sidebar'>\n        <div class='sidebar-info'>\n        Published <span class='sidebar-date'>");
    out.append(published);
    out.append("</span><br>\n        Updated <span class='sidebar-date'>");
    out.append(updated);
    out.append("</span><br>\n        </div>\n        <hr>\n        <ol>");
    push_section_items(out, sections);
    out.append("</ol></div>\n            ");
    assert(out@ =~= start + post_sidebar(published@, updated@, section_views(sections@)));
}

/// Appends the sidebar of a standalone page.
fn push_page_sidebar(out: &mut String, sections: &Vec<Section>)
    ensures
        final(out)@ == old(out)@ + page_sidebar(section_views(sections@)),
{
    let ghost start = out@;
    out.append("\n        <div id='sidebar'>\n        <ol>");
    push_section_items(out, sections);
    out.append("</ol></div>\n            ");
    assert(out@ =~= start + page_sidebar(section_views(sections@)));
}

/// Appends the hero image block.
fn push_image(out: &mut String, alt: &str, image: &str)
    ensures
        final(out)@ == old(out)@ + image_html(alt@, image@),
{
    let ghost start = out@;
    out.append("<div class='post-header-image'>\n                <img alt='");
    out.append(alt);
    out.append("' src='");
    out.append(image);
    out.append("' class='post-image'><br />\n            </div>\n            ");
    assert(out@ =~= start + image_html(alt@, image@));
}

/// Appends the opening of the text column.
fn push_text_open(out: &mut String, title: &str)
    ensures
        final(out)@ == old(out)@ + text_open(title@),
{
    let ghost start = out@;
    out.append("<div class='post-text'><h1>");
    out.append(title);
    out.append("</h1>");
    assert(out@ =~= start + text_open(title@));
}

/// Appends the closing links.
fn push_page_end(out: &mut String, home: &str)
    ensures
        final(out)@ == old(out)@ + page_end(home@),
{
    let ghost start = out@;
    out.append("<div class='post-end'>\n\t<a href='");
    out.append(home);
    out.append("'><div id='home-link'></div>Home</a>\n\t<a href='#page-top'><div id='top-link'></div>Back to the top</a>\n</div></div>");
    assert(out@ =~= start + page_end(home@));
}

/// The navigation links to the standalone pages, each one level up.
pub open spec fn nav_items(pages: Seq<StaticPage>) -> Seq<char>
    decreases pages.len(),
{
    if pages.len() == 0 {
        Seq::empty()
    } else {
        nav_items(pages.drop_last()) + "<a href=\"../"@ + pages.last().id@ + "/index.html\">"@
            + pages.last().name@ + "</a>"@
    }
}

/// The navigation strip of a standalone page: the blog, then every page.
pub open spec fn page_links(pages: Seq<StaticPage>) -> Seq<char> {
    "<a href=\"../index.html\">Blog</a>"@ + nav_items(pages)
}

/// The navigation strip of a standalone page.
pub fn nav_links(pages: &Vec<StaticPage>) -> (r: String)
    ensures
        r@ == page_links(pages@),
{
    let mut out = String::new();
    out.append("<a href=\"../index.html\">Blog</a>");
    let mut i: usize = 0;
    assert(pages@.subrange(0, 0) =~= Seq::<StaticPage>::empty());
    assert(out@ =~= "<a href=\"../index.html\">Blog</a>"@ + nav_items(pages@.subrange(0, 0)));
    while i < pages.len()
        invariant
            i <= pages.len(),
            out@ == "<a href=\"../index.html\">Blog</a>"@ + nav_items(pages@.subrange(0, i as int)),
        decreases pages.len() - i,
    {
        let ghost before = out@;
        assert(pages@.subrange(0, i + 1).drop_last() =~= pages@.subrange(0, i as int));
        out.append("<a href=\"../");
        out.append(pages[i].id.as_str());
        out.append("/index.html\">");
        out.append(pages[i].name.as_str());
        out.append("</a>");
        i += 1;
        assert(out@ =~= "<a href=\"../index.html\">Blog</a>"@ + nav_items(pages@.subrange(0, i as int)));
    }
    assert(pages@.subrange(0, pages.len() as int) =~= pages@);
    out
}

/// The placeholder in a page header where the navigation strip goes.
pub open spec fn pages_placeholder() -> Seq<char> {
    "___STATIC_PAGES___"@
}

/// Fills the navigation placeholder of a header fragment.
pub fn fill_header(header: &str, links: &str) -> (r: String)
    ensures
        r@ == replace_spec(header@, pages_placeholder(), links@),
{
    proof {
        reveal_strlit("___STATIC_PAGES___");
    }
    replace_text(header, "___STATIC_PAGES___", links)
}

impl BlogPost {
    /// The full page of a post: head, header fragment, hero image, sidebar
    /// with the date labels and the sections, title, body, closing links
    /// two levels up, footer fragment.
    pub open spec fn html_spec(
        &self,
        header: Seq<char>,
        footer: Seq<char>,
        url_base: Seq<char>,
        site_name: Seq<char>,
        published_label: Seq<char>,
        updated_label: Seq<char>,
    ) -> Seq<char> {
        let body = render_lines(lines_of(self.markdown@));
        head_html(site_name, url_base, self.id@, self.title@, self.summary@, self.image@, None)
            + header + image_html(self.image_alt@, self.image@) + post_sidebar(
            published_label,
            updated_label,
            body.2,
        ) + text_open(self.title@) + body.1 + page_end("../../index.html"@) + footer
    }

    /// Renders the post into a complete HTML page. The date labels are the
    /// post's dates as shown to readers.
    pub fn to_html(
        &self,
        header: &str,
        footer: &str,
        url_base: &str,
        site_name: &str,
        published_label: &str,
        updated_label: &str,
    ) -> (r: String)
        ensures
            r@ == self.html_spec(header@, footer@, url_base@, site_name@, published_label@, updated_label@),
    {
        let lines = split_lines(self.markdown.as_str());
        let body = render_body(&lines);
        let mut out = String::new();
        push_head(
            &mut out,
            site_name,
            url_base,
            self.id.as_str(),
            self.title.as_str(),
            self.summary.as_str(),
            self.image.as_str(),
            None,
        );
        out.append(header);
        push_image(&mut out, self.image_alt.as_str(), self.image.as_str());
        push_post_sidebar(&mut out, published_label, updated_label, &body.sections);
        push_text_open(&mut out, self.title.as_str());
        out.append(body.html.as_str());
        push_page_end(&mut out, "../../index.html");
        out.append(footer);
        out
    }

    /// The entry of the post on the landing page.
    pub open spec fn entry_spec(&self, published_label: Seq<char>) -> Seq<char> {
        "<div class='post-entry'>\n                <img class='entry-image' src='blog/"@ + self.id@ + "/"@
            + self.image@ + "' alt='"@ + self.image_alt@
            + "'/>\n                <div class='entry-text'>\n                    <a href='blog/"@ + self.id@
            + "/index.html' class='entry-link'></a>\n         \t\t\t<h2 class='entry-title'>"@ + self.title@
            + "</h2>\n         \t\t\t<span class='entry-date'>"@ + published_label
            + "</span>\n         \t\t\t<p class='entry-summary'>"@ + self.summary@ + "</p>\n                </div>\n\t\t\t</div>"@
    }

    /// The entry of the post on the landing page, with its publication date
    /// as shown to readers.
    pub fn to_entry_fragment(&self, published_label: &str) -> (r: String)
        ensures
            r@ == self.entry_spec(published_label@),
    {
        let mut out = String::new();
        out.append("<div class='post-entry'>\n                <img class='entry-image' src='blog/");
        out.append(self.id.as_str());
        out.append("/");
        out.append(self.image.as_str());
        out.append("' alt='");
        out.append(self.image_alt.as_str());
        out.append("'/>\n                <div class='entry-text'>\n                    <a href='blog/");
        out.append(self.id.as_str());
        out.append("/index.html' class='entry-link'></a>\n         \t\t\t<h2 class='entry-title'>");
        out.append(self.title.as_str());
        out.append("</h2>\n         \t\t\t<span class='entry-date'>");
        out.append(published_label);
        out.append("</span>\n         \t\t\t<p class='entry-summary'>");
        out.append(self.summary.as_str());
        out.append("</p>\n                </div>\n\t\t\t</div>");
        assert(out@ =~= self.entry_spec(published_label@));
        out
    }
}

/// A page of the site rendered from its markdown.
pub trait Page {
    /// The page's HTML, given the header and footer fragments, the site's
    /// standalone pages, the site's base URL and its name.
    spec fn html_spec(
        &self,
        header: Seq<char>,
        footer: Seq<char>,
        pages: Seq<StaticPage>,
        url_base: Seq<char>,
        site_name: Seq<char>,
    ) -> Seq<char>;

    /// Renders the page into a complete HTML document.
    fn to_html(
        &self,
        header: &str,
        footer: &str,
        pages: &Vec<StaticPage>,
        url_base: &str,
        site_name: &str,
    ) -> (r: String)
        ensures
            r@ == self.html_spec(header@, footer@, pages@, url_base@, site_name@),
    ;
}

impl Page for StaticPage {
    /// Head with the fediverse creator tag, header with its navigation strip
    /// filled, hero image and sidebar only where the page has an image,
    /// title, body, closing links one level up, footer.
    open spec fn html_spec(
        &self,
        header: Seq<char>,
        footer: Seq<char>,
        pages: Seq<StaticPage>,
        url_base: Seq<char>,
        site_name: Seq<char>,
    ) -> Seq<char> {
        let body = render_lines(lines_of(self.markdown@));
        head_html(
            site_name,
            url_base,
            self.id@,
            self.title@,
            self.summary@,
            self.image@,
            Some(self.author_fediverse@),
        ) + replace_spec(header, pages_placeholder(), page_links(pages)) + if self.image@.len() > 0 {
            image_html(self.image_alt@, self.image@) + page_sidebar(body.2)
        } else {
            Seq::empty()
        } + text_open(self.title@) + body.1 + page_end("../index.html"@) + footer
    }

    fn to_html(
        &self,
        header: &str,
        footer: &str,
        pages: &Vec<StaticPage>,
        url_base: &str,
        site_name: &str,
    ) -> (r: String) {
        let lines = split_lines(self.markdown.as_str());
        let body = render_body(&lines);
        let mut out = String::new();
        push_head(
            &mut out,
            site_name,
            url_base,
            self.id.as_str(),
            self.title.as_str(),
            self.summary.as_str(),
            self.image.as_str(),
            Some(self.author_fediverse.as_str()),
        );
        let links = nav_links(pages);
        let filled = fill_header(header, links.as_str());
        out.append(filled.as_str());
        let ghost before_image = out@;
        if !self.image.as_str().is_empty() {
            push_image(&mut out, self.image_alt.as_str(), self.image.as_str());
            push_page_sidebar(&mut out, &body.sections);
        }
        let ghost after_image = out@;
        assert(self.image@.len() == 0 ==> after_image =~= before_image + Seq::<char>::empty());
        push_text_open(&mut out, self.title.as_str());
        out.append(body.html.as_str());
        push_page_end(&mut out, "../index.html");
        out.append(footer);
        out
    }
}


/// The links to the standalone pages on the landing page, each two levels
/// up.
pub open spec fn landing_items(pages: Seq<StaticPage>) -> Seq<char>
    decreases pages.len(),
{
    if pages.len() == 0 {
        Seq::empty()
    } else {
        landing_items(pages.drop_last()) + "<a href=\"../../"@ + pages.last().id@
            + "/index.html\">"@ + pages.last().name@ + "</a>"@
    }
}

/// The entries of the posts, each with its date label, in order.
pub open spec fn entries_spec(posts: Seq<BlogPost>, labels: Seq<Seq<char>>) -> Seq<char>
    decreases posts.len(),
{
    if posts.len() == 0 || labels.len() == 0 {
        Seq::empty()
    } else {
        entries_spec(posts.drop_last(), labels.drop_last()) + posts.last().entry_spec(labels.last())
    }
}

/// The landing page: its header with the page links filled in, an entry for
/// each post with its publication label, its footer.
pub open spec fn landing_spec(
    header: Seq<char>,
    footer: Seq<char>,
    pages: Seq<StaticPage>,
    posts: Seq<BlogPost>,
    labels: Seq<Seq<char>>,
) -> Seq<char> {
    replace_spec(header, pages_placeholder(), landing_items(pages)) + entries_spec(posts, labels)
        + footer
}

/// The links to the standalone pages on the landing page.
pub fn landing_links(pages: &Vec<StaticPage>) -> (r: String)
    ensures
        r@ == landing_items(pages@),
{
    let mut out = String::new();
    let mut i: usize = 0;
    assert(pages@.subrange(0, 0) =~= Seq::<StaticPage>::empty());
    while i < pages.len()
        invariant
            i <= pages.len(),
            out@ == landing_items(pages@.subrange(0, i as int)),
        decreases pages.len() - i,
    {
        assert(pages@.subrange(0, i + 1).drop_last() =~= pages@.subrange(0, i as int));
        out.append("<a href=\"../../");
        out.append(pages[i].id.as_str());
        out.append("/index.html\">");
        out.append(pages[i].name.as_str());
        out.append("</a>");
        i += 1;
        assert(out@ =~= landing_items(pages@.subrange(0, i as int)));
    }
    assert(pages@.subrange(0, pages.len() as int) =~= pages@);
    out
}

/// Assembles the landing page; `labels[i]` is the publication label of
/// `posts[i]`.
pub fn landing_page_html(
    header: &str,
    footer: &str,
    pages: &Vec<StaticPage>,
    posts: &Vec<BlogPost>,
    labels: &Vec<String>,
) -> (r: String)
    requires
        labels.len() == posts.len(),
    ensures
        r@ == landing_spec(header@, footer@, pages@, posts@, views(labels@)),
{
    let links = landing_links(pages);
    let mut out = fill_header(header, links.as_str());
    let ghost start = out@;
    let mut i: usize = 0;
    assert(posts@.subrange(0, 0) =~= Seq::<BlogPost>::empty());
    assert(out@ =~= start + entries_spec(posts@.subrange(0, 0), views(labels@).subrange(0, 0)));
    while i < posts.len()
        invariant
            i <= posts.len(),
            labels.len() == posts.len(),
            out@ == start + entries_spec(posts@.subrange(0, i as int), views(labels@).subrange(0, i as int)),
        decreases posts.len() - i,
    {
        let entry = posts[i].to_entry_fragment(labels[i].as_str());
        let ghost before = out@;
        out.append(entry.as_str());
        proof {
            let ps = posts@.subrange(0, i + 1);
            let ls = views(labels@).subrange(0, i + 1);
            assert(ps.drop_last() =~= posts@.subrange(0, i as int));
            assert(ls.drop_last() =~= views(labels@).subrange(0, i as int));
            assert(ls.last() == labels@[i as int]@);
            assert(out@ =~= start + entries_spec(ps, ls));
        }
        i += 1;
    }
    assert(posts@.subrange(0, posts.len() as int) =~= posts@);
    assert(views(labels@).subrange(0, posts.len() as int) =~= views(labels@));
    out.append(footer);
    out
}


/// A post whose lines are all plain renders, between its header and footer
/// fragments, to the converter's output for each line in order, and its
/// sidebar lists no section.
pub proof fn lemma_plain_post(
    post: BlogPost,
    header: Seq<char>,
    footer: Seq<char>,
    url_base: Seq<char>,
    site_name: Seq<char>,
    published_label: Seq<char>,
    updated_label: Seq<char>,
)
    requires
        forall|i: int|
            0 <= i < lines_of(post.markdown@).len() ==> is_plain_line(
                #[trigger] lines_of(post.markdown@)[i],
            ),
    ensures
        post.html_spec(header, footer, url_base, site_name, published_label, updated_label)
            == head_html(site_name, url_base, post.id@, post.title@, post.summary@, post.image@, None)
            + header + image_html(post.image_alt@, post.image@) + post_sidebar(
            published_label,
            updated_label,
            Seq::empty(),
        ) + text_open(post.title@) + concat_converted(lines_of(post.markdown@)) + page_end(
            "../../index.html"@,
        ) + footer,
{
    lemma_plain_document(lines_of(post.markdown@));
}

} // verus!

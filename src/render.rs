//! The line-oriented render state machine: fenced code, insert blocks,
//! raw HTML lines, and level-2 headings indexed as sections.

use vstd::prelude::*;

use crate::outside::{
    opt_view, gdscript_html_of, gfm_html, gfm_html_of, highlight_gdscript, is_alphanumeric,
    is_alphanumeric_of, markdown_html, markdown_html_of, push_char, snake_case, snake_case_of,
    to_chars, views,
};
use crate::symbols::{post_process, post_process_spec};
use crate::text::{ends_with, line_ends_with, line_starts_with, rest, starts_with, string_of_range};

verus! {

/// The state between two lines, as a mathematical value.
pub enum Phase {
    Normal,
    InCode { language: Option<Seq<char>>, buffer: Seq<char> },
    AwaitingCaption,
}

/// The state between two lines.
pub enum RenderState {
    Normal,
    InCodeBlock { language: Option<String>, buffer: String },
    AwaitingCaption,
}

impl View for RenderState {
    type V = Phase;

    open spec fn view(&self) -> Phase {
        match self {
            RenderState::Normal => Phase::Normal,
            RenderState::InCodeBlock { language, buffer } => Phase::InCode {
                language: opt_view(*language),
                buffer: buffer@,
            },
            RenderState::AwaitingCaption => Phase::AwaitingCaption,
        }
    }
}

/// A level-2 heading met in a document: its text and its anchor id.
pub struct Section {
    pub title: String,
    pub slug: String,
}

impl View for Section {
    type V = (Seq<char>, Seq<char>);

    open spec fn view(&self) -> (Seq<char>, Seq<char>) {
        (self.title@, self.slug@)
    }
}

/// The views of a list of sections.
pub open spec fn section_views(v: Seq<Section>) -> Seq<(Seq<char>, Seq<char>)> {
    v.map_values(|s: Section| s@)
}

/// What one line yields: the next state, the HTML it adds, the sections it
/// adds.
pub type LineOutcome = (Phase, Seq<char>, Seq<(Seq<char>, Seq<char>)>);

/// A character that a slug keeps.
pub open spec fn slug_char(c: char) -> bool {
    is_alphanumeric_of(c) || c == ' '
}

/// The characters of `s` that a slug keeps, in order.
pub open spec fn keep_slug_chars(s: Seq<char>) -> Seq<char>
    decreases s.len(),
{
    if s.len() == 0 {
        Seq::empty()
    } else {
        let head = keep_slug_chars(s.drop_last());
        if slug_char(s.last()) {
            head.push(s.last())
        } else {
            head
        }
    }
}

/// The anchor id of a heading: letters, digits and spaces kept, then put in
/// snake case.
pub open spec fn slug_spec(title: Seq<char>) -> Seq<char> {
    snake_case_of(keep_slug_chars(title))
}

/// The fence marker.
pub open spec fn fence() -> Seq<char> {
    "```"@
}

/// The language tag that follows a fence marker, if any.
pub open spec fn fence_language(line: Seq<char>) -> Option<Seq<char>> {
    if line.len() > fence().len() {
        Some(rest(line, fence().len()))
    } else {
        None
    }
}

/// The tag names the one highlighted language.
pub open spec fn is_highlighted(language: Option<Seq<char>>) -> bool {
    language matches Some(l) && starts_with(l, "GDScript"@)
}

/// Opening of a plain insert block.
pub open spec fn insert_prefix() -> Seq<char> {
    "!insert "@
}

/// Opening of an insert block with a background.
pub open spec fn insert_bg_prefix() -> Seq<char> {
    "!insert bg "@
}

/// A caption for the insert block opened on the line before.
pub open spec fn caption_prefix() -> Seq<char> {
    "!image_subtitle "@
}

/// A line passed through as raw HTML.
pub open spec fn html_prefix() -> Seq<char> {
    "!html "@
}

/// Wrapper markup that opens a plain insert block.
pub open spec fn insert_open() -> Seq<char> {
    "</div><div class='post-insert'><div class='insert-content'><div class='insert-content-inner'>"@
}

/// Wrapper markup that opens an insert block with a background.
pub open spec fn insert_bg_open() -> Seq<char> {
    "</div><div class='post-insert with-background'><div class='insert-content'><div class='insert-content-inner'>"@
}

/// Markup that closes an insert block that has no caption.
pub open spec fn insert_close() -> Seq<char> {
    "</div></div></div><div class='post-text'>\n"@
}

/// Markup put before a caption.
pub open spec fn caption_open() -> Seq<char> {
    "<br><div class='insert-description'><em>"@
}

/// Markup put after a caption; it also closes the insert block.
pub open spec fn caption_close() -> Seq<char> {
    "</em></div></div></div></div><div class='post-text'>\n"@
}

/// One enclosing paragraph taken off a fragment, where there is one.
pub open spec fn strip_paragraph(h: Seq<char>) -> Seq<char> {
    if starts_with(h, "<p>"@) && ends_with(h, "</p>"@) && h.len() >= "<p>"@.len() + "</p>"@.len() {
        h.subrange("<p>"@.len() as int, h.len() - "</p>"@.len())
    } else {
        h
    }
}

/// The markup of an insert line: the wrappers, then the rest of the line
/// converted and stripped of its paragraph.
pub open spec fn insert_html(line: Seq<char>) -> Seq<char> {
    if starts_with(line, insert_bg_prefix()) {
        insert_bg_open() + strip_paragraph(markdown_html_of(rest(line, insert_bg_prefix().len())))
    } else {
        insert_open() + strip_paragraph(markdown_html_of(rest(line, insert_prefix().len())))
    }
}

/// The markup of a caption line.
pub open spec fn caption_html(line: Seq<char>) -> Seq<char> {
    caption_open() + rest(line, caption_prefix().len()) + caption_close()
}

/// The converter gave a level-2 heading.
pub open spec fn is_heading(g: Seq<char>) -> bool {
    starts_with(g, "<h2>"@) && ends_with(g, "</h2>"@) && g.len() >= "<h2>"@.len() + "</h2>"@.len()
}

/// The text inside a level-2 heading.
pub open spec fn heading_title(g: Seq<char>) -> Seq<char> {
    g.subrange("<h2>"@.len() as int, g.len() - "</h2>"@.len())
}

/// An anchored heading followed by a link to itself.
pub open spec fn heading_html(title: Seq<char>, slug: Seq<char>) -> Seq<char> {
    "\n                <h2 id='"@ + slug + "'>"@ + title + "<a href='#"@ + slug
        + "'><div class='section-link' alt='Section link'>\n                </div></a></h2>"@
}

/// The markup and sections of a line that no directive claims.
pub open spec fn content_html(line: Seq<char>) -> (Seq<char>, Seq<(Seq<char>, Seq<char>)>) {
    if starts_with(line, html_prefix()) {
        (rest(line, html_prefix().len()), Seq::empty())
    } else {
        let g = gfm_html_of(line);
        if is_heading(g) {
            let t = heading_title(g);
            (heading_html(t, slug_spec(t)), seq![(t, slug_spec(t))])
        } else {
            (g, Seq::empty())
        }
    }
}

/// A closed code block: highlighted and post-processed where it was tagged
/// with the highlighted language and the highlighter succeeded, verbatim
/// otherwise.
pub open spec fn code_block_html(language: Option<Seq<char>>, buffer: Seq<char>) -> Seq<char> {
    if is_highlighted(language) && gdscript_html_of(buffer) is Some {
        "<pre>"@ + post_process_spec(gdscript_html_of(buffer)->0) + "</pre>"@
    } else {
        "<pre>"@ + buffer + "</pre>"@
    }
}

/// One step of the state machine. Inside a code block every line is
/// buffered verbatim until a fence closes the block. Otherwise, in this
/// order: a fence opens a code block, closing an insert still waiting for
/// its caption; an insert line opens an insert block (one still waiting
/// stays open, nested); right after an insert, a caption line closes it
/// with the caption; any other line closes a waiting insert, then is
/// passed through as raw HTML or converted, a level-2 heading being
/// anchored and recorded as a section.
pub open spec fn step(ph: Phase, line: Seq<char>) -> LineOutcome {
    match ph {
        Phase::InCode { language, buffer } => {
            if starts_with(line, fence()) {
                (Phase::Normal, code_block_html(language, buffer), Seq::empty())
            } else {
                (Phase::InCode { language, buffer: buffer + line + seq!['\n'] }, Seq::empty(), Seq::empty())
            }
        },
        _ => {
            let awaiting = ph is AwaitingCaption;
            let close = if awaiting {
                insert_close()
            } else {
                Seq::empty()
            };
            if starts_with(line, fence()) {
                (
                    Phase::InCode { language: fence_language(line), buffer: Seq::empty() },
                    close,
                    Seq::empty(),
                )
            } else if starts_with(line, insert_prefix()) {
                (Phase::AwaitingCaption, insert_html(line), Seq::empty())
            } else if awaiting && starts_with(line, caption_prefix()) {
                (Phase::Normal, caption_html(line), Seq::empty())
            } else {
                let c = content_html(line);
                (Phase::Normal, close + c.0, c.1)
            }
        },
    }
}

/// The state machine run over a document's lines from the start.
pub open spec fn render_lines(lines: Seq<Seq<char>>) -> LineOutcome
    decreases lines.len(),
{
    if lines.len() == 0 {
        (Phase::Normal, Seq::empty(), Seq::empty())
    } else {
        let before = render_lines(lines.drop_last());
        let now = step(before.0, lines.last());
        (now.0, before.1 + now.1, before.2 + now.2)
    }
}

/// The anchor id of a heading text.
pub fn slug(title: &str) -> (r: String)
    ensures
        r@ == slug_spec(title@),
{
    let chars = to_chars(title);
    let mut kept = String::new();
    let mut i: usize = 0;
    while i < chars.len()
        invariant
            i <= chars.len(),
            chars@ == title@,
            kept@ == keep_slug_chars(chars@.subrange(0, i as int)),
        decreases chars.len() - i,
    {
        let c = chars[i];
        assert(chars@.subrange(0, i + 1).drop_last() =~= chars@.subrange(0, i as int));
        if is_alphanumeric(c) || c == ' ' {
            push_char(&mut kept, c);
        }
        i += 1;
    }
    assert(chars@.subrange(0, chars.len() as int) =~= title@);
    snake_case(kept.as_str())
}


/// The rendered body of a document and the sections found in it.
pub struct RenderedBody {
    pub html: String,
    pub sections: Vec<Section>,
}

/// Takes one enclosing paragraph off a fragment, where there is one.
pub fn strip_paragraph_tags(h: &str) -> (r: String)
    ensures
        r@ == strip_paragraph(h@),
{
    let hc = to_chars(h);
    let open_len = to_chars("<p>").len();
    let close_len = to_chars("</p>").len();
    if line_starts_with(&hc, "<p>") && line_ends_with(&hc, "</p>") && close_len <= hc.len()
        && hc.len() - close_len >= open_len {
        string_of_range(&hc, open_len, hc.len() - close_len)
    } else {
        assert(hc@.subrange(0, hc@.len() as int) =~= h@);
        string_of_range(&hc, 0, hc.len())
    }
}

/// Appends a closed code block.
fn emit_code_block(language: &Option<String>, buffer: &String, out: &mut String)
    ensures
        final(out)@ == old(out)@ + code_block_html(opt_view(*language), buffer@),
{
    let highlight = match language {
        Some(l) => {
            let lc = to_chars(l.as_str());
            line_starts_with(&lc, "GDScript")
        },
        None => false,
    };
    let highlighted = if highlight {
        highlight_gdscript(buffer.as_str())
    } else {
        None
    };
    out.append("<pre>");
    match highlighted {
        Some(h) => {
            let processed = post_process(h.as_str());
            out.append(processed.as_str());
        },
        None => {
            out.append(buffer.as_str());
        },
    }
    out.append("</pre>");
}

/// Appends the markup of an insert line.
fn emit_insert(chars: &Vec<char>, out: &mut String)
    requires
        starts_with(chars@, insert_prefix()),
    ensures
        final(out)@ == old(out)@ + insert_html(chars@),
{
    let skip: usize;
    if line_starts_with(chars, "!insert bg ") {
        out.append("</div><div class='post-insert with-background'><div class='insert-content'><div class='insert-content-inner'>");
        skip = to_chars("!insert bg ").len();
    } else {
        out.append("</div><div class='post-insert'><div class='insert-content'><div class='insert-content-inner'>");
        skip = to_chars("!insert ").len();
    }
    let tail = string_of_range(chars, skip, chars.len());
    let converted = markdown_html(tail.as_str());
    let stripped = strip_paragraph_tags(converted.as_str());
    out.append(stripped.as_str());
}

/// Appends the markup of a line that no directive claims, and the section
/// it opens, if any.
fn emit_content(line: &str, chars: &Vec<char>, out: &mut String, sections: &mut Vec<Section>)
    requires
        chars@ == line@,
    ensures
        final(out)@ == old(out)@ + content_html(line@).0,
        section_views(final(sections)@) == section_views(old(sections)@) + content_html(line@).1,
{
    if line_starts_with(chars, "!html ") {
        let skip = to_chars("!html ").len();
        let tail = string_of_range(chars, skip, chars.len());
        out.append(tail.as_str());
        assert(section_views(sections@) =~= section_views(old(sections)@) + Seq::empty());
        return;
    }
    let g = gfm_html(line);
    let gc = to_chars(g.as_str());
    let open_len = to_chars("<h2>").len();
    let close_len = to_chars("</h2>").len();
    if line_starts_with(&gc, "<h2>") && line_ends_with(&gc, "</h2>") && close_len <= gc.len()
        && gc.len() - close_len >= open_len {
        let title = string_of_range(&gc, open_len, gc.len() - close_len);
        let id = slug(title.as_str());
        out.append("\n                <h2 id='");
        out.append(id.as_str());
        out.append("'>");
        out.append(title.as_str());
        out.append("<a href='#");
        out.append(id.as_str());
        out.append("'><div class='section-link' alt='Section link'>\n                </div></a></h2>");
        let ghost t = title@;
        sections.push(Section { title, slug: id });
        assert(section_views(sections@) =~= section_views(old(sections)@) + seq![(t, slug_spec(t))]);
    } else {
        out.append(g.as_str());
        assert(section_views(sections@) =~= section_views(old(sections)@) + Seq::empty());
    }
}

/// Feeds one line to the state machine: the HTML goes to `out`, a heading's
/// section to `sections`, and the next state is returned.
pub fn render_line(state: RenderState, line: &str, out: &mut String, sections: &mut Vec<Section>) -> (next: RenderState)
    ensures
        next@ == step(state@, line@).0,
        final(out)@ == old(out)@ + step(state@, line@).1,
        section_views(final(sections)@) == section_views(old(sections)@) + step(state@, line@).2,
{
    let ghost ph = state@;
    let chars = to_chars(line);
    let is_fence = line_starts_with(&chars, "```");
    match state {
        RenderState::InCodeBlock { language, buffer } => {
            assert(section_views(sections@) =~= section_views(sections@) + Seq::empty());
            if is_fence {
                emit_code_block(&language, &buffer, out);
                RenderState::Normal
            } else {
                let mut buffer = buffer;
                let ghost old_buffer = buffer@;
                buffer.append(line);
                push_char(&mut buffer, '\n');
                assert(buffer@ =~= old_buffer + line@ + seq!['\n']);
                assert(out@ =~= out@ + Seq::<char>::empty());
                RenderState::InCodeBlock { language, buffer }
            }
        },
        _ => {
            let awaiting = match state {
                RenderState::AwaitingCaption => true,
                _ => false,
            };
            assert(awaiting == (ph is AwaitingCaption));
            if is_fence {
                if awaiting {
                    out.append("</div></div></div><div class='post-text'>\n");
                } else {
                    assert(out@ =~= out@ + Seq::<char>::empty());
                }
                assert(section_views(sections@) =~= section_views(sections@) + Seq::empty());
                let marker_len = to_chars("```").len();
                let language = if chars.len() > marker_len {
                    Some(string_of_range(&chars, marker_len, chars.len()))
                } else {
                    None
                };
                let buffer = String::new();
                assert(buffer@ =~= Seq::<char>::empty());
                RenderState::InCodeBlock { language, buffer }
            } else if line_starts_with(&chars, "!insert ") {
                emit_insert(&chars, out);
                assert(section_views(sections@) =~= section_views(sections@) + Seq::empty());
                RenderState::AwaitingCaption
            } else if awaiting && line_starts_with(&chars, "!image_subtitle ") {
                let skip = to_chars("!image_subtitle ").len();
                let tail = string_of_range(&chars, skip, chars.len());
                out.append("<br><div class='insert-description'><em>");
                out.append(tail.as_str());
                out.append("</em></div></div></div></div><div class='post-text'>\n");
                assert(section_views(sections@) =~= section_views(sections@) + Seq::empty());
                RenderState::Normal
            } else {
                let ghost before = out@;
                if awaiting {
                    out.append("</div></div></div><div class='post-text'>\n");
                }
                let ghost mid = out@;
                emit_content(line, &chars, out, sections);
                proof {
                    let close = if awaiting { insert_close() } else { Seq::empty() };
                    assert(mid =~= before + close);
                    assert(out@ =~= before + (close + content_html(line@).0));
                }
                RenderState::Normal
            }
        },
    }
}

/// Renders a document's lines into its body and its sections, in one pass
/// from the `Normal` state.
pub fn render_body(lines: &Vec<String>) -> (r: RenderedBody)
    ensures
        r.html@ == render_lines(views(lines@)).1,
        section_views(r.sections@) == render_lines(views(lines@)).2,
{
    let mut html = String::new();
    let mut sections: Vec<Section> = Vec::new();
    let mut state = RenderState::Normal;
    let mut i: usize = 0;
    assert(views(lines@).subrange(0, 0) =~= Seq::<Seq<char>>::empty());
    assert(section_views(sections@) =~= Seq::empty());
    while i < lines.len()
        invariant
            i <= lines.len(),
            state@ == render_lines(views(lines@).subrange(0, i as int)).0,
            html@ == render_lines(views(lines@).subrange(0, i as int)).1,
            section_views(sections@) == render_lines(views(lines@).subrange(0, i as int)).2,
        decreases lines.len() - i,
    {
        let ghost upto = views(lines@).subrange(0, i + 1);
        assert(upto.drop_last() =~= views(lines@).subrange(0, i as int));
        assert(upto.last() == lines@[i as int]@);
        state = render_line(state, lines[i].as_str(), &mut html, &mut sections);
        i += 1;
    }
    assert(views(lines@).subrange(0, lines.len() as int) =~= views(lines@));
    RenderedBody { html, sections }
}


/// A line that no directive claims and that the converter does not turn
/// into a level-2 heading.
pub open spec fn is_plain_line(l: Seq<char>) -> bool {
    &&& !starts_with(l, fence())
    &&& !starts_with(l, insert_prefix())
    &&& !starts_with(l, caption_prefix())
    &&& !starts_with(l, html_prefix())
    &&& !is_heading(gfm_html_of(l))
}

/// The converter's output for each line, concatenated in order.
pub open spec fn concat_converted(lines: Seq<Seq<char>>) -> Seq<char>
    decreases lines.len(),
{
    if lines.len() == 0 {
        Seq::empty()
    } else {
        concat_converted(lines.drop_last()) + gfm_html_of(lines.last())
    }
}

/// Code lines joined, each followed by a newline.
pub open spec fn joined_lines(lines: Seq<Seq<char>>) -> Seq<char>
    decreases lines.len(),
{
    if lines.len() == 0 {
        Seq::empty()
    } else {
        joined_lines(lines.drop_last()) + lines.last() + seq!['\n']
    }
}

/// A document of plain lines renders to the converter's output for each
/// line, concatenated in order, and yields no section.
pub proof fn lemma_plain_document(lines: Seq<Seq<char>>)
    requires
        forall|i: int| 0 <= i < lines.len() ==> is_plain_line(#[trigger] lines[i]),
    ensures
        render_lines(lines).0 == Phase::Normal,
        render_lines(lines).1 == concat_converted(lines),
        render_lines(lines).2 == Seq::<(Seq<char>, Seq<char>)>::empty(),
    decreases lines.len(),
{
    if lines.len() > 0 {
        let init = lines.drop_last();
        assert forall|i: int| 0 <= i < init.len() implies is_plain_line(#[trigger] init[i]) by {
            assert(init[i] == lines[i]);
        }
        lemma_plain_document(init);
        assert(is_plain_line(lines[lines.len() - 1]));
        let before = render_lines(init);
        assert(before.1 + (Seq::<char>::empty() + gfm_html_of(lines.last())) =~= before.1 + gfm_html_of(lines.last()));
        assert(before.2 + Seq::<(Seq<char>, Seq<char>)>::empty() =~= before.2);
    }
}

/// A fence with no language tag that is highlighted, code lines, and a
/// closing fence render to the code lines verbatim in one preformatted
/// block, with no section.
pub proof fn lemma_untagged_code_block(open: Seq<char>, code: Seq<Seq<char>>, close: Seq<char>)
    requires
        starts_with(open, fence()),
        !is_highlighted(fence_language(open)),
        forall|i: int| 0 <= i < code.len() ==> !starts_with(#[trigger] code[i], fence()),
        starts_with(close, fence()),
    ensures
        render_lines(seq![open] + code + seq![close]).1 == "<pre>"@ + joined_lines(code) + "</pre>"@,
        render_lines(seq![open] + code + seq![close]).2 == Seq::<(Seq<char>, Seq<char>)>::empty(),
{
    lemma_code_lines(open, code, code.len() as int);
    let all = seq![open] + code + seq![close];
    assert(all.drop_last() =~= seq![open] + code.subrange(0, code.len() as int));
    assert(code.subrange(0, code.len() as int) =~= code);
    assert(all.last() == close);
    assert(Seq::<char>::empty() + ("<pre>"@ + joined_lines(code) + "</pre>"@) =~= "<pre>"@ + joined_lines(code) + "</pre>"@);
    assert(Seq::<(Seq<char>, Seq<char>)>::empty() + Seq::<(Seq<char>, Seq<char>)>::empty() =~= Seq::<(Seq<char>, Seq<char>)>::empty());
}

/// After an untagged fence, each code line is buffered verbatim and nothing
/// is written.
proof fn lemma_code_lines(open: Seq<char>, code: Seq<Seq<char>>, k: int)
    requires
        starts_with(open, fence()),
        !is_highlighted(fence_language(open)),
        forall|i: int| 0 <= i < code.len() ==> !starts_with(#[trigger] code[i], fence()),
        0 <= k <= code.len(),
    ensures
        render_lines(seq![open] + code.subrange(0, k)) == (
            Phase::InCode { language: fence_language(open), buffer: joined_lines(code.subrange(0, k)) },
            Seq::<char>::empty(),
            Seq::<(Seq<char>, Seq<char>)>::empty(),
        ),
    decreases k,
{
    let doc = seq![open] + code.subrange(0, k);
    if k == 0 {
        assert(doc.drop_last() =~= Seq::<Seq<char>>::empty());
        assert(doc.last() == open);
        assert(code.subrange(0, 0) =~= Seq::<Seq<char>>::empty());
        assert(render_lines(Seq::<Seq<char>>::empty()).0 == Phase::Normal);
        assert(joined_lines(code.subrange(0, 0)) == Seq::<char>::empty());
        assert(Seq::<char>::empty() + Seq::<char>::empty() =~= Seq::<char>::empty());
        assert(Seq::<(Seq<char>, Seq<char>)>::empty() + Seq::<(Seq<char>, Seq<char>)>::empty() =~= Seq::<(Seq<char>, Seq<char>)>::empty());
    } else {
        lemma_code_lines(open, code, k - 1);
        assert(doc.drop_last() =~= seq![open] + code.subrange(0, k - 1));
        assert(doc.last() == code[k - 1]);
        assert(code.subrange(0, k).drop_last() =~= code.subrange(0, k - 1));
        assert(code.subrange(0, k).last() == code[k - 1]);
        assert(!starts_with(code[k - 1], fence()));
        let j = joined_lines(code.subrange(0, k - 1));
        assert(joined_lines(code.subrange(0, k)) == j + code[k - 1] + seq!['\n']);
        assert(step(Phase::InCode { language: fence_language(open), buffer: j }, code[k - 1]).0 == Phase::InCode {
            language: fence_language(open),
            buffer: j + code[k - 1] + seq!['\n'],
        });
        assert(Seq::<char>::empty() + Seq::<char>::empty() =~= Seq::<char>::empty());
        assert(Seq::<(Seq<char>, Seq<char>)>::empty() + Seq::<(Seq<char>, Seq<char>)>::empty() =~= Seq::<(Seq<char>, Seq<char>)>::empty());
    }
}

/// The same heading line, met outside a code block in any state, yields the
/// same section: identical headings get identical anchor ids, with no
/// renaming of the later one.
pub proof fn lemma_same_heading_same_slug(first: Phase, second: Phase, line: Seq<char>)
    requires
        !(first is InCode),
        !(second is InCode),
        !starts_with(line, fence()),
        !starts_with(line, insert_prefix()),
        !starts_with(line, caption_prefix()),
        !starts_with(line, html_prefix()),
        is_heading(gfm_html_of(line)),
    ensures
        step(first, line).2 == step(second, line).2,
        step(first, line).2 == seq![
            (heading_title(gfm_html_of(line)), slug_spec(heading_title(gfm_html_of(line)))),
        ],
{
}

/// Before snake-casing, a slug keeps only letters, digits and spaces, and
/// a heading text made only of those is kept whole: punctuation such as a
/// colon never reaches the anchor id.
pub proof fn lemma_slug_keeps_only_slug_chars(s: Seq<char>)
    ensures
        forall|j: int| 0 <= j < keep_slug_chars(s).len() ==> slug_char(#[trigger] keep_slug_chars(s)[j]),
        (forall|j: int| 0 <= j < s.len() ==> slug_char(#[trigger] s[j])) ==> keep_slug_chars(s) == s,
    decreases s.len(),
{
    if s.len() > 0 {
        let init = s.drop_last();
        lemma_slug_keeps_only_slug_chars(init);
        let k = keep_slug_chars(s);
        let ki = keep_slug_chars(init);
        assert forall|j: int| 0 <= j < k.len() implies slug_char(#[trigger] k[j]) by {
            if j < ki.len() {
                assert(k[j] == ki[j]);
            }
        }
        if forall|j: int| 0 <= j < s.len() ==> slug_char(#[trigger] s[j]) {
            assert forall|j: int| 0 <= j < init.len() implies slug_char(#[trigger] init[j]) by {
                assert(init[j] == s[j]);
            }
            assert(slug_char(s[s.len() - 1]));
            assert(init.push(s.last()) =~= s);
        }
    }
}

/// Unfolds two steps of the state machine at position `i`.
proof fn lemma_two_steps(lines: Seq<Seq<char>>, i: int)
    requires
        0 <= i,
        i + 2 <= lines.len(),
    ensures
        ({
            let before = render_lines(lines.subrange(0, i));
            let first = step(before.0, lines[i]);
            let second = step(first.0, lines[i + 1]);
            render_lines(lines.subrange(0, i + 2)) == (
                second.0,
                before.1 + first.1 + second.1,
                before.2 + first.2 + second.2,
            )
        }),
{
    let two = lines.subrange(0, i + 2);
    let one = lines.subrange(0, i + 1);
    assert(two.drop_last() =~= one);
    assert(two.last() == lines[i + 1]);
    assert(one.drop_last() =~= lines.subrange(0, i));
    assert(one.last() == lines[i]);
    let before = render_lines(lines.subrange(0, i));
    let first = step(before.0, lines[i]);
    assert(render_lines(one) == (first.0, before.1 + first.1, before.2 + first.2));
    assert(render_lines(two) == (
        step(first.0, lines[i + 1]).0,
        render_lines(one).1 + step(first.0, lines[i + 1]).1,
        render_lines(one).2 + step(first.0, lines[i + 1]).2,
    ));
}

/// An insert line followed by a caption line, anywhere outside a code
/// block, adds the insert's wrappers and content, then the caption with the
/// wrappers closed, and leaves the machine in the normal state for the next
/// line.
pub proof fn lemma_insert_then_caption(lines: Seq<Seq<char>>, i: int)
    requires
        0 <= i,
        i + 2 <= lines.len(),
        !(render_lines(lines.subrange(0, i)).0 is InCode),
        starts_with(lines[i], insert_prefix()),
        starts_with(lines[i + 1], caption_prefix()),
    ensures
        render_lines(lines.subrange(0, i + 2)).0 == Phase::Normal,
        render_lines(lines.subrange(0, i + 2)).1 == render_lines(lines.subrange(0, i)).1
            + insert_html(lines[i]) + caption_html(lines[i + 1]),
        render_lines(lines.subrange(0, i + 2)).2 == render_lines(lines.subrange(0, i)).2,
{
    lemma_two_steps(lines, i);
    reveal_strlit("```");
    reveal_strlit("!insert ");
    reveal_strlit("!image_subtitle ");
    assert(lines[i].subrange(0, 8)[0] == lines[i][0]);
    assert(lines[i + 1].subrange(0, 16)[0] == lines[i + 1][0]);
    assert(lines[i + 1].subrange(0, 16)[2] == lines[i + 1][2]);
    assert(lines[i][0] == '!');
    assert(lines[i + 1][0] == '!');
    assert(lines[i + 1][2] == 'm');
    assert(lines[i].subrange(0, 3)[0] == lines[i][0]);
    assert(lines[i + 1].subrange(0, 3)[0] == lines[i + 1][0]);
    assert(lines[i + 1].subrange(0, 8)[2] == lines[i + 1][2]);
    assert(!starts_with(lines[i], fence()));
    assert(!starts_with(lines[i + 1], fence()));
    assert(!starts_with(lines[i + 1], insert_prefix()));
    let e = Seq::<(Seq<char>, Seq<char>)>::empty();
    let b = render_lines(lines.subrange(0, i)).2;
    assert(b + e + e =~= b);
}

/// An insert line followed by a line that is neither a fence, an insert
/// nor a caption, anywhere outside a code block, closes the wrappers before
/// that line, which is then rendered as usual.
pub proof fn lemma_insert_then_plain(lines: Seq<Seq<char>>, i: int)
    requires
        0 <= i,
        i + 2 <= lines.len(),
        !(render_lines(lines.subrange(0, i)).0 is InCode),
        starts_with(lines[i], insert_prefix()),
        !starts_with(lines[i + 1], fence()),
        !starts_with(lines[i + 1], insert_prefix()),
        !starts_with(lines[i + 1], caption_prefix()),
    ensures
        render_lines(lines.subrange(0, i + 2)).0 == Phase::Normal,
        render_lines(lines.subrange(0, i + 2)).1 == render_lines(lines.subrange(0, i)).1
            + insert_html(lines[i]) + (insert_close() + content_html(lines[i + 1]).0),
        render_lines(lines.subrange(0, i + 2)).2 == render_lines(lines.subrange(0, i)).2
            + content_html(lines[i + 1]).1,
{
    lemma_two_steps(lines, i);
    reveal_strlit("```");
    reveal_strlit("!insert ");
    assert(lines[i].subrange(0, 8)[0] == lines[i][0]);
    assert(lines[i][0] == '!');
    assert(lines[i].subrange(0, 3)[0] == lines[i][0]);
    assert(!starts_with(lines[i], fence()));
    let e = Seq::<(Seq<char>, Seq<char>)>::empty();
    let b = render_lines(lines.subrange(0, i)).2;
    assert(b + e + content_html(lines[i + 1]).1 =~= b + content_html(lines[i + 1]).1);
}
} // verus!

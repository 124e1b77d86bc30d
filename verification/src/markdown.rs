//! Markdown transformation: the body is cut at fence lines into prose and
//! code segments; prose is rendered to HTML by pulldown-cmark, each code
//! segment is re-rendered through syntect keyed by the fence's language tag
//! and wrapped in a labeled code container.

use vstd::prelude::*;

verus! {

use vstd::string::StrSliceExecFns;
use crate::text::{
    spec_split,
    spec_join,
    spec_trim,
    spec_trim_start,
    spec_find_sub,
    starts_with,
    chars_of,
    string_of,
    sub_chars,
    clone_chars,
    match_at,
    find_sub,
    split_char,
    join_char,
    trim_chars,
    trim_start_chars,
    extend_chars,
};
use crate::post::{is_fence_line, fence_line};
use crate::text::is_match_at;

/// The HTML that pulldown-cmark renders for markdown text, with
/// strikethrough, tables, footnotes and task lists enabled.
pub uninterp spec fn html_of(s: Seq<char>) -> Seq<char>;

/// The class-annotated HTML that syntect renders for a code block under
/// the given language token, using the bundled syntax definitions.
pub uninterp spec fn highlight_of(code: Seq<char>, lang: Seq<char>) -> Seq<char>;

/// Relies on pulldown_cmark's `Parser::new_ext` and `html::push_html`: the
/// rendering is a pure function of the text and the fixed option set.
#[verifier::external_body]
fn markdown_to_html(s: &str) -> (r: String)
    ensures
        r@ == html_of(s@),
{
    let mut options = pulldown_cmark::Options::empty();
    options.insert(pulldown_cmark::Options::ENABLE_STRIKETHROUGH);
    options.insert(pulldown_cmark::Options::ENABLE_TABLES);
    options.insert(pulldown_cmark::Options::ENABLE_FOOTNOTES);
    options.insert(pulldown_cmark::Options::ENABLE_TASKLISTS);
    let parser = pulldown_cmark::Parser::new_ext(s, options);
    let mut out = String::new();
    pulldown_cmark::html::push_html(&mut out, parser);
    out
}

/// Relies on syntect's `SyntaxSet` and `ClassedHTMLGenerator`: a syntax is
/// chosen for the token (by token, then by extension, else plain text) from
/// the defaults compiled into the crate, so the result is a function of the
/// code and the token alone.
#[verifier::external_body]
fn highlight_code(code: &str, lang: &str) -> (r: String)
    ensures
        r@ == highlight_of(code@, lang@),
{
    let ss = syntect::parsing::SyntaxSet::load_defaults_newlines();
    let syntax = ss
        .find_syntax_by_token(lang)
        .or_else(|| ss.find_syntax_by_extension(lang))
        .unwrap_or_else(|| ss.find_syntax_plain_text());
    let mut generator = syntect::html::ClassedHTMLGenerator::new_with_class_style(
        syntax,
        &ss,
        syntect::html::ClassStyle::Spaced,
    );
    for line in syntect::util::LinesWithEndings::from(code) {
        let _ = generator.parse_html_for_line_which_includes_newline(line);
    }
    generator.finalize()
}

/// Whitespace for the purpose of stripping a leading header block.
pub open spec fn is_ws_char(c: char) -> bool {
    c == ' ' || c == '\t' || c == '\r' || c == '\n'
}

/// `s` without leading whitespace, newlines included.
pub open spec fn spec_skip_ws(s: Seq<char>) -> Seq<char>
    decreases s.len(),
{
    if s.len() > 0 && is_ws_char(s[0]) {
        spec_skip_ws(s.drop_first())
    } else {
        s
    }
}

proof fn lemma_skip_ws_range(s: Seq<char>, k: int)
    requires
        0 <= k <= s.len(),
        forall|j: int| 0 <= j < k ==> is_ws_char(s[j]),
        k == s.len() || !is_ws_char(s[k]),
    ensures
        spec_skip_ws(s) =~= s.subrange(k, s.len() as int),
    decreases s.len(),
{
    if k == 0 {
        assert(s.subrange(0, s.len() as int) =~= s);
    } else {
        lemma_skip_ws_range(s.drop_first(), k - 1);
        assert(s.drop_first().subrange(k - 1, s.len() - 1) =~= s.subrange(k, s.len() as int));
    }
}

/// `s` without leading whitespace, as a vector.
fn skip_ws(s: &Vec<char>) -> (out: Vec<char>)
    ensures
        out@ == spec_skip_ws(s@),
{
    let mut lo: usize = 0;
    while lo < s.len() && (s[lo] == ' ' || s[lo] == '\t' || s[lo] == '\r' || s[lo] == '\n')
        invariant
            lo <= s.len(),
            forall|j: int| 0 <= j < lo ==> is_ws_char(s@[j]),
        decreases s.len() - lo,
    {
        lo = lo + 1;
    }
    proof {
        lemma_skip_ws_range(s@, lo as int);
    }
    sub_chars(s, lo, s.len())
}

/// The text a rendering works on: a leading `---`-delimited header block,
/// when present and closed, is removed along with following whitespace.
pub open spec fn spec_render_input(s: Seq<char>) -> Seq<char> {
    if starts_with(s, seq!['-', '-', '-']) {
        let rest = s.skip(3);
        match spec_find_sub(rest, seq!['-', '-', '-'], 0) {
            Some(k) => spec_skip_ws(rest.skip(k + 3)),
            None => s,
        }
    } else {
        s
    }
}

/// The index of the next fence line at or after `i`, or the line count.
pub open spec fn spec_next_fence(lines: Seq<Seq<char>>, i: int) -> int
    decreases lines.len() - i,
    when 0 <= i <= lines.len()
{
    if i >= lines.len() {
        i
    } else if is_fence_line(lines[i]) {
        i
    } else {
        spec_next_fence(lines, i + 1)
    }
}

pub proof fn lemma_next_fence(lines: Seq<Seq<char>>, i: int)
    requires
        0 <= i <= lines.len(),
    ensures
        i <= spec_next_fence(lines, i) <= lines.len(),
    decreases lines.len() - i,
{
    if i < lines.len() && !is_fence_line(lines[i]) {
        lemma_next_fence(lines, i + 1);
    }
}

/// The language token of a fence line: what follows the backticks, trimmed.
pub open spec fn fence_info(l: Seq<char>) -> Seq<char>
    recommends
        is_fence_line(l),
{
    spec_trim(spec_trim_start(l).skip(3))
}

/// The text of a code block: its lines, each closed with a newline.
pub open spec fn spec_code_text(ls: Seq<Seq<char>>) -> Seq<char>
    decreases ls.len(),
{
    if ls.len() == 0 {
        Seq::<char>::empty()
    } else {
        ls[0] + seq!['\n'] + spec_code_text(ls.drop_first())
    }
}

/// The rendered form of one code block: the highlighted code inside a
/// container labeled with the language token.
pub open spec fn spec_code_html(code: Seq<char>, info: Seq<char>) -> Seq<char> {
    "<pre class=\"highlight\"><code class=\"language-"@ + info + "\">"@ + highlight_of(code, info)
        + "</code></pre>"@
}

/// Every rendered code block carries its language marker: the text
/// `language-` followed by the fence's language token occurs in the block's
/// rendered form, whatever the highlighter returned for the code.
pub proof fn lemma_code_block_marker(code: Seq<char>, info: Seq<char>)
    ensures
        exists|k: int| is_match_at(spec_code_html(code, info), "language-"@ + info, k),
{
    reveal_strlit("<pre class=\"highlight\"><code class=\"language-");
    reveal_strlit("language-");
    let head = "<pre class=\"highlight\"><code class=\"language-"@;
    let html = spec_code_html(code, info);
    let marker = "language-"@ + info;
    let k = head.len() - 9;
    assert(html.subrange(k as int, k + marker.len()) =~= marker);
    assert(is_match_at(html, marker, k as int));
}

/// The rendering of the lines from `i` on, starting in prose state: prose
/// up to the next fence, then a code block up to the fence after it, and
/// so on; a fence left unclosed at the end closes its block there.
pub open spec fn spec_render_from(lines: Seq<Seq<char>>, i: int) -> Seq<char>
    decreases lines.len() - i,
    when 0 <= i <= lines.len()
    via spec_render_from_dec
{
    if i >= lines.len() {
        Seq::<char>::empty()
    } else {
        let j = spec_next_fence(lines, i);
        let prose = html_of(spec_join(lines.subrange(i, j), '\n'));
        if j >= lines.len() {
            prose
        } else {
            let k = spec_next_fence(lines, j + 1);
            let chunk = spec_code_html(
                spec_code_text(lines.subrange(j + 1, k)),
                fence_info(lines[j]),
            );
            if k >= lines.len() {
                prose + chunk
            } else {
                prose + chunk + spec_render_from(lines, k + 1)
            }
        }
    }
}

#[via_fn]
proof fn spec_render_from_dec(lines: Seq<Seq<char>>, i: int) {
    lemma_next_fence(lines, i);
    let j = spec_next_fence(lines, i);
    if j < lines.len() {
        lemma_next_fence(lines, j + 1);
    }
}

/// What rendering a body yields: the header block stripped, then the lines
/// rendered segment by segment.
pub open spec fn spec_render(s: Seq<char>) -> Seq<char> {
    spec_render_from(spec_split(spec_render_input(s), '\n'), 0)
}

/// The index of the next fence line at or after `from`.
#[verifier::loop_isolation(false)]
fn next_fence(lines: &Vec<Vec<char>>, from: usize) -> (j: usize)
    requires
        from <= lines@.len(),
    ensures
        j as int == spec_next_fence(lines.deep_view(), from as int),
        from <= j <= lines@.len(),
        j < lines@.len() ==> is_fence_line(lines.deep_view()[j as int]),
{
    proof {
        crate::text::lemma_chars_deep_view(lines);
        lemma_next_fence(lines.deep_view(), from as int);
    }
    let mut k: usize = from;
    while k < lines.len()
        invariant
            from <= k <= lines@.len(),
            spec_next_fence(lines.deep_view(), from as int) == spec_next_fence(
                lines.deep_view(),
                k as int,
            ),
        decreases lines@.len() - k,
    {
        if fence_line(&lines[k]) {
            return k;
        }
        k = k + 1;
    }
    k
}

/// The lines from `from` (inclusive) to `to` (exclusive), copied.
fn take_lines(lines: &Vec<Vec<char>>, from: usize, to: usize) -> (r: Vec<Vec<char>>)
    requires
        from <= to <= lines@.len(),
    ensures
        r.deep_view() == lines.deep_view().subrange(from as int, to as int),
{
    proof {
        crate::text::lemma_chars_deep_view(lines);
    }
    let mut r: Vec<Vec<char>> = Vec::new();
    let mut i: usize = from;
    proof {
        assert(r.deep_view() =~= lines.deep_view().subrange(from as int, from as int));
    }
    while i < to
        invariant
            from <= i <= to <= lines@.len(),
            lines.deep_view().len() == lines@.len(),
            forall|x: int| 0 <= x < lines@.len() ==> lines.deep_view()[x] == lines@[x]@,
            r.deep_view() == lines.deep_view().subrange(from as int, i as int),
        decreases to - i,
    {
        let ghost dv0 = r.deep_view();
        r.push(clone_chars(&lines[i]));
        i = i + 1;
        proof {
            assert(r.deep_view() =~~= dv0.push(lines.deep_view()[i - 1]));
            assert(r.deep_view() =~= lines.deep_view().subrange(from as int, i as int));
        }
    }
    r
}

/// The text of a code block from its lines.
#[verifier::loop_isolation(false)]
fn code_text(ls: &Vec<Vec<char>>) -> (r: Vec<char>)
    ensures
        r@ == spec_code_text(ls.deep_view()),
{
    let ghost dv = ls.deep_view();
    proof {
        crate::text::lemma_chars_deep_view(ls);
        assert(dv.skip(0) =~= dv);
    }
    let mut out: Vec<char> = Vec::new();
    let mut i: usize = 0;
    while i < ls.len()
        invariant
            0 <= i <= ls@.len(),
            spec_code_text(dv) =~= out@ + spec_code_text(dv.skip(i as int)),
        decreases ls@.len() - i,
    {
        let ghost tail = dv.skip(i as int);
        proof {
            assert(tail.drop_first() =~= dv.skip(i + 1));
            assert(tail[0] == ls@[i as int]@);
        }
        extend_chars(&mut out, &ls[i]);
        out.push('\n');
        i = i + 1;
    }
    proof {
        assert(dv.skip(i as int) =~= Seq::<Seq<char>>::empty());
        assert(out@ + Seq::<char>::empty() =~= out@);
    }
    out
}

/// The markdown processor: converts a document body to HTML, intercepting
/// fenced code blocks for syntax highlighting.
#[derive(Debug)]
pub struct MarkdownProcessor {}

impl MarkdownProcessor {
    /// A processor with the fixed option set.
    pub fn new() -> (p: MarkdownProcessor) {
        MarkdownProcessor {  }
    }

    /// Renders a body to HTML. A leading delimited header block, when
    /// present, is skipped first.
    #[verifier::loop_isolation(false)]
    pub fn render(&self, content: &str) -> (r: String)
        ensures
            r@ == spec_render(content@),
    {
        let chars = chars_of(content);
        let dashes = chars_of("---");
        proof {
            reveal_strlit("---");
            assert(dashes@ =~= seq!['-', '-', '-']);
        }
        let work: Vec<char> = if match_at(&chars, &dashes, 0) {
            let rest = sub_chars(&chars, 3, chars.len());
            proof {
                assert(rest@ =~= chars@.skip(3));
            }
            match find_sub(&rest, &dashes, 0) {
                Some(k) => {
                    let after = sub_chars(&rest, k + 3, rest.len());
                    proof {
                        assert(after@ =~= rest@.skip(k + 3));
                    }
                    skip_ws(&after)
                },
                None => chars,
            }
        } else {
            chars
        };
        proof {
            assert(work@ == spec_render_input(content@));
        }
        let lines = split_char(&work, '\n');
        let ghost dv = lines.deep_view();
        proof {
            crate::text::lemma_chars_deep_view(&lines);
        }
        let mut out: Vec<char> = Vec::new();
        let mut i: usize = 0;
        proof {
            assert(out@ + spec_render_from(dv, 0) =~= spec_render_from(dv, 0));
        }
        while i < lines.len()
            invariant
                0 <= i <= lines@.len(),
                spec_render_from(dv, 0) =~= out@ + spec_render_from(dv, i as int),
            decreases lines@.len() - i,
        {
            let ghost i0 = i as int;
            let j = next_fence(&lines, i);
            let prose_lines = take_lines(&lines, i, j);
            let prose_joined = join_char(&prose_lines, '\n');
            let prose_text = string_of(&prose_joined);
            let html = markdown_to_html(prose_text.as_str());
            let html_chars = chars_of(html.as_str());
            extend_chars(&mut out, &html_chars);
            if j >= lines.len() {
                i = j;
                proof {
                    assert(spec_render_from(dv, i0) =~= html_chars@ + spec_render_from(
                        dv,
                        i as int,
                    ));
                }
            } else {
                let fl = trim_start_chars(&lines[j]);
                proof {
                    assert(fl@ == spec_trim_start(dv[j as int]));
                    assert(is_fence_line(dv[j as int]));
                    assert(fl@.len() >= 3);
                }
                let fln = fl.len();
                let info_raw = sub_chars(&fl, 3, fln);
                let info = trim_chars(&info_raw);
                proof {
                    assert(info_raw@ =~= spec_trim_start(dv[j as int]).skip(3));
                    assert(info@ == fence_info(dv[j as int]));
                }
                let k = next_fence(&lines, j + 1);
                let code_lines = take_lines(&lines, j + 1, k);
                let code = code_text(&code_lines);
                let code_str = string_of(&code);
                let info_str = string_of(&info);
                let high = highlight_code(code_str.as_str(), info_str.as_str());
                let mut block: Vec<char> = chars_of("<pre class=\"highlight\"><code class=\"language-");
                extend_chars(&mut block, &info);
                let mid = chars_of("\">");
                extend_chars(&mut block, &mid);
                let high_chars = chars_of(high.as_str());
                extend_chars(&mut block, &high_chars);
                let tail = chars_of("</code></pre>");
                extend_chars(&mut block, &tail);
                proof {
                    assert(block@ =~= spec_code_html(code@, info@));
                }
                extend_chars(&mut out, &block);
                if k < lines.len() {
                    i = k + 1;
                    proof {
                        assert(spec_render_from(dv, i0) =~= html_chars@ + block@
                            + spec_render_from(dv, i as int));
                    }
                } else {
                    i = k;
                    proof {
                        assert(spec_render_from(dv, i as int) =~= Seq::<char>::empty());
                        assert(spec_render_from(dv, i0) =~= html_chars@ + block@);
                    }
                }
            }
        }
        proof {
            assert(spec_render_from(dv, i as int) =~= Seq::<char>::empty());
            assert(out@ =~= spec_render_from(dv, 0));
        }
        string_of(&out)
    }
}

impl Default for MarkdownProcessor {
    /// The same processor as [`MarkdownProcessor::new`].
    fn default() -> (p: MarkdownProcessor) {
        MarkdownProcessor::new()
    }
}

} // verus!

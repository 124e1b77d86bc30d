//! Documents: metadata validation, read-time derivation, and asset-path
//! rewriting. A content file's parsed header becomes a `PostMetadata` through
//! a validation pass that fills defaults and rejects missing or malformed
//! required fields.

use vstd::prelude::*;

verus! {

use vstd::string::StrSliceExecFns;
use vstd::string::StringExecFns;
use crate::errors::Error;
use crate::frontmatter::{
    RawMetadata,
    spec_frontmatter_ok,
    spec_header_lines,
    spec_body,
    spec_header_valid,
    spec_scalar_field,
    spec_list_field,
    split_frontmatter,
    parse_header,
};
use crate::markdown::{MarkdownProcessor, spec_render};
use crate::slug::{spec_slugify, is_valid_slug, slugify};
use crate::date::is_valid_date;
use crate::text::{
    is_blank_char,
    spec_trim_start,
    spec_split,
    spec_replace,
    total_len,
    starts_with,
    chars_of,
    string_of,
    blank_char,
    match_at,
    split_char,
    replace_all,
    extend_chars,
};
use crate::config::{Config, spec_join_path, join_path};

/// The metadata of one document.
#[derive(Debug)]
pub struct PostMetadata {
    pub title: String,
    pub date: String,
    pub author: String,
    pub tags: Vec<String>,
    pub preview: String,
    pub slug: String,
    pub read_time: u32,
}

/// One document: metadata, the raw body, and the rendered body.
#[derive(Debug)]
pub struct Post {
    pub metadata: PostMetadata,
    pub content: String,
    pub html_content: String,
}

/// Well-formed metadata: a real calendar date, a well-formed slug, and a
/// read time of at least one minute.
pub open spec fn metadata_wf(m: PostMetadata) -> bool {
    &&& is_valid_date(m.date@)
    &&& is_valid_slug(m.slug@)
    &&& m.read_time >= 1
}

/// The author name used when the header gives none.
pub fn default_author() -> (r: String)
    ensures
        r@ == "Anonymous"@,
{
    String::from_str("Anonymous")
}

/// The message with which validation rejects a header, naming the first
/// offending field in checking order.
pub open spec fn spec_meta_error_message(raw: RawMetadata) -> Seq<char> {
    if raw.title is None {
        "missing field: title"@
    } else if raw.date is None {
        "missing field: date"@
    } else if !is_valid_date(raw.date->0@) {
        "Invalid date format. Expected YYYY-MM-DD"@
    } else if raw.slug is None {
        "missing field: slug"@
    } else {
        "Slug cannot be empty"@
    }
}

/// The validation pass over parsed metadata: checks required fields and the
/// date, normalizes the slug, fills defaults, and attaches the read time.
pub fn validate_metadata(raw: RawMetadata, file: &str, read_time: u32) -> (r: Result<
    PostMetadata,
    Error,
>)
    requires
        read_time >= 1,
    ensures
        r is Ok <==> {
            &&& raw.title is Some
            &&& raw.date is Some
            &&& is_valid_date(raw.date->0@)
            &&& raw.slug is Some
            &&& spec_slugify(raw.slug->0@).len() > 0
        },
        r matches Ok(m) ==> {
            &&& m.title@ == raw.title->0@
            &&& m.date@ == raw.date->0@
            &&& m.author@ == (match raw.author {
                Some(a) => a@,
                None => "Anonymous"@,
            })
            &&& m.tags.deep_view() == (match raw.tags {
                Some(t) => t.deep_view(),
                None => Seq::<Seq<char>>::empty(),
            })
            &&& m.preview@ == (match raw.preview {
                Some(p) => p@,
                None => Seq::<char>::empty(),
            })
            &&& m.slug@ == spec_slugify(raw.slug->0@)
            &&& metadata_wf(m)
            &&& m.read_time == read_time
        },
        r matches Err(e) ==> e matches Error::Frontmatter { file: f, message: msg } && f@ == file@
            && msg@ == spec_meta_error_message(raw),
{
    let RawMetadata { title, date, author, tags, preview, slug } = raw;
    let title = match title {
        Some(t) => t,
        None => {
            return Err(
                Error::Frontmatter {
                    file: String::from_str(file),
                    message: String::from_str("missing field: title"),
                },
            );
        },
    };
    let date = match date {
        Some(d) => d,
        None => {
            return Err(
                Error::Frontmatter {
                    file: String::from_str(file),
                    message: String::from_str("missing field: date"),
                },
            );
        },
    };
    if !crate::date::validate_date(date.as_str()) {
        return Err(
            Error::Frontmatter {
                file: String::from_str(file),
                message: String::from_str("Invalid date format. Expected YYYY-MM-DD"),
            },
        );
    }
    let slug_text = match slug {
        Some(s) => s,
        None => {
            return Err(
                Error::Frontmatter {
                    file: String::from_str(file),
                    message: String::from_str("missing field: slug"),
                },
            );
        },
    };
    let slug = slugify(slug_text.as_str());
    if slug.as_str().is_empty() {
        return Err(
            Error::Frontmatter {
                file: String::from_str(file),
                message: String::from_str("Slug cannot be empty"),
            },
        );
    }
    let author = match author {
        Some(a) => a,
        None => default_author(),
    };
    let tags = match tags {
        Some(t) => t,
        None => {
            let empty: Vec<String> = Vec::new();
            proof {
                assert(empty.deep_view() =~= Seq::<Seq<char>>::empty());
            }
            empty
        },
    };
    let preview = match preview {
        Some(p) => p,
        None => String::new(),
    };
    Ok(PostMetadata { title, date, author, tags, preview, slug, read_time })
}

/// The number of backtick characters strictly before position `i`.
pub open spec fn ticks_before(l: Seq<char>, i: int) -> nat
    decreases i,
    when 0 <= i <= l.len()
{
    if i <= 0 {
        0
    } else {
        ticks_before(l, i - 1) + (if l[i - 1] == '`' {
            1nat
        } else {
            0nat
        })
    }
}

/// A character that counts toward the prose: not blank, not a backtick,
/// and not inside a backtick-delimited inline code span of its line.
pub open spec fn is_counted_char(l: Seq<char>, i: int) -> bool {
    &&& 0 <= i < l.len()
    &&& !is_blank_char(l[i])
    &&& l[i] != '`'
    &&& ticks_before(l, i) % 2 == 0
}

/// Whether a word begins at position `i` of the line: a counted character
/// at the start or right after one that does not count.
pub open spec fn is_word_start(l: Seq<char>, i: int) -> bool {
    &&& is_counted_char(l, i)
    &&& (i == 0 || !is_counted_char(l, i - 1))
}

/// The number of words beginning at or after position `i`.
pub open spec fn spec_words_from(l: Seq<char>, i: int) -> nat
    decreases l.len() - i,
    when 0 <= i <= l.len()
{
    if i >= l.len() {
        0
    } else {
        (if is_word_start(l, i) {
            1nat
        } else {
            0nat
        }) + spec_words_from(l, i + 1)
    }
}

/// The number of words of a line.
pub open spec fn spec_line_words(l: Seq<char>) -> nat {
    spec_words_from(l, 0)
}

proof fn lemma_words_le(l: Seq<char>, i: int)
    requires
        0 <= i <= l.len(),
    ensures
        spec_words_from(l, i) <= l.len() - i,
    decreases l.len() - i,
{
    if i < l.len() {
        lemma_words_le(l, i + 1);
    }
}

/// A code-fence line: its first non-blank characters are three backticks.
pub open spec fn is_fence_line(l: Seq<char>) -> bool {
    starts_with(spec_trim_start(l), seq!['`', '`', '`'])
}

/// The words of the lines from `i` on that lie outside fenced code blocks,
/// given whether line `i` is inside such a block.
pub open spec fn spec_prose_words(lines: Seq<Seq<char>>, i: int, in_code: bool) -> nat
    decreases lines.len() - i,
    when 0 <= i <= lines.len()
{
    if i >= lines.len() {
        0
    } else if is_fence_line(lines[i]) {
        spec_prose_words(lines, i + 1, !in_code)
    } else if in_code {
        spec_prose_words(lines, i + 1, in_code)
    } else {
        spec_line_words(lines[i]) + spec_prose_words(lines, i + 1, in_code)
    }
}

proof fn lemma_prose_words_le(lines: Seq<Seq<char>>, i: int, in_code: bool)
    requires
        0 <= i <= lines.len(),
    ensures
        spec_prose_words(lines, i, in_code) <= total_len(lines.skip(i)),
    decreases lines.len() - i,
{
    crate::text::lemma_total_len_skip(lines, i);
    if i < lines.len() {
        lemma_prose_words_le(lines, i + 1, !in_code);
        lemma_prose_words_le(lines, i + 1, in_code);
        lemma_words_le(lines[i], 0);
    }
}

/// The words of the text outside fenced code blocks, words inside
/// backtick-delimited inline code spans not counting.
pub open spec fn spec_word_count(s: Seq<char>) -> nat {
    spec_prose_words(spec_split(s, '\n'), 0, false)
}

/// The read time of a body: the word count divided by a reading speed of
/// 200 words per minute, rounded up, at least one minute, and saturating
/// at the largest representable value.
pub open spec fn spec_read_time(s: Seq<char>) -> int {
    let w = spec_word_count(s);
    if w == 0 {
        1
    } else {
        let m = w / 200 + (if w % 200 == 0 {
            0int
        } else {
            1int
        });
        if m > u32::MAX {
            u32::MAX as int
        } else {
            m
        }
    }
}

/// The number of words of one line.
#[verifier::loop_isolation(false)]
fn line_words(l: &Vec<char>) -> (w: usize)
    ensures
        w == spec_line_words(l@),
{
    let mut w: usize = 0;
    let mut i: usize = 0;
    let mut in_span = false;
    let mut prev_counted = false;
    while i < l.len()
        invariant
            0 <= i <= l@.len(),
            w <= i,
            in_span == (ticks_before(l@, i as int) % 2 == 1),
            prev_counted == (i > 0 && is_counted_char(l@, i as int - 1)),
            spec_line_words(l@) == w + spec_words_from(l@, i as int),
        decreases l@.len() - i,
    {
        let c = l[i];
        let counted = !blank_char(c) && c != '`' && !in_span;
        proof {
            assert(counted == is_counted_char(l@, i as int));
        }
        if counted && !prev_counted {
            w = w + 1;
        }
        if c == '`' {
            in_span = !in_span;
        }
        prev_counted = counted;
        i = i + 1;
    }
    w
}

/// Whether the line is a code fence.
#[verifier::loop_isolation(false)]
pub(crate) fn fence_line(l: &Vec<char>) -> (r: bool)
    ensures
        r == is_fence_line(l@),
{
    let mut lo: usize = 0;
    while lo < l.len() && blank_char(l[lo])
        invariant
            lo <= l@.len(),
            forall|j: int| 0 <= j < lo ==> is_blank_char(l@[j]),
        decreases l@.len() - lo,
    {
        lo = lo + 1;
    }
    proof {
        crate::text::lemma_trim_start_range(l@, lo as int);
    }
    let ticks = chars_of("```");
    proof {
        reveal_strlit("```");
        assert(ticks@ =~= seq!['`', '`', '`']);
    }
    let r = match_at(l, &ticks, lo);
    proof {
        if r {
            assert(spec_trim_start(l@).subrange(0, 3) =~= l@.subrange(lo as int, lo + 3));
        }
        if is_fence_line(l@) {
            assert(l@.subrange(lo as int, lo + 3) =~= spec_trim_start(l@).subrange(0, 3));
        }
    }
    r
}

/// Computes the read time of a body in minutes.
#[verifier::loop_isolation(false)]
pub fn calculate_read_time(content: &str) -> (r: u32)
    ensures
        r as int == spec_read_time(content@),
        r >= 1,
{
    let chars = chars_of(content);
    let total_chars = chars.len();
    let lines = split_char(&chars, '\n');
    let ghost dv = lines.deep_view();
    proof {
        crate::text::lemma_chars_deep_view(&lines);
        crate::text::lemma_split_total_len(content@, '\n');
        lemma_prose_words_le(dv, 0, false);
        assert(dv.skip(0) =~= dv);
    }
    let mut w: u64 = 0;
    let mut in_code = false;
    let mut i: usize = 0;
    while i < lines.len()
        invariant
            0 <= i <= lines@.len(),
            spec_prose_words(dv, 0, false) == w + spec_prose_words(dv, i as int, in_code),
        decreases lines@.len() - i,
    {
        proof {
            lemma_prose_words_le(dv, i as int, in_code);
            crate::text::lemma_total_len_skip(dv, i as int);
        }
        if fence_line(&lines[i]) {
            in_code = !in_code;
        } else if !in_code {
            let lw = line_words(&lines[i]);
            proof {
                lemma_prose_words_le(dv, i + 1, in_code);
                assert(dv.skip(0) =~= dv);
                assert(w + spec_prose_words(dv, i as int, in_code) <= total_len(dv));
                assert(w + lw <= total_len(dv));
                assert(total_len(dv) <= total_chars);
            }
            w = w + lw as u64;
        }
        i = i + 1;
    }
    proof {
        assert(spec_prose_words(dv, i as int, in_code) == 0);
    }
    if w == 0 {
        1
    } else {
        let m: u64 = w / 200 + (if w % 200 == 0 {
            0
        } else {
            1
        });
        if m > u32::MAX as u64 {
            u32::MAX
        } else {
            m as u32
        }
    }
}

/// A body with its relative asset references `./{assets}/…` and
/// `./{assets}` rewritten to the absolute site paths
/// `/posts/{slug}/{assets}…`, longer pattern first.
pub open spec fn spec_asset_rewrite(s: Seq<char>, slug: Seq<char>, assets: Seq<char>) -> Seq<
    char,
> {
    let pat1 = "./"@ + assets + seq!['/'];
    let rep1 = "/posts/"@ + slug + seq!['/'] + assets + seq!['/'];
    let pat2 = "./"@ + assets;
    let rep2 = "/posts/"@ + slug + seq!['/'] + assets;
    spec_replace(spec_replace(s, pat1, rep1), pat2, rep2)
}

/// Rewrites one text by the asset-path rules.
fn asset_rewrite(s: &Vec<char>, slug: &str, assets: &str) -> (r: Vec<char>)
    ensures
        r@ == spec_asset_rewrite(s@, slug@, assets@),
{
    let slug_chars = chars_of(slug);
    let assets_chars = chars_of(assets);
    proof {
        reveal_strlit("./");
        reveal_strlit("/posts/");
    }
    let mut pat1 = chars_of("./");
    extend_chars(&mut pat1, &assets_chars);
    pat1.push('/');
    let mut rep1 = chars_of("/posts/");
    extend_chars(&mut rep1, &slug_chars);
    rep1.push('/');
    extend_chars(&mut rep1, &assets_chars);
    rep1.push('/');
    let mut pat2 = chars_of("./");
    extend_chars(&mut pat2, &assets_chars);
    let mut rep2 = chars_of("/posts/");
    extend_chars(&mut rep2, &slug_chars);
    rep2.push('/');
    extend_chars(&mut rep2, &assets_chars);
    proof {
        assert(pat1@ =~= "./"@ + assets@ + seq!['/']);
        assert(rep1@ =~= "/posts/"@ + slug@ + seq!['/'] + assets@ + seq!['/']);
        assert(pat2@ =~= "./"@ + assets@);
        assert(rep2@ =~= "/posts/"@ + slug@ + seq!['/'] + assets@);
        assert(pat1@.len() > 0);
        assert(pat2@.len() > 0);
    }
    let step = replace_all(s, &pat1, &rep1);
    replace_all(&step, &pat2, &rep2)
}

impl Post {
    /// The source directory of this post's assets:
    /// `{site}/{posts}/{slug}/{assets}`.
    pub fn assets_dir(&self, config: &Config) -> (r: String)
        ensures
            r@ == spec_join_path(
                spec_join_path(
                    spec_join_path(config.site_dir@, config.build.posts_dir@),
                    self.metadata.slug@,
                ),
                config.build.post_assets_dir@,
            ),
    {
        let p = config.posts_dir();
        let p = join_path(p.as_str(), self.metadata.slug.as_str());
        join_path(p.as_str(), config.build.post_assets_dir.as_str())
    }

    /// The output directory this post's assets are mirrored into:
    /// `{output}/posts/{slug}/{assets}`.
    pub fn assets_output_dir(&self, config: &Config) -> (r: String)
        ensures
            r@ == spec_join_path(
                spec_join_path(
                    spec_join_path(
                        spec_join_path(config.site_dir@, config.build.output_dir@),
                        "posts"@,
                    ),
                    self.metadata.slug@,
                ),
                config.build.post_assets_dir@,
            ),
    {
        let p = config.output_dir();
        let p = join_path(p.as_str(), "posts");
        let p = join_path(p.as_str(), self.metadata.slug.as_str());
        join_path(p.as_str(), config.build.post_assets_dir.as_str())
    }

    /// Rewrites relative asset references into absolute site paths, in both
    /// the raw and the rendered body; the metadata is untouched.
    pub fn process_asset_paths(&mut self, config: &Config)
        ensures
            final(self).metadata == old(self).metadata,
            final(self).content@ == spec_asset_rewrite(
                old(self).content@,
                old(self).metadata.slug@,
                config.build.post_assets_dir@,
            ),
            final(self).html_content@ == spec_asset_rewrite(
                old(self).html_content@,
                old(self).metadata.slug@,
                config.build.post_assets_dir@,
            ),
    {
        let content_chars = chars_of(self.content.as_str());
        let new_content = asset_rewrite(
            &content_chars,
            self.metadata.slug.as_str(),
            config.build.post_assets_dir.as_str(),
        );
        self.content = string_of(&new_content);
        let html_chars = chars_of(self.html_content.as_str());
        let new_html = asset_rewrite(
            &html_chars,
            self.metadata.slug.as_str(),
            config.build.post_assets_dir.as_str(),
        );
        self.html_content = string_of(&new_html);
    }

    /// Whether loading the file succeeds: a complete header whose lines
    /// parse, with a title, a valid date, and a slug that normalizes to
    /// something nonempty.
    pub open spec fn spec_load_ok(content: Seq<char>) -> bool {
        let hl = spec_header_lines(content);
        &&& spec_frontmatter_ok(content)
        &&& spec_header_valid(hl)
        &&& spec_scalar_field(hl, "title"@) is Some
        &&& spec_scalar_field(hl, "date"@) is Some
        &&& is_valid_date(spec_scalar_field(hl, "date"@)->0)
        &&& spec_scalar_field(hl, "slug"@) is Some
        &&& spec_slugify(spec_scalar_field(hl, "slug"@)->0).len() > 0
    }

    /// The message of the error loading the file reports, naming the first
    /// fault found.
    pub open spec fn spec_load_error_message(content: Seq<char>) -> Seq<char> {
        let hl = spec_header_lines(content);
        if !spec_frontmatter_ok(content) {
            "missing metadata delimiter"@
        } else if !spec_header_valid(hl) {
            "invalid metadata line"@
        } else if spec_scalar_field(hl, "title"@) is None {
            "missing field: title"@
        } else if spec_scalar_field(hl, "date"@) is None {
            "missing field: date"@
        } else if !is_valid_date(spec_scalar_field(hl, "date"@)->0) {
            "Invalid date format. Expected YYYY-MM-DD"@
        } else if spec_scalar_field(hl, "slug"@) is None {
            "missing field: slug"@
        } else {
            "Slug cannot be empty"@
        }
    }

    /// Loads a document from the text of a content file. `path` names the
    /// file in error messages. On success the body and its rendering are
    /// attached and the metadata is well formed.
    pub fn new_from_path(path: &str, content: &str, md_proc: &MarkdownProcessor) -> (r: Result<
        Post,
        Error,
    >)
        ensures
            r is Ok <==> Post::spec_load_ok(content@),
            r matches Ok(p) ==> ({
                let hl = spec_header_lines(content@);
                &&& p.metadata.title@ == spec_scalar_field(hl, "title"@)->0
                &&& p.metadata.date@ == spec_scalar_field(hl, "date"@)->0
                &&& p.metadata.author@ == (match spec_scalar_field(hl, "author"@) {
                    Some(a) => a,
                    None => "Anonymous"@,
                })
                &&& p.metadata.tags.deep_view() == (match spec_list_field(hl, "tags"@) {
                    Some(t) => t,
                    None => Seq::<Seq<char>>::empty(),
                })
                &&& p.metadata.preview@ == (match spec_scalar_field(hl, "preview"@) {
                    Some(x) => x,
                    None => Seq::<char>::empty(),
                })
                &&& p.metadata.slug@ == spec_slugify(spec_scalar_field(hl, "slug"@)->0)
                &&& p.metadata.read_time as int == spec_read_time(spec_body(content@))
                &&& metadata_wf(p.metadata)
                &&& p.content@ == spec_body(content@)
                &&& p.html_content@ == spec_render(spec_body(content@))
            }),
            r matches Err(e) ==> e matches Error::Frontmatter { file, message } && file@ == path@
                && message@ == Post::spec_load_error_message(content@),
    {
        let chars = chars_of(content);
        let (header, body_chars) = match split_frontmatter(&chars) {
            Some(p) => p,
            None => {
                return Err(
                    Error::Frontmatter {
                        file: String::from_str(path),
                        message: String::from_str("missing metadata delimiter"),
                    },
                );
            },
        };
        let raw = match parse_header(&header) {
            Ok(r) => r,
            Err(m) => {
                return Err(Error::Frontmatter { file: String::from_str(path), message: m });
            },
        };
        let body = string_of(&body_chars);
        let read_time = calculate_read_time(body.as_str());
        let metadata = match validate_metadata(raw, path, read_time) {
            Ok(m) => m,
            Err(e) => {
                return Err(e);
            },
        };
        let html_content = md_proc.render(body.as_str());
        Ok(Post { metadata, content: body, html_content })
    }
}

/// A content file without a complete metadata header — no opening
/// delimiter line, or no closing one — fails to load, and the error's
/// message says so; loading attaches the file's name to it.
pub proof fn lemma_missing_delimiter_rejected(content: Seq<char>)
    requires
        !spec_frontmatter_ok(content),
    ensures
        !Post::spec_load_ok(content),
        Post::spec_load_error_message(content) == "missing metadata delimiter"@,
{
}

/// A content file whose header parses and names a title, but whose date
/// value does not name a `YYYY-MM-DD` calendar day, fails to load with the
/// date-format message; loading attaches the file's name to it.
pub proof fn lemma_bad_date_rejected(content: Seq<char>)
    requires
        spec_frontmatter_ok(content),
        spec_header_valid(spec_header_lines(content)),
        spec_scalar_field(spec_header_lines(content), "title"@) is Some,
        spec_scalar_field(spec_header_lines(content), "date"@) is Some,
        !is_valid_date(spec_scalar_field(spec_header_lines(content), "date"@)->0),
    ensures
        !Post::spec_load_ok(content),
        Post::spec_load_error_message(content) == "Invalid date format. Expected YYYY-MM-DD"@,
{
}

/// A planned new post: where its file goes and what it starts with.
#[derive(Debug)]
pub struct NewPostPlan {
    pub path: String,
    pub content: String,
}

/// The scaffold text of a new post: a filled metadata header, then the
/// outline when one was generated, then a closing hint.
pub open spec fn spec_new_post_content(
    title: Seq<char>,
    date: Seq<char>,
    slug: Seq<char>,
    outline: Option<Seq<char>>,
) -> Seq<char> {
    "---\ntitle: \""@ + crate::text::spec_trim(title) + "\"\ndate: "@ + date
        + "\nauthor: \"Anonymous\"\ntags: []\npreview: \"Add a preview of your post here\"\nslug: \""@
        + slug + "\"\n---\n\n"@ + (match outline {
        Some(o) => crate::text::spec_trim(o),
        None => Seq::<char>::empty(),
    }) + "\n\n"@ + (if outline is Some {
        "<!-- Generated outline above. Replace with your content. -->"@
    } else {
        "Write your post content here..."@
    })
}

/// Plans a new post named by `title` and dated `date`: the slug is derived
/// from the title and must be nonempty; the file goes into the posts
/// directory as `{date}-{slug}.md`.
#[verifier::rlimit(100)]
pub fn create_new_post(config: &Config, title: &str, date: &str, outline: Option<&str>) -> (r:
    Result<NewPostPlan, Error>)
    ensures
        r is Ok <==> spec_slugify(title@).len() > 0,
        r matches Err(e) ==> (e matches Error::Other(m) && m@
            == "Post title must contain at least one alphanumeric character"@),
        r matches Ok(p) ==> ({
            let slug = spec_slugify(title@);
            &&& p.path@ == spec_join_path(
                spec_join_path(config.site_dir@, config.build.posts_dir@),
                date@ + seq!['-'] + slug + ".md"@,
            )
            &&& p.content@ == spec_new_post_content(
                title@,
                date@,
                slug,
                match outline {
                    Some(o) => Some(o@),
                    None => None,
                },
            )
        }),
{
    let slug = crate::slug::slugify(title);
    if slug.as_str().is_empty() {
        return Err(
            Error::Other(
                String::from_str("Post title must contain at least one alphanumeric character"),
            ),
        );
    }
    let slug_chars = chars_of(slug.as_str());
    let mut filename = chars_of(date);
    filename.push('-');
    extend_chars(&mut filename, &slug_chars);
    let md = chars_of(".md");
    extend_chars(&mut filename, &md);
    proof {
        assert(filename@ =~= date@ + seq!['-'] + spec_slugify(title@) + ".md"@);
    }
    let posts_dir = config.posts_dir();
    let filename_str = string_of(&filename);
    let path = join_path(posts_dir.as_str(), filename_str.as_str());
    let title_chars = chars_of(title);
    let title_trimmed = crate::text::trim_chars(&title_chars);
    let mut content = chars_of("---\ntitle: \"");
    extend_chars(&mut content, &title_trimmed);
    let lit = chars_of("\"\ndate: ");
    extend_chars(&mut content, &lit);
    let date_chars = chars_of(date);
    extend_chars(&mut content, &date_chars);
    let lit = chars_of(
        "\nauthor: \"Anonymous\"\ntags: []\npreview: \"Add a preview of your post here\"\nslug: \"",
    );
    extend_chars(&mut content, &lit);
    extend_chars(&mut content, &slug_chars);
    let lit = chars_of("\"\n---\n\n");
    extend_chars(&mut content, &lit);
    match outline {
        Some(o) => {
            let o_chars = chars_of(o);
            let o_trimmed = crate::text::trim_chars(&o_chars);
            extend_chars(&mut content, &o_trimmed);
            let lit = chars_of("\n\n");
            extend_chars(&mut content, &lit);
            let lit = chars_of("<!-- Generated outline above. Replace with your content. -->");
            extend_chars(&mut content, &lit);
        },
        None => {
            let lit = chars_of("\n\n");
            extend_chars(&mut content, &lit);
            let lit = chars_of("Write your post content here...");
            extend_chars(&mut content, &lit);
        },
    }
    proof {
        assert(content@ =~= spec_new_post_content(
            title@,
            date@,
            spec_slugify(title@),
            match outline {
                Some(o) => Some(o@),
                None => None,
            },
        ));
    }
    Ok(NewPostPlan { path, content: string_of(&content) })
}

} // verus!

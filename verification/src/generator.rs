//! The site builder: loads every content file, transforms it, sorts the
//! documents newest first, renders each page and the listing page through
//! the template engine, and plans the asset mirroring. The outcome is a
//! build plan: the pages to write and the directories to mirror, in order.

use vstd::prelude::*;

verus! {

use vstd::string::StringExecFns;
use crate::config::{Config, spec_join_path, join_path};
use crate::errors::Error;
use crate::post::{Post, metadata_wf, spec_asset_rewrite, spec_read_time};
use crate::frontmatter::{spec_header_lines, spec_body, spec_scalar_field, spec_list_field};
use crate::slug::spec_slugify;
use crate::date::{is_valid_date, spec_date_value, date_value};
use crate::markdown::{MarkdownProcessor, spec_render};
use crate::json::{
    spec_json_string,
    spec_json_str_array,
    spec_json_bool,
    spec_dec,
    push_json_string,
    push_json_str_array,
    push_bool,
    push_dec,
};
use crate::text::{chars_of, string_of, extend_chars};

#[verifier::external_type_specification]
#[verifier::external_body]
pub struct ExTera(tera::Tera);

/// The templates an engine holds: source text by template name.
pub uninterp spec fn engine_templates(t: tera::Tera) -> Map<Seq<char>, Seq<char>>;

/// Relies on `tera::Tera::render`, `serde_json::from_str` and
/// `tera::Context::from_serialize`: renders the named template against the
/// context the JSON text describes. What page the engine produces is not
/// specified; the caller treats any outcome as possible.
#[verifier::external_body]
fn tera_render(t: &tera::Tera, name: &str, context_json: &str) -> (r: Result<String, String>) {
    let value: serde_json::Value = match serde_json::from_str(context_json) {
        Ok(v) => v,
        Err(e) => return Err(e.to_string()),
    };
    let context = match tera::Context::from_serialize(&value) {
        Ok(c) => c,
        Err(e) => return Err(e.to_string()),
    };
    t.render(name, &context).map_err(|e| e.to_string())
}

/// One template: its name and its source text.
#[derive(Debug)]
pub struct TemplateSource {
    pub name: String,
    pub content: String,
}

/// The templates as pairs of name and source text.
pub open spec fn template_views(ts: Seq<TemplateSource>) -> Seq<(Seq<char>, Seq<char>)> {
    ts.map(|i: int, t: TemplateSource| (t.name@, t.content@))
}

/// The map a template list registers: each name to the source last given
/// it.
pub open spec fn spec_templates_map(ts: Seq<TemplateSource>) -> Map<Seq<char>, Seq<char>>
    decreases ts.len(),
{
    if ts.len() == 0 {
        Map::<Seq<char>, Seq<char>>::empty()
    } else {
        spec_templates_map(ts.drop_last()).insert(ts.last().name@, ts.last().content@)
    }
}

/// Whether a freshly made engine accepts this template list: parsing and
/// inheritance checking are deterministic in the named sources alone, the
/// rest of a fresh engine's state being fixed at this crate version.
pub uninterp spec fn tera_accepts(templates: Seq<(Seq<char>, Seq<char>)>) -> bool;

/// Relies on `tera::Tera::default` and `Tera::add_raw_templates`: builds an
/// engine over exactly the given templates. A fresh engine has the default
/// delimiters and built-ins and no templates, so whether registration
/// succeeds is a function of the list, and on success the engine holds
/// exactly the listed sources, later entries replacing earlier ones of the
/// same name.
#[verifier::external_body]
fn tera_build(templates: &Vec<TemplateSource>) -> (r: Result<tera::Tera, String>)
    ensures
        r is Ok <==> tera_accepts(template_views(templates@)),
        r matches Ok(engine) ==> engine_templates(engine) == spec_templates_map(templates@),
{
    let mut engine = tera::Tera::default();
    let entries = templates.iter().map(|t| (t.name.as_str(), t.content.as_str()));
    match engine.add_raw_templates(entries) {
        Ok(()) => Ok(engine),
        Err(e) => Err(e.to_string()),
    }
}

/// One content file: where it came from and what it holds.
#[derive(Debug)]
pub struct SourceFile {
    pub path: String,
    pub content: String,
}

/// One file of the output tree: its path and its text.
#[derive(Debug)]
pub struct OutputFile {
    pub path: String,
    pub content: String,
}

/// One directory to mirror into another.
#[derive(Debug)]
pub struct MirrorRequest {
    pub source_dir: String,
    pub dest_dir: String,
}

/// A complete build: the output root to create, the pages to write (each
/// post's page in sorted order, then the listing page), the asset tree to
/// mirror for each post, and the static tree to mirror last.
#[derive(Debug)]
pub struct BuildPlan {
    pub output_root: String,
    pub pages: Vec<OutputFile>,
    pub asset_copies: Vec<MirrorRequest>,
    pub static_copy: MirrorRequest,
}

/// The JSON for one document, as the template context sees it.
pub open spec fn spec_post_json(p: Post) -> Seq<char> {
    "{\"metadata\":{\"title\":"@ + spec_json_string(p.metadata.title@) + ",\"date\":"@
        + spec_json_string(p.metadata.date@) + ",\"author\":"@ + spec_json_string(
        p.metadata.author@,
    ) + ",\"tags\":"@ + spec_json_str_array(p.metadata.tags.deep_view()) + ",\"preview\":"@
        + spec_json_string(p.metadata.preview@) + ",\"slug\":"@ + spec_json_string(
        p.metadata.slug@,
    ) + ",\"read_time\":"@ + spec_dec(p.metadata.read_time as int) + "},\"content\":"@
        + spec_json_string(p.content@) + ",\"html_content\":"@ + spec_json_string(p.html_content@)
        + "}"@
}

/// The JSON for the author identity.
pub open spec fn spec_author_json(a: crate::config::Author) -> Seq<char> {
    "{\"name\":"@ + spec_json_string(a.name@) + ",\"email\":"@ + spec_json_string(a.email@)
        + "}"@
}

/// The JSON for the build settings.
pub open spec fn spec_build_json(b: crate::config::BuildConfig) -> Seq<char> {
    "{\"verbose\":"@ + spec_json_bool(b.verbose) + ",\"output_dir\":"@ + spec_json_string(
        b.output_dir@,
    ) + ",\"posts_dir\":"@ + spec_json_string(b.posts_dir@) + ",\"templates_dir\":"@
        + spec_json_string(b.templates_dir@) + ",\"static_dir\":"@ + spec_json_string(
        b.static_dir@,
    ) + ",\"post_assets_dir\":"@ + spec_json_string(b.post_assets_dir@) + "}"@
}

/// The JSON for the server settings.
pub open spec fn spec_server_json(v: crate::config::ServerConfig) -> Seq<char> {
    "{\"auto_build\":"@ + spec_json_bool(v.auto_build) + ",\"port\":"@ + spec_dec(v.port as int)
        + ",\"hot_reload\":"@ + spec_json_bool(v.hot_reload) + "}"@
}

/// The JSON for the configuration, as the template context sees it.
pub open spec fn spec_config_json(c: Config) -> Seq<char> {
    "{\"base_url\":"@ + spec_json_string(c.base_url@) + ",\"title\":"@ + spec_json_string(c.title@)
        + ",\"description\":"@ + spec_json_string(c.description@) + ",\"author\":"@
        + spec_author_json(c.author) + ",\"build\":"@ + spec_build_json(c.build) + ",\"server\":"@
        + spec_server_json(c.server) + "}"@
}

/// The context for one post's page: the post, the configuration, and the
/// post's title.
pub open spec fn spec_post_context_json(p: Post, c: Config) -> Seq<char> {
    "{\"post\":"@ + spec_post_json(p) + ",\"config\":"@ + spec_config_json(c) + ",\"title\":"@
        + spec_json_string(p.metadata.title@) + "}"@
}

/// The posts of the listing context from index `i` on.
pub open spec fn spec_json_posts_from(posts: Seq<Post>, i: int) -> Seq<char>
    decreases posts.len() - i,
    when 0 <= i <= posts.len()
{
    if i >= posts.len() {
        Seq::<char>::empty()
    } else {
        (if i > 0 {
            seq![',']
        } else {
            Seq::<char>::empty()
        }) + spec_post_json(posts[i]) + spec_json_posts_from(posts, i + 1)
    }
}

/// The context for the listing page: the sorted posts, the configuration,
/// and the site title.
pub open spec fn spec_index_context_json(posts: Seq<Post>, c: Config) -> Seq<char> {
    "{\"posts\":["@ + spec_json_posts_from(posts, 0) + "],\"config\":"@ + spec_config_json(c)
        + ",\"title\":"@ + spec_json_string(c.title@) + "}"@
}

/// Appends the JSON of one document.
#[verifier::rlimit(100)]
fn push_post_json(out: &mut Vec<char>, p: &Post)
    ensures
        final(out)@ == old(out)@ + spec_post_json(*p),
{
    let lit = chars_of("{\"metadata\":{\"title\":");
    extend_chars(out, &lit);
    push_json_string(out, p.metadata.title.as_str());
    let lit = chars_of(",\"date\":");
    extend_chars(out, &lit);
    push_json_string(out, p.metadata.date.as_str());
    let lit = chars_of(",\"author\":");
    extend_chars(out, &lit);
    push_json_string(out, p.metadata.author.as_str());
    let lit = chars_of(",\"tags\":");
    extend_chars(out, &lit);
    push_json_str_array(out, &p.metadata.tags);
    let lit = chars_of(",\"preview\":");
    extend_chars(out, &lit);
    push_json_string(out, p.metadata.preview.as_str());
    let lit = chars_of(",\"slug\":");
    extend_chars(out, &lit);
    push_json_string(out, p.metadata.slug.as_str());
    let lit = chars_of(",\"read_time\":");
    extend_chars(out, &lit);
    push_dec(out, p.metadata.read_time as u64);
    let lit = chars_of("},\"content\":");
    extend_chars(out, &lit);
    push_json_string(out, p.content.as_str());
    let lit = chars_of(",\"html_content\":");
    extend_chars(out, &lit);
    push_json_string(out, p.html_content.as_str());
    let lit = chars_of("}");
    extend_chars(out, &lit);
    proof {
        assert(out@ =~= old(out)@ + spec_post_json(*p));
    }
}

/// Appends the JSON of the author identity.
fn push_author_json(out: &mut Vec<char>, a: &crate::config::Author)
    ensures
        final(out)@ == old(out)@ + spec_author_json(*a),
{
    let lit = chars_of("{\"name\":");
    extend_chars(out, &lit);
    push_json_string(out, a.name.as_str());
    let lit = chars_of(",\"email\":");
    extend_chars(out, &lit);
    push_json_string(out, a.email.as_str());
    let lit = chars_of("}");
    extend_chars(out, &lit);
    proof {
        assert(out@ =~= old(out)@ + spec_author_json(*a));
    }
}

/// Appends the JSON of the build settings.
#[verifier::rlimit(100)]
fn push_build_json(out: &mut Vec<char>, b: &crate::config::BuildConfig)
    ensures
        final(out)@ == old(out)@ + spec_build_json(*b),
{
    let lit = chars_of("{\"verbose\":");
    extend_chars(out, &lit);
    push_bool(out, b.verbose);
    let lit = chars_of(",\"output_dir\":");
    extend_chars(out, &lit);
    push_json_string(out, b.output_dir.as_str());
    let lit = chars_of(",\"posts_dir\":");
    extend_chars(out, &lit);
    push_json_string(out, b.posts_dir.as_str());
    let lit = chars_of(",\"templates_dir\":");
    extend_chars(out, &lit);
    push_json_string(out, b.templates_dir.as_str());
    let lit = chars_of(",\"static_dir\":");
    extend_chars(out, &lit);
    push_json_string(out, b.static_dir.as_str());
    let lit = chars_of(",\"post_assets_dir\":");
    extend_chars(out, &lit);
    push_json_string(out, b.post_assets_dir.as_str());
    let lit = chars_of("}");
    extend_chars(out, &lit);
    proof {
        assert(out@ =~= old(out)@ + spec_build_json(*b));
    }
}

/// Appends the JSON of the server settings.
fn push_server_json(out: &mut Vec<char>, v: &crate::config::ServerConfig)
    ensures
        final(out)@ == old(out)@ + spec_server_json(*v),
{
    let lit = chars_of("{\"auto_build\":");
    extend_chars(out, &lit);
    push_bool(out, v.auto_build);
    let lit = chars_of(",\"port\":");
    extend_chars(out, &lit);
    push_dec(out, v.port as u64);
    let lit = chars_of(",\"hot_reload\":");
    extend_chars(out, &lit);
    push_bool(out, v.hot_reload);
    let lit = chars_of("}");
    extend_chars(out, &lit);
    proof {
        assert(out@ =~= old(out)@ + spec_server_json(*v));
    }
}

/// Appends the JSON of the configuration.
#[verifier::rlimit(100)]
fn push_config_json(out: &mut Vec<char>, c: &Config)
    ensures
        final(out)@ == old(out)@ + spec_config_json(*c),
{
    let lit = chars_of("{\"base_url\":");
    extend_chars(out, &lit);
    push_json_string(out, c.base_url.as_str());
    let lit = chars_of(",\"title\":");
    extend_chars(out, &lit);
    push_json_string(out, c.title.as_str());
    let lit = chars_of(",\"description\":");
    extend_chars(out, &lit);
    push_json_string(out, c.description.as_str());
    let lit = chars_of(",\"author\":");
    extend_chars(out, &lit);
    push_author_json(out, &c.author);
    let lit = chars_of(",\"build\":");
    extend_chars(out, &lit);
    push_build_json(out, &c.build);
    let lit = chars_of(",\"server\":");
    extend_chars(out, &lit);
    push_server_json(out, &c.server);
    let lit = chars_of("}");
    extend_chars(out, &lit);
    proof {
        assert(out@ =~= old(out)@ + spec_config_json(*c));
    }
}

/// The context JSON for one post's page.
pub fn post_context_json(p: &Post, c: &Config) -> (r: String)
    ensures
        r@ == spec_post_context_json(*p, *c),
{
    let mut out: Vec<char> = Vec::new();
    let lit = chars_of("{\"post\":");
    extend_chars(&mut out, &lit);
    push_post_json(&mut out, p);
    let lit = chars_of(",\"config\":");
    extend_chars(&mut out, &lit);
    push_config_json(&mut out, c);
    let lit = chars_of(",\"title\":");
    extend_chars(&mut out, &lit);
    push_json_string(&mut out, p.metadata.title.as_str());
    let lit = chars_of("}");
    extend_chars(&mut out, &lit);
    proof {
        assert(out@ =~= spec_post_context_json(*p, *c));
    }
    string_of(&out)
}

/// The context JSON for the listing page.
#[verifier::loop_isolation(false)]
#[verifier::rlimit(100)]
pub fn index_context_json(posts: &Vec<Post>, c: &Config) -> (r: String)
    ensures
        r@ == spec_index_context_json(posts@, *c),
{
    let mut out: Vec<char> = Vec::new();
    let lit = chars_of("{\"posts\":[");
    extend_chars(&mut out, &lit);
    let ghost start = out@;
    let mut i: usize = 0;
    while i < posts.len()
        invariant
            i <= posts@.len(),
            i > 0 || out@ == start,
            start + spec_json_posts_from(posts@, 0) =~= out@ + spec_json_posts_from(
                posts@,
                i as int,
            ),
        decreases posts@.len() - i,
    {
        if i > 0 {
            out.push(',');
        }
        push_post_json(&mut out, &posts[i]);
        i = i + 1;
    }
    proof {
        assert(spec_json_posts_from(posts@, i as int) =~= Seq::<char>::empty());
    }
    let lit = chars_of("],\"config\":");
    extend_chars(&mut out, &lit);
    push_config_json(&mut out, c);
    let lit = chars_of(",\"title\":");
    extend_chars(&mut out, &lit);
    push_json_string(&mut out, c.title.as_str());
    let lit = chars_of("}");
    extend_chars(&mut out, &lit);
    proof {
        assert(out@ =~= spec_index_context_json(posts@, *c));
    }
    string_of(&out)
}

/// The sort key of a document: its date as a number; larger is later.
pub open spec fn date_key(p: Post) -> int {
    spec_date_value(p.metadata.date@)
}

/// Where an insertion lands: after every element dated the same or later.
pub open spec fn spec_insert_pos(p: Post, s: Seq<Post>) -> int
    decreases s.len(),
{
    if s.len() == 0 {
        0
    } else if date_key(p) > date_key(s[0]) {
        0
    } else {
        1 + spec_insert_pos(p, s.drop_first())
    }
}

/// `p` inserted into `s` before the first element dated strictly earlier;
/// among equal dates the newcomer goes last, which keeps the sort stable.
pub open spec fn spec_insert_post(p: Post, s: Seq<Post>) -> Seq<Post>
    decreases s.len(),
{
    if s.len() == 0 {
        seq![p]
    } else if date_key(p) > date_key(s[0]) {
        seq![p] + s
    } else {
        seq![s[0]] + spec_insert_post(p, s.drop_first())
    }
}

/// The documents sorted by date, newest first, stably: each element in
/// turn inserted into the sorted prefix.
pub open spec fn spec_sort_posts(s: Seq<Post>) -> Seq<Post>
    decreases s.len(),
{
    if s.len() == 0 {
        Seq::<Post>::empty()
    } else {
        spec_insert_post(s.last(), spec_sort_posts(s.drop_last()))
    }
}

/// Sorted newest first.
pub open spec fn sorted_by_date_desc(s: Seq<Post>) -> bool {
    forall|i: int, j: int| 0 <= i < j < s.len() ==> date_key(s[i]) >= date_key(s[j])
}

/// The insertion splits the sequence at the insertion position.
pub proof fn lemma_insert_at(p: Post, s: Seq<Post>)
    ensures
        0 <= spec_insert_pos(p, s) <= s.len(),
        spec_insert_post(p, s) =~= s.subrange(0, spec_insert_pos(p, s)) + seq![p] + s.skip(
            spec_insert_pos(p, s),
        ),
        forall|m: int| 0 <= m < spec_insert_pos(p, s) ==> date_key(s[m]) >= date_key(p),
        spec_insert_pos(p, s) == s.len() || date_key(s[spec_insert_pos(p, s)]) < date_key(p),
    decreases s.len(),
{
    if s.len() == 0 {
        assert(spec_insert_post(p, s) =~= s.subrange(0, 0) + seq![p] + s.skip(0));
    } else if date_key(p) > date_key(s[0]) {
        assert(spec_insert_post(p, s) =~= s.subrange(0, 0) + seq![p] + s.skip(0));
    } else {
        lemma_insert_at(p, s.drop_first());
        let pos = spec_insert_pos(p, s.drop_first());
        assert(s.drop_first().subrange(0, pos) =~= s.subrange(1, pos + 1));
        assert(s.drop_first().skip(pos) =~= s.skip(pos + 1));
        assert(seq![s[0]] + (s.subrange(1, pos + 1) + seq![p] + s.skip(pos + 1)) =~= s.subrange(
            0,
            pos + 1,
        ) + seq![p] + s.skip(pos + 1));
        assert forall|m: int| 0 <= m < pos + 1 implies date_key(s[m]) >= date_key(p) by {
            if m > 0 {
                assert(s.drop_first()[m - 1] == s[m]);
            }
        }
    }
}

/// Insertion keeps the order.
pub proof fn lemma_insert_sorted(p: Post, s: Seq<Post>)
    requires
        sorted_by_date_desc(s),
    ensures
        sorted_by_date_desc(spec_insert_post(p, s)),
{
    lemma_insert_at(p, s);
    let pos = spec_insert_pos(p, s);
    let r = spec_insert_post(p, s);
    assert forall|i: int, j: int| 0 <= i < j < r.len() implies date_key(r[i]) >= date_key(
        r[j],
    ) by {
        if i < pos {
            assert(r[i] == s[i]);
        } else if i == pos {
            assert(r[i] == p);
        } else {
            assert(r[i] == s[i - 1]);
        }
        if j < pos {
            assert(r[j] == s[j]);
        } else if j == pos {
            assert(r[j] == p);
        } else {
            assert(r[j] == s[j - 1]);
        }
    }
}

/// Insertion adds exactly the new element.
pub proof fn lemma_insert_multiset(p: Post, s: Seq<Post>)
    ensures
        spec_insert_post(p, s).to_multiset() == s.to_multiset().insert(p),
    decreases s.len(),
{
    broadcast use vstd::seq_lib::group_to_multiset_ensures;

    if s.len() == 0 {
        assert(spec_insert_post(p, s) =~= Seq::<Post>::empty().push(p));
        assert(Seq::<Post>::empty().push(p).to_multiset() =~= s.to_multiset().insert(p));
    } else if date_key(p) > date_key(s[0]) {
        assert(seq![p] + s =~= s.insert(0, p));
        assert((seq![p] + s).to_multiset() =~= s.to_multiset().insert(p));
    } else {
        lemma_insert_multiset(p, s.drop_first());
        let r = spec_insert_post(p, s.drop_first());
        assert(seq![s[0]] + r =~= r.insert(0, s[0]));
        assert((seq![s[0]] + r).to_multiset() =~= r.to_multiset().insert(s[0]));
        assert(s =~= s.drop_first().insert(0, s[0]));
        assert(s.to_multiset() =~= s.drop_first().to_multiset().insert(s[0]));
        assert(r.to_multiset().insert(s[0]) =~= s.to_multiset().insert(p));
    }
}

/// The sorted sequence is ordered and holds the same documents.
pub proof fn lemma_sort_posts_props(s: Seq<Post>)
    ensures
        sorted_by_date_desc(spec_sort_posts(s)),
        spec_sort_posts(s).to_multiset() == s.to_multiset(),
        spec_sort_posts(s).len() == s.len(),
    decreases s.len(),
{
    broadcast use vstd::seq_lib::group_to_multiset_ensures;

    if s.len() > 0 {
        lemma_sort_posts_props(s.drop_last());
        lemma_insert_sorted(s.last(), spec_sort_posts(s.drop_last()));
        lemma_insert_multiset(s.last(), spec_sort_posts(s.drop_last()));
        lemma_insert_at(s.last(), spec_sort_posts(s.drop_last()));
        assert(s =~= s.drop_last().push(s.last()));
        assert(s.drop_last().push(s.last()).to_multiset() =~= s.drop_last().to_multiset().insert(
            s.last(),
        ));
    }
}

/// Sorts the documents by date, newest first, stably: documents sharing a
/// date keep their relative order.
#[verifier::loop_isolation(false)]
pub fn sort_posts(posts: Vec<Post>) -> (r: Vec<Post>)
    requires
        forall|i: int| 0 <= i < posts@.len() ==> is_valid_date(
            (#[trigger] posts@[i]).metadata.date@,
        ),
    ensures
        r@ == spec_sort_posts(posts@),
        sorted_by_date_desc(r@),
        r@.to_multiset() == posts@.to_multiset(),
        r@.len() == posts@.len(),
{
    let ghost orig = posts@;
    let mut rem = posts;
    let mut out: Vec<Post> = Vec::new();
    let ghost mut k: int = 0;
    proof {
        assert(orig.skip(0) =~= orig);
        assert(out@ =~= spec_sort_posts(orig.subrange(0, 0)));
    }
    while rem.len() > 0
        invariant
            0 <= k <= orig.len(),
            rem@ =~= orig.skip(k),
            out@ =~= spec_sort_posts(orig.subrange(0, k)),
            sorted_by_date_desc(out@),
            forall|i: int| 0 <= i < out@.len() ==> is_valid_date(
                (#[trigger] out@[i]).metadata.date@,
            ),
        decreases rem@.len(),
    {
        let p = rem.remove(0);
        proof {
            assert(p == orig[k]);
            assert(rem@ =~= orig.skip(k + 1));
        }
        let pk = date_value(p.metadata.date.as_str());
        let mut j: usize = 0;
        while j < out.len() && date_value(out[j].metadata.date.as_str()) >= pk
            invariant
                j <= out@.len(),
                forall|m: int| 0 <= m < j ==> date_key(#[trigger] out@[m]) >= date_key(p),
            decreases out@.len() - j,
        {
            j = j + 1;
        }
        proof {
            lemma_insert_at(p, out@);
            let pos = spec_insert_pos(p, out@);
            if pos < j {
                assert(date_key(out@[pos]) >= date_key(p));
            }
            if (j as int) < pos {
                assert(date_key(out@[j as int]) >= date_key(p));
            }
            assert(pos == j as int);
            lemma_insert_sorted(p, out@);
        }
        let ghost out0 = out@;
        out.insert(j, p);
        proof {
            assert(out@ =~= out0.subrange(0, j as int) + seq![p] + out0.skip(j as int));
            assert(out@ =~= spec_insert_post(p, out0));
            assert(orig.subrange(0, k + 1).drop_last() =~= orig.subrange(0, k));
            assert(orig.subrange(0, k + 1).last() == orig[k]);
            k = k + 1;
        }
    }
    proof {
        assert(orig.subrange(0, k) =~= orig);
        lemma_sort_posts_props(orig);
    }
    out
}

/// The site builder: the configuration, the template engine, and the
/// markdown processor for one build.
#[derive(Debug)]
pub struct SiteGenerator {
    pub config: Config,
    pub engine: tera::Tera,
    pub markdown: MarkdownProcessor,
}

/// Whether every content file loads.
pub open spec fn all_sources_load(sources: Seq<SourceFile>) -> bool {
    forall|i: int|
        0 <= i < sources.len() ==> Post::spec_load_ok((#[trigger] sources[i]).content@)
}

/// The index of the first content file that fails to load, scanning from
/// `i`; the count when all load.
pub open spec fn first_bad_source(sources: Seq<SourceFile>, i: int) -> int
    decreases sources.len() - i,
    when 0 <= i <= sources.len()
{
    if i >= sources.len() {
        i
    } else if !Post::spec_load_ok(sources[i].content@) {
        i
    } else {
        first_bad_source(sources, i + 1)
    }
}

/// How a loaded, transformed document relates to its content file: the
/// validated metadata of the header, and both bodies with their asset
/// references rewritten under the document's slug.
pub open spec fn spec_transformed_from(p: Post, src: SourceFile, cfg: Config) -> bool {
    let content = src.content@;
    let hl = spec_header_lines(content);
    let slug = spec_slugify(spec_scalar_field(hl, "slug"@)->0);
    &&& Post::spec_load_ok(content)
    &&& p.metadata.title@ == spec_scalar_field(hl, "title"@)->0
    &&& p.metadata.date@ == spec_scalar_field(hl, "date"@)->0
    &&& p.metadata.author@ == (match spec_scalar_field(hl, "author"@) {
        Some(a) => a,
        None => "Anonymous"@,
    })
    &&& p.metadata.tags.deep_view() == (match spec_list_field(hl, "tags"@) {
        Some(t) => t,
        None => Seq::<Seq<char>>::empty(),
    })
    &&& p.metadata.preview@ == (match spec_scalar_field(hl, "preview"@) {
        Some(x) => x,
        None => Seq::<char>::empty(),
    })
    &&& p.metadata.slug@ == slug
    &&& p.metadata.read_time as int == spec_read_time(spec_body(content))
    &&& metadata_wf(p.metadata)
    &&& p.content@ == spec_asset_rewrite(spec_body(content), slug, cfg.build.post_assets_dir@)
    &&& p.html_content@ == spec_asset_rewrite(
        spec_render(spec_body(content)),
        slug,
        cfg.build.post_assets_dir@,
    )
}

/// What a successful build promises, the loaded documents as witness: the
/// plan's paths are exactly those of the sorted documents.
pub open spec fn spec_plan_ok(
    plan: BuildPlan,
    posts: Seq<Post>,
    sources: Seq<SourceFile>,
    cfg: Config,
) -> bool {
    let out_root = spec_join_path(cfg.site_dir@, cfg.build.output_dir@);
    let sorted = spec_sort_posts(posts);
    &&& posts.len() == sources.len()
    &&& (forall|i: int|
        0 <= i < sources.len() ==> spec_transformed_from(#[trigger] posts[i], sources[i], cfg))
    &&& plan.output_root@ == out_root
    &&& plan.pages@.len() == sorted.len() + 1
    &&& (forall|i: int|
        0 <= i < sorted.len() ==> (#[trigger] plan.pages@[i]).path@ == spec_join_path(
            spec_join_path(spec_join_path(out_root, "posts"@), sorted[i].metadata.slug@),
            "index.html"@,
        ))
    &&& plan.pages@[sorted.len() as int].path@ == spec_join_path(out_root, "index.html"@)
    &&& plan.asset_copies@.len() == sorted.len()
    &&& (forall|i: int|
        0 <= i < sorted.len() ==> ({
            let p = sorted[i];
            &&& (#[trigger] plan.asset_copies@[i]).source_dir@ == spec_join_path(
                spec_join_path(
                    spec_join_path(cfg.site_dir@, cfg.build.posts_dir@),
                    p.metadata.slug@,
                ),
                cfg.build.post_assets_dir@,
            )
            &&& plan.asset_copies@[i].dest_dir@ == spec_join_path(
                spec_join_path(
                    spec_join_path(
                        spec_join_path(cfg.site_dir@, cfg.build.output_dir@),
                        "posts"@,
                    ),
                    p.metadata.slug@,
                ),
                cfg.build.post_assets_dir@,
            )
        }))
    &&& plan.static_copy.source_dir@ == spec_join_path(cfg.site_dir@, cfg.build.static_dir@)
    &&& plan.static_copy.dest_dir@ == out_root
}

/// A plan for which loaded documents exist as a witness.
pub open spec fn some_plan_ok(plan: BuildPlan, sources: Seq<SourceFile>, cfg: Config) -> bool {
    exists|posts: Seq<Post>| spec_plan_ok(plan, posts, sources, cfg)
}

impl SiteGenerator {
    /// Builds the generator: refuses when the templates directory is
    /// absent, else registers the template sources with a fresh engine.
    /// Registration succeeds exactly when the engine accepts the list.
    pub fn new(config: Config, templates: Option<Vec<TemplateSource>>) -> (r: Result<
        SiteGenerator,
        Error,
    >)
        ensures
            templates is None ==> (r matches Err(e) && e matches Error::Template(m) && m@
                == "Templates directory does not exist"@),
            r is Ok <==> (templates matches Some(ts) && tera_accepts(template_views(ts@))),
            r matches Ok(g) ==> g.config == config && engine_templates(g.engine)
                == spec_templates_map(templates->0@),
            r matches Err(e) ==> e matches Error::Template(_),
    {
        let ts = match templates {
            Some(t) => t,
            None => {
                return Err(
                    Error::Template(String::from_str("Templates directory does not exist")),
                );
            },
        };
        match tera_build(&ts) {
            Ok(engine) => Ok(SiteGenerator { config, engine, markdown: MarkdownProcessor::new() }),
            Err(m) => Err(Error::Template(m)),
        }
    }

    /// Loads and transforms every content file, in the given order,
    /// aborting at the first failure.
    #[verifier::loop_isolation(false)]
    pub fn read_posts(&self, sources: &Vec<SourceFile>) -> (r: Result<Vec<Post>, Error>)
        ensures
            r is Ok <==> all_sources_load(sources@),
            r matches Ok(posts) ==> posts@.len() == sources@.len() && (forall|i: int|
                0 <= i < sources@.len() ==> spec_transformed_from(
                    #[trigger] posts@[i],
                    sources@[i],
                    self.config,
                )),
            r matches Err(e) ==> ({
                let b = first_bad_source(sources@, 0);
                &&& b < sources@.len()
                &&& e matches Error::Frontmatter { file, message } && file@ == sources@[b].path@
                    && message@ == Post::spec_load_error_message(sources@[b].content@)
            }),
    {
        let mut posts: Vec<Post> = Vec::new();
        let mut i: usize = 0;
        while i < sources.len()
            invariant
                i <= sources@.len(),
                posts@.len() == i,
                forall|j: int|
                    0 <= j < i ==> Post::spec_load_ok((#[trigger] sources@[j]).content@),
                forall|j: int|
                    0 <= j < i ==> spec_transformed_from(
                        #[trigger] posts@[j],
                        sources@[j],
                        self.config,
                    ),
                first_bad_source(sources@, 0) == first_bad_source(sources@, i as int),
            decreases sources@.len() - i,
        {
            let src = &sources[i];
            let mut post = match Post::new_from_path(
                src.path.as_str(),
                src.content.as_str(),
                &self.markdown,
            ) {
                Ok(p) => p,
                Err(e) => {
                    proof {
                        assert(!Post::spec_load_ok(sources@[i as int].content@));
                        assert(first_bad_source(sources@, i as int) == i as int);
                    }
                    return Err(e);
                },
            };
            post.process_asset_paths(&self.config);
            posts.push(post);
            i = i + 1;
        }
        Ok(posts)
    }

    /// Builds the whole site: load and transform every content file, sort
    /// newest first, render each document's page and the listing page, and
    /// plan the asset mirroring. The first load failure aborts the build
    /// with that file's error; a template failure aborts it with a template
    /// error.
    #[verifier::loop_isolation(false)]
    #[verifier::rlimit(100)]
    pub fn generate_site(&self, sources: &Vec<SourceFile>) -> (r: Result<BuildPlan, Error>)
        ensures
            r is Ok ==> all_sources_load(sources@),
            r matches Ok(plan) ==> some_plan_ok(plan, sources@, self.config),
            r matches Err(e) ==> (if !all_sources_load(sources@) {
                let b = first_bad_source(sources@, 0);
                &&& b < sources@.len()
                &&& e matches Error::Frontmatter { file, message } && file@ == sources@[b].path@
                    && message@ == Post::spec_load_error_message(sources@[b].content@)
            } else {
                e matches Error::Template(_)
            }),
    {
        let posts = match self.read_posts(sources) {
            Ok(p) => p,
            Err(e) => {
                return Err(e);
            },
        };
        let ghost posts_view = posts@;
        proof {
            assert forall|i: int| 0 <= i < posts_view.len() implies is_valid_date(
                (#[trigger] posts_view[i]).metadata.date@,
            ) by {
                assert(spec_transformed_from(posts_view[i], sources@[i], self.config));
            }
        }
        let sorted = sort_posts(posts);
        let ghost sorted_view = spec_sort_posts(posts_view);
        let out_root = self.config.output_dir();
        let mut pages: Vec<OutputFile> = Vec::new();
        let mut asset_copies: Vec<MirrorRequest> = Vec::new();
        let mut i: usize = 0;
        while i < sorted.len()
            invariant
                i <= sorted@.len(),
                pages@.len() == i,
                asset_copies@.len() == i,
                forall|j: int|
                    0 <= j < i ==> (#[trigger] pages@[j]).path@ == spec_join_path(
                        spec_join_path(
                            spec_join_path(out_root@, "posts"@),
                            sorted@[j].metadata.slug@,
                        ),
                        "index.html"@,
                    ),
                forall|j: int|
                    0 <= j < i ==> ({
                        let p = sorted@[j];
                        &&& (#[trigger] asset_copies@[j]).source_dir@ == spec_join_path(
                            spec_join_path(
                                spec_join_path(self.config.site_dir@, self.config.build.posts_dir@),
                                p.metadata.slug@,
                            ),
                            self.config.build.post_assets_dir@,
                        )
                        &&& asset_copies@[j].dest_dir@ == spec_join_path(
                            spec_join_path(
                                spec_join_path(
                                    spec_join_path(
                                        self.config.site_dir@,
                                        self.config.build.output_dir@,
                                    ),
                                    "posts"@,
                                ),
                                p.metadata.slug@,
                            ),
                            self.config.build.post_assets_dir@,
                        )
                    }),
            decreases sorted@.len() - i,
        {
            let post = &sorted[i];
            let ctx = post_context_json(post, &self.config);
            let html = match tera_render(&self.engine, "post.html", ctx.as_str()) {
                Ok(h) => h,
                Err(m) => {
                    return Err(Error::Template(m));
                },
            };
            let p1 = join_path(out_root.as_str(), "posts");
            let p2 = join_path(p1.as_str(), post.metadata.slug.as_str());
            let page_path = join_path(p2.as_str(), "index.html");
            pages.push(OutputFile { path: page_path, content: html });
            asset_copies.push(
                MirrorRequest {
                    source_dir: post.assets_dir(&self.config),
                    dest_dir: post.assets_output_dir(&self.config),
                },
            );
            i = i + 1;
        }
        let ctx = index_context_json(&sorted, &self.config);
        let html = match tera_render(&self.engine, "index.html", ctx.as_str()) {
            Ok(h) => h,
            Err(m) => {
                return Err(Error::Template(m));
            },
        };
        let index_path = join_path(out_root.as_str(), "index.html");
        pages.push(OutputFile { path: index_path, content: html });
        let static_src = self.config.static_dir();
        let dest_root = out_root.clone();
        let plan = BuildPlan {
            output_root: out_root,
            pages,
            asset_copies,
            static_copy: MirrorRequest { source_dir: static_src, dest_dir: dest_root },
        };
        proof {
            assert(spec_plan_ok(plan, posts_view, sources@, self.config));
            assert(some_plan_ok(plan, sources@, self.config));
        }
        Ok(plan)
    }
}

/// One rebuild of the watch loop: a fresh generator over the same
/// configuration, then a full build. It fails exactly as its stages do:
/// with the missing-templates message, a template error the engine chose,
/// or the first content file's own load error.
pub fn rebuild_site(
    config: Config,
    templates: Option<Vec<TemplateSource>>,
    sources: &Vec<SourceFile>,
) -> (r: Result<BuildPlan, Error>)
    ensures
        templates is None ==> (r matches Err(e) && e matches Error::Template(m) && m@
            == "Templates directory does not exist"@),
        r is Ok ==> (templates matches Some(ts) && tera_accepts(template_views(ts@)))
            && all_sources_load(sources@),
        r matches Ok(plan) ==> some_plan_ok(plan, sources@, config),
        r matches Err(e) ==> (if (templates matches Some(ts) && tera_accepts(template_views(ts@)))
            && !all_sources_load(sources@) {
            let b = first_bad_source(sources@, 0);
            &&& b < sources@.len()
            &&& e matches Error::Frontmatter { file, message } && file@ == sources@[b].path@
                && message@ == Post::spec_load_error_message(sources@[b].content@)
        } else {
            e matches Error::Template(_)
        }),
{
    match SiteGenerator::new(config, templates) {
        Ok(g) => g.generate_site(sources),
        Err(e) => Err(e),
    }
}

} // verus!

//! Site configuration: defaults baked into the library, values read from
//! the configuration file, and explicit caller overrides, resolved in that
//! order of precedence. Paths are strings joined with `/`; a component that
//! starts with `/` is absolute and replaces the base.

use vstd::prelude::*;

verus! {

use vstd::string::StrSliceExecFns;
use vstd::string::StringExecFns;
use crate::errors::Error;
use crate::text::{
    spec_split,
    spec_trim,
    spec_find_char,
    chars_of,
    string_of,
    sub_chars,
    trim_chars,
    chars_eq,
    find_char,
    split_char,
    clone_chars,
};
use crate::date::{is_digit, digit_val};

/// Whether a path string is absolute.
pub open spec fn spec_is_absolute(p: Seq<char>) -> bool {
    p.len() > 0 && p[0] == '/'
}

/// `base` extended by the component `rel`: `rel` alone when it is absolute
/// or the base is empty, else the two joined with a single `/`.
pub open spec fn spec_join_path(base: Seq<char>, rel: Seq<char>) -> Seq<char> {
    if spec_is_absolute(rel) || base.len() == 0 {
        rel
    } else if base[base.len() - 1] == '/' {
        base + rel
    } else {
        base + seq!['/'] + rel
    }
}

/// Joins a base path and a component.
pub fn join_path(base: &str, rel: &str) -> (r: String)
    ensures
        r@ == spec_join_path(base@, rel@),
{
    let bn = base.unicode_len();
    let rn = rel.unicode_len();
    let rel_absolute = rn > 0 && rel.get_char(0) == '/';
    if rel_absolute || bn == 0 {
        let r = String::from_str(rel);
        return r;
    }
    let mut r = String::from_str(base);
    if base.get_char(bn - 1) != '/' {
        r.append("/");
        proof {
            reveal_strlit("/");
            assert(r@ =~= base@ + seq!['/']);
        }
    }
    r.append(rel);
    proof {
        if base@[base@.len() - 1] != '/' {
            assert(r@ =~= base@ + seq!['/'] + rel@);
        }
    }
    r
}

/// The author identity of the site.
#[derive(Debug, Clone)]
pub struct Author {
    pub name: String,
    pub email: String,
}

impl Default for Author {
    /// The default author: anonymous, with a placeholder address.
    fn default() -> (a: Author)
        ensures
            a.name@ == "Anonymous"@,
            a.email@ == "author@example.com"@,
    {
        Author { name: String::from_str("Anonymous"), email: String::from_str("author@example.com") }
    }
}

/// Directory names and switches of the build stage.
#[derive(Debug, Clone)]
pub struct BuildConfig {
    pub verbose: bool,
    pub output_dir: String,
    pub posts_dir: String,
    pub templates_dir: String,
    pub static_dir: String,
    pub post_assets_dir: String,
}

impl Default for BuildConfig {
    /// The default build layout.
    fn default() -> (b: BuildConfig)
        ensures
            b.verbose == false,
            b.output_dir@ == "dist"@,
            b.posts_dir@ == "posts"@,
            b.templates_dir@ == "templates"@,
            b.static_dir@ == "static"@,
            b.post_assets_dir@ == "assets"@,
    {
        BuildConfig {
            verbose: false,
            output_dir: String::from_str("dist"),
            posts_dir: String::from_str("posts"),
            templates_dir: String::from_str("templates"),
            static_dir: String::from_str("static"),
            post_assets_dir: String::from_str("assets"),
        }
    }
}

/// Switches of the preview server.
#[derive(Debug, Clone)]
pub struct ServerConfig {
    pub auto_build: bool,
    pub port: u16,
    pub hot_reload: bool,
}

impl Default for ServerConfig {
    /// The default server settings.
    fn default() -> (s: ServerConfig)
        ensures
            s.auto_build == true,
            s.port == 8080,
            s.hot_reload == true,
    {
        ServerConfig { auto_build: true, port: 8080, hot_reload: true }
    }
}

/// The resolved configuration of one site.
#[derive(Debug, Clone)]
pub struct Config {
    pub site_dir: String,
    pub base_url: String,
    pub title: String,
    pub description: String,
    pub author: Author,
    pub build: BuildConfig,
    pub server: ServerConfig,
}

impl Default for Config {
    /// The full default configuration, with an empty site directory.
    fn default() -> (c: Config)
        ensures
            c.site_dir@.len() == 0,
            c.base_url@ == "http://localhost"@,
            c.title@ == "My Terminal Velocity Blog"@,
            c.description@ == "A blazingly fast tech blog"@,
            c.author.name@ == "Anonymous"@,
            c.author.email@ == "author@example.com"@,
            c.build.verbose == false,
            c.build.output_dir@ == "dist"@,
            c.build.posts_dir@ == "posts"@,
            c.build.templates_dir@ == "templates"@,
            c.build.static_dir@ == "static"@,
            c.build.post_assets_dir@ == "assets"@,
            c.server.auto_build == true,
            c.server.port == 8080,
            c.server.hot_reload == true,
    {
        Config {
            site_dir: String::new(),
            base_url: String::from_str("http://localhost"),
            title: String::from_str("My Terminal Velocity Blog"),
            description: String::from_str("A blazingly fast tech blog"),
            author: Author::default(),
            build: BuildConfig::default(),
            server: ServerConfig::default(),
        }
    }
}

/// Explicit caller overrides; a `None` field keeps the configured value.
#[derive(Debug)]
pub struct ConfigOverrides {
    pub port: Option<u16>,
    pub verbose: Option<bool>,
    pub hot_reload: Option<bool>,
    pub output_dir: Option<String>,
    pub author: Option<String>,
    pub auto_build: Option<bool>,
}

impl Default for ConfigOverrides {
    /// No overrides.
    fn default() -> (o: ConfigOverrides)
        ensures
            o.port is None,
            o.verbose is None,
            o.hot_reload is None,
            o.output_dir is None,
            o.author is None,
            o.auto_build is None,
    {
        ConfigOverrides {
            port: None,
            verbose: None,
            hot_reload: None,
            output_dir: None,
            author: None,
            auto_build: None,
        }
    }
}

impl Config {
    /// Applies explicit overrides on top of this configuration; settings
    /// without an override keep their values.
    pub fn with_overrides(self, overrides: ConfigOverrides) -> (c: Config)
        ensures
            c.server.port == (match overrides.port {
                Some(p) => p,
                None => self.server.port,
            }),
            c.build.verbose == (match overrides.verbose {
                Some(v) => v,
                None => self.build.verbose,
            }),
            c.server.hot_reload == (match overrides.hot_reload {
                Some(h) => h,
                None => self.server.hot_reload,
            }),
            c.build.output_dir@ == (match overrides.output_dir {
                Some(d) => d@,
                None => self.build.output_dir@,
            }),
            c.author.name@ == (match overrides.author {
                Some(a) => a@,
                None => self.author.name@,
            }),
            c.site_dir == self.site_dir,
            c.base_url == self.base_url,
            c.title == self.title,
            c.description == self.description,
            c.author.email == self.author.email,
            c.build.posts_dir == self.build.posts_dir,
            c.build.templates_dir == self.build.templates_dir,
            c.build.static_dir == self.build.static_dir,
            c.build.post_assets_dir == self.build.post_assets_dir,
            c.server.auto_build == (match overrides.auto_build {
                Some(a) => a,
                None => self.server.auto_build,
            }),
    {
        let mut c = self;
        match overrides.port {
            Some(p) => {
                c.server.port = p;
            },
            None => {},
        }
        match overrides.verbose {
            Some(v) => {
                c.build.verbose = v;
            },
            None => {},
        }
        match overrides.hot_reload {
            Some(h) => {
                c.server.hot_reload = h;
            },
            None => {},
        }
        match overrides.output_dir {
            Some(d) => {
                c.build.output_dir = d;
            },
            None => {},
        }
        match overrides.author {
            Some(a) => {
                c.author.name = a;
            },
            None => {},
        }
        match overrides.auto_build {
            Some(a) => {
                c.server.auto_build = a;
            },
            None => {},
        }
        c
    }

    /// The directory holding the content files.
    pub fn posts_dir(&self) -> (r: String)
        ensures
            r@ == spec_join_path(self.site_dir@, self.build.posts_dir@),
    {
        join_path(self.site_dir.as_str(), self.build.posts_dir.as_str())
    }

    /// The directory the site is generated into.
    pub fn output_dir(&self) -> (r: String)
        ensures
            r@ == spec_join_path(self.site_dir@, self.build.output_dir@),
    {
        join_path(self.site_dir.as_str(), self.build.output_dir.as_str())
    }

    /// The directory holding the page templates.
    pub fn templates_dir(&self) -> (r: String)
        ensures
            r@ == spec_join_path(self.site_dir@, self.build.templates_dir@),
    {
        join_path(self.site_dir.as_str(), self.build.templates_dir.as_str())
    }

    /// The directory holding the static asset tree.
    pub fn static_dir(&self) -> (r: String)
        ensures
            r@ == spec_join_path(self.site_dir@, self.build.static_dir@),
    {
        join_path(self.site_dir.as_str(), self.build.static_dir.as_str())
    }
}

/// The kind of value a recognized configuration key takes.
#[derive(Debug)]
pub enum ValueKind {
    VString,
    VBool,
    VPort,
}

/// A configuration line carrying nothing: blank, or a `#` comment.
pub open spec fn spec_cfg_skip(l: Seq<char>) -> bool {
    spec_trim(l).len() == 0 || spec_trim(l)[0] == '#'
}

/// The value text with a trailing `#` comment removed: for a quoted value,
/// whatever follows the closing quote when that is only a comment; for a
/// bare value, everything from the first `#`.
pub open spec fn spec_cut_comment(t: Seq<char>) -> Seq<char> {
    if t.len() > 0 && (t[0] == '"' || t[0] == '\'') {
        match spec_find_char(t, t[0], 1) {
            Some(j) => {
                let rest = spec_trim(t.subrange(j + 1, t.len() as int));
                if rest.len() == 0 || rest[0] == '#' {
                    t.subrange(0, j + 1)
                } else {
                    t
                }
            },
            None => t,
        }
    } else {
        match spec_find_char(t, '#', 0) {
            Some(k) => spec_trim(t.subrange(0, k)),
            None => t,
        }
    }
}

/// Executable form of [`spec_cut_comment`].
fn cut_comment(t: &Vec<char>) -> (r: Vec<char>)
    ensures
        r@ == spec_cut_comment(t@),
{
    if t.len() > 0 {
        let q = t[0];
        if q == '"' || q == '\'' {
            match find_char(t, q, 1) {
                Some(j) => {
                    let after = sub_chars(t, j + 1, t.len());
                    let rest = trim_chars(&after);
                    if rest.len() == 0 || rest[0] == '#' {
                        return sub_chars(t, 0, j + 1);
                    }
                    return clone_chars(t);
                },
                None => {
                    return clone_chars(t);
                },
            }
        }
    }
    match find_char(t, '#', 0) {
        Some(k) => {
            let before = sub_chars(t, 0, k);
            trim_chars(&before)
        },
        None => clone_chars(t),
    }
}

/// The section a `[name]` line opens, or `None` for any other line; a
/// trailing `#` comment on the header line is ignored.
pub open spec fn spec_section_name(l: Seq<char>) -> Option<Seq<char>> {
    let t0 = spec_trim(l);
    if t0.len() > 0 && t0[0] == '[' {
        let t = match spec_find_char(t0, '#', 0) {
            Some(k) => spec_trim(t0.subrange(0, k)),
            None => t0,
        };
        if t.len() >= 2 && t[0] == '[' && t[t.len() - 1] == ']' {
            Some(spec_trim(t.subrange(1, t.len() - 1)))
        } else {
            None
        }
    } else {
        None
    }
}

/// A quoted string value: the text between matching quotes.
pub open spec fn spec_value_string(t: Seq<char>) -> Option<Seq<char>> {
    if t.len() >= 2 && (t[0] == '"' || t[0] == '\'') && t[t.len() - 1] == t[0] {
        Some(t.subrange(1, t.len() - 1))
    } else {
        None
    }
}

/// A boolean value: the word `true` or `false`.
pub open spec fn spec_value_bool(t: Seq<char>) -> Option<bool> {
    if t == "true"@ {
        Some(true)
    } else if t == "false"@ {
        Some(false)
    } else {
        None
    }
}

/// A nonempty run of decimal digits.
pub open spec fn spec_int_form(t: Seq<char>) -> bool {
    t.len() >= 1 && forall|i: int| 0 <= i < t.len() ==> is_digit(#[trigger] t[i])
}

/// The number the digits spell.
pub open spec fn spec_digits_val(t: Seq<char>) -> int
    decreases t.len(),
{
    if t.len() == 0 {
        0
    } else {
        spec_digits_val(t.drop_last()) * 10 + digit_val(t[t.len() - 1])
    }
}

/// The kind of value the key takes in the given section; `None` for a key
/// this configuration does not recognize.
pub open spec fn expected_kind(sec: Seq<char>, key: Seq<char>) -> Option<ValueKind> {
    if sec.len() == 0 {
        if key == "base_url"@ || key == "title"@ || key == "description"@ {
            Some(ValueKind::VString)
        } else {
            None
        }
    } else if sec == "author"@ {
        if key == "name"@ || key == "email"@ {
            Some(ValueKind::VString)
        } else {
            None
        }
    } else if sec == "build"@ {
        if key == "verbose"@ {
            Some(ValueKind::VBool)
        } else if key == "output_dir"@ || key == "posts_dir"@ || key == "templates_dir"@ || key
            == "static_dir"@ || key == "post_assets_dir"@ {
            Some(ValueKind::VString)
        } else {
            None
        }
    } else if sec == "server"@ {
        if key == "auto_build"@ || key == "hot_reload"@ {
            Some(ValueKind::VBool)
        } else if key == "port"@ {
            Some(ValueKind::VPort)
        } else {
            None
        }
    } else {
        None
    }
}

/// Whether the value text suits the kind.
pub open spec fn value_has_kind(t: Seq<char>, k: ValueKind) -> bool {
    match k {
        ValueKind::VString => spec_value_string(t) is Some,
        ValueKind::VBool => spec_value_bool(t) is Some,
        ValueKind::VPort => spec_int_form(t) && spec_digits_val(t) <= u16::MAX,
    }
}

/// A value in one of the three recognized forms, for unrecognized keys.
pub open spec fn spec_value_form_ok(t: Seq<char>) -> bool {
    ||| spec_value_string(t) is Some
    ||| spec_value_bool(t) is Some
    ||| spec_int_form(t)
}

/// Whether the lines from `i` on parse, `cur` being the open section:
/// each is blank, a comment, a section header, or a `key = value` line
/// whose value parses and suits the key.
pub open spec fn spec_cfg_valid_from(lines: Seq<Seq<char>>, i: int, cur: Seq<char>) -> bool
    decreases lines.len() - i,
    when 0 <= i <= lines.len()
{
    if i >= lines.len() {
        true
    } else {
        let l = lines[i];
        if spec_cfg_skip(l) {
            spec_cfg_valid_from(lines, i + 1, cur)
        } else {
            match spec_section_name(l) {
                Some(s) => spec_cfg_valid_from(lines, i + 1, s),
                None => match spec_find_char(l, '=', 0) {
                    None => false,
                    Some(e) => {
                        let k = spec_trim(l.subrange(0, e));
                        let t = spec_cut_comment(spec_trim(l.subrange(e + 1, l.len() as int)));
                        &&& (match expected_kind(cur, k) {
                            Some(kind) => value_has_kind(t, kind),
                            None => spec_value_form_ok(t),
                        })
                        &&& spec_cfg_valid_from(lines, i + 1, cur)
                    },
                },
            }
        }
    }
}

/// The text of the last value the lines from `i` on assign to `key` in
/// section `sec`, `acc` holding the last assignment seen so far.
pub open spec fn spec_cfg_field(
    lines: Seq<Seq<char>>,
    i: int,
    cur: Seq<char>,
    sec: Seq<char>,
    key: Seq<char>,
    acc: Option<Seq<char>>,
) -> Option<Seq<char>>
    decreases lines.len() - i,
    when 0 <= i <= lines.len()
{
    if i >= lines.len() {
        acc
    } else {
        let l = lines[i];
        if spec_cfg_skip(l) {
            spec_cfg_field(lines, i + 1, cur, sec, key, acc)
        } else {
            match spec_section_name(l) {
                Some(s) => spec_cfg_field(lines, i + 1, s, sec, key, acc),
                None => match spec_find_char(l, '=', 0) {
                    None => spec_cfg_field(lines, i + 1, cur, sec, key, acc),
                    Some(e) => {
                        let k = spec_trim(l.subrange(0, e));
                        let t = spec_cut_comment(spec_trim(l.subrange(e + 1, l.len() as int)));
                        if cur == sec && k == key {
                            spec_cfg_field(lines, i + 1, cur, sec, key, Some(t))
                        } else {
                            spec_cfg_field(lines, i + 1, cur, sec, key, acc)
                        }
                    },
                },
            }
        }
    }
}

/// In a parseable configuration, the value found for a recognized key
/// suits that key's kind.
proof fn lemma_field_typed(
    lines: Seq<Seq<char>>,
    i: int,
    cur: Seq<char>,
    sec: Seq<char>,
    key: Seq<char>,
    acc: Option<Seq<char>>,
    k: ValueKind,
)
    requires
        0 <= i <= lines.len(),
        spec_cfg_valid_from(lines, i, cur),
        expected_kind(sec, key) == Some(k),
        match acc {
            Some(t) => value_has_kind(t, k),
            None => true,
        },
        spec_cfg_field(lines, i, cur, sec, key, acc) is Some,
    ensures
        value_has_kind(spec_cfg_field(lines, i, cur, sec, key, acc)->0, k),
    decreases lines.len() - i,
{
    if i < lines.len() {
        let l = lines[i];
        if spec_cfg_skip(l) {
            lemma_field_typed(lines, i + 1, cur, sec, key, acc, k);
        } else {
            match spec_section_name(l) {
                Some(s) => {
                    lemma_field_typed(lines, i + 1, s, sec, key, acc, k);
                },
                None => {
                    let e = spec_find_char(l, '=', 0)->0;
                    let lk = spec_trim(l.subrange(0, e));
                    let t = spec_cut_comment(spec_trim(l.subrange(e + 1, l.len() as int)));
                    if cur == sec && lk == key {
                        lemma_field_typed(lines, i + 1, cur, sec, key, Some(t), k);
                    } else {
                        lemma_field_typed(lines, i + 1, cur, sec, key, acc, k);
                    }
                },
            }
        }
    }
}

/// The value text the whole configuration assigns to `key` in `sec`.
pub open spec fn cfg_text(content: Seq<char>, sec: Seq<char>, key: Seq<char>) -> Option<Seq<char>> {
    spec_cfg_field(spec_split(content, '\n'), 0, Seq::<char>::empty(), sec, key, None)
}

/// The string value for a key, or the default when the file gives none.
pub open spec fn cfg_str(content: Seq<char>, sec: Seq<char>, key: Seq<char>, dflt: Seq<char>) -> Seq<
    char,
> {
    match cfg_text(content, sec, key) {
        Some(t) => spec_value_string(t)->0,
        None => dflt,
    }
}

/// The boolean value for a key, or the default.
pub open spec fn cfg_bool(content: Seq<char>, sec: Seq<char>, key: Seq<char>, dflt: bool) -> bool {
    match cfg_text(content, sec, key) {
        Some(t) => spec_value_bool(t)->0,
        None => dflt,
    }
}

/// The port value, or the default.
pub open spec fn cfg_port(content: Seq<char>, dflt: u16) -> int {
    match cfg_text(content, "server"@, "port"@) {
        Some(t) => spec_digits_val(t),
        None => dflt as int,
    }
}

/// Whether the whole configuration text parses.
pub open spec fn spec_cfg_valid(content: Seq<char>) -> bool {
    spec_cfg_valid_from(spec_split(content, '\n'), 0, Seq::<char>::empty())
}

/// `s` without trailing `/` characters.
pub open spec fn spec_strip_trailing_slash(s: Seq<char>) -> Seq<char>
    decreases s.len(),
{
    if s.len() > 0 && s[s.len() - 1] == '/' {
        spec_strip_trailing_slash(s.drop_last())
    } else {
        s
    }
}

proof fn lemma_strip_slash_range(s: Seq<char>, k: int)
    requires
        0 <= k <= s.len(),
        forall|j: int| k <= j < s.len() ==> s[j] == '/',
        k == 0 || s[k - 1] != '/',
    ensures
        spec_strip_trailing_slash(s) =~= s.subrange(0, k),
    decreases s.len(),
{
    if k == s.len() {
        assert(s.subrange(0, s.len() as int) =~= s);
    } else {
        lemma_strip_slash_range(s.drop_last(), k);
        assert(s.drop_last().subrange(0, k) =~= s.subrange(0, k));
    }
}

/// Removes trailing slashes from a path or URL.
fn strip_trailing_slash(s: &Vec<char>) -> (out: Vec<char>)
    ensures
        out@ == spec_strip_trailing_slash(s@),
{
    let mut hi: usize = s.len();
    while hi > 0 && s[hi - 1] == '/'
        invariant
            hi <= s.len(),
            forall|j: int| hi <= j < s.len() ==> s@[j] == '/',
        decreases hi,
    {
        hi = hi - 1;
    }
    proof {
        lemma_strip_slash_range(s@, hi as int);
    }
    sub_chars(s, 0, hi)
}

/// Whether the line carries nothing.
fn cfg_skip_line(l: &Vec<char>) -> (r: bool)
    ensures
        r == spec_cfg_skip(l@),
{
    let t = trim_chars(l);
    t.len() == 0 || t[0] == '#'
}

/// The section a line opens, if it is a section header.
fn section_name(l: &Vec<char>) -> (r: Option<Vec<char>>)
    ensures
        match r {
            Some(s) => spec_section_name(l@) == Some(s@),
            None => spec_section_name(l@) is None,
        },
{
    let t0 = trim_chars(l);
    if !(t0.len() > 0 && t0[0] == '[') {
        return None;
    }
    let t = match find_char(&t0, '#', 0) {
        Some(k) => {
            let before = sub_chars(&t0, 0, k);
            trim_chars(&before)
        },
        None => t0,
    };
    if t.len() >= 2 && t[0] == '[' && t[t.len() - 1] == ']' {
        let inner = sub_chars(&t, 1, t.len() - 1);
        Some(trim_chars(&inner))
    } else {
        None
    }
}

/// The text between matching quotes, when the value is a quoted string.
fn value_string(t: &Vec<char>) -> (r: Option<Vec<char>>)
    ensures
        match r {
            Some(v) => spec_value_string(t@) == Some(v@),
            None => spec_value_string(t@) is None,
        },
{
    if t.len() >= 2 {
        let q = t[0];
        if (q == '"' || q == '\'') && t[t.len() - 1] == q {
            return Some(sub_chars(t, 1, t.len() - 1));
        }
    }
    None
}

/// The boolean a value spells, when it is `true` or `false`.
fn value_bool(t: &Vec<char>) -> (r: Option<bool>)
    ensures
        r == spec_value_bool(t@),
{
    let tr = chars_of("true");
    if chars_eq(t, &tr) {
        return Some(true);
    }
    let fa = chars_of("false");
    if chars_eq(t, &fa) {
        return Some(false);
    }
    None
}

/// Whether the value is a nonempty run of digits.
fn int_form(t: &Vec<char>) -> (r: bool)
    ensures
        r == spec_int_form(t@),
{
    if t.len() == 0 {
        return false;
    }
    let mut i: usize = 0;
    while i < t.len()
        invariant
            i <= t.len(),
            forall|j: int| 0 <= j < i ==> is_digit(#[trigger] t@[j]),
        decreases t.len() - i,
    {
        let c = t[i];
        if !('0' <= c && c <= '9') {
            return false;
        }
        i = i + 1;
    }
    true
}

proof fn lemma_digits_nonneg(t: Seq<char>)
    requires
        forall|j: int| 0 <= j < t.len() ==> is_digit(#[trigger] t[j]),
    ensures
        spec_digits_val(t) >= 0,
    decreases t.len(),
{
    if t.len() > 0 {
        lemma_digits_nonneg(t.drop_last());
    }
}

/// The port number a value spells, when it is digits fitting the type.
#[verifier::loop_isolation(false)]
fn parse_port(t: &Vec<char>) -> (r: Option<u16>)
    ensures
        r is Some <==> spec_int_form(t@) && spec_digits_val(t@) <= u16::MAX,
        r matches Some(p) ==> p as int == spec_digits_val(t@),
{
    if !int_form(t) {
        return None;
    }
    let mut v: u32 = 0;
    let mut big = false;
    let mut i: usize = 0;
    proof {
        assert(t@.subrange(0, 0) =~= Seq::<char>::empty());
    }
    while i < t.len()
        invariant
            i <= t.len(),
            !big ==> v as int == spec_digits_val(t@.subrange(0, i as int)) && v <= 655359,
            big ==> spec_digits_val(t@.subrange(0, i as int)) > u16::MAX,
        decreases t.len() - i,
    {
        let ghost pre = t@.subrange(0, i as int);
        let ghost pre1 = t@.subrange(0, i + 1);
        proof {
            assert(pre1.drop_last() =~= pre);
            assert(pre1[pre1.len() - 1] == t@[i as int]);
            lemma_digits_nonneg(pre);
        }
        let c = t[i];
        let d = (c as u32) - ('0' as u32);
        if big || v > u16::MAX as u32 {
            big = true;
            proof {
                assert(spec_digits_val(pre1) == spec_digits_val(pre) * 10 + digit_val(t@[i as int]));
            }
        } else {
            v = v * 10 + d;
        }
        i = i + 1;
    }
    proof {
        assert(t@.subrange(0, t@.len() as int) =~= t@);
    }
    if big {
        return None;
    }
    if v > u16::MAX as u32 {
        return None;
    }
    Some(v as u16)
}

/// Executable form of [`expected_kind`].
fn kind_of(sec: &Vec<char>, key: &Vec<char>) -> (r: Option<ValueKind>)
    ensures
        r == expected_kind(sec@, key@),
{
    if sec.len() == 0 {
        if chars_eq(key, &chars_of("base_url")) || chars_eq(key, &chars_of("title")) || chars_eq(
            key,
            &chars_of("description"),
        ) {
            return Some(ValueKind::VString);
        }
        return None;
    }
    if chars_eq(sec, &chars_of("author")) {
        if chars_eq(key, &chars_of("name")) || chars_eq(key, &chars_of("email")) {
            return Some(ValueKind::VString);
        }
        return None;
    }
    if chars_eq(sec, &chars_of("build")) {
        if chars_eq(key, &chars_of("verbose")) {
            return Some(ValueKind::VBool);
        }
        if chars_eq(key, &chars_of("output_dir")) || chars_eq(key, &chars_of("posts_dir"))
            || chars_eq(key, &chars_of("templates_dir")) || chars_eq(key, &chars_of("static_dir"))
            || chars_eq(key, &chars_of("post_assets_dir")) {
            return Some(ValueKind::VString);
        }
        return None;
    }
    if chars_eq(sec, &chars_of("server")) {
        if chars_eq(key, &chars_of("auto_build")) || chars_eq(key, &chars_of("hot_reload")) {
            return Some(ValueKind::VBool);
        }
        if chars_eq(key, &chars_of("port")) {
            return Some(ValueKind::VPort);
        }
        return None;
    }
    None
}

/// Checks every line of the configuration.
#[verifier::loop_isolation(false)]
fn cfg_valid(lines: &Vec<Vec<char>>) -> (r: bool)
    ensures
        r == spec_cfg_valid_from(lines.deep_view(), 0, Seq::<char>::empty()),
{
    let ghost dv = lines.deep_view();
    proof {
        crate::text::lemma_chars_deep_view(lines);
    }
    let mut cur: Vec<char> = Vec::new();
    let mut i: usize = 0;
    while i < lines.len()
        invariant
            i <= lines@.len(),
            spec_cfg_valid_from(dv, 0, Seq::<char>::empty()) == spec_cfg_valid_from(
                dv,
                i as int,
                cur@,
            ),
        decreases lines@.len() - i,
    {
        let l = &lines[i];
        if cfg_skip_line(l) {
            i = i + 1;
            continue ;
        }
        match section_name(l) {
            Some(s) => {
                cur = s;
                i = i + 1;
                continue ;
            },
            None => {},
        }
        let e = match find_char(l, '=', 0) {
            Some(e) => e,
            None => {
                return false;
            },
        };
        let kpart = sub_chars(l, 0, e);
        let key = trim_chars(&kpart);
        let ln = l.len();
        let vpart = sub_chars(l, e + 1, ln);
        let tv = trim_chars(&vpart);
        let t = cut_comment(&tv);
        let ok = match kind_of(&cur, &key) {
            Some(ValueKind::VString) => value_string(&t).is_some(),
            Some(ValueKind::VBool) => value_bool(&t).is_some(),
            Some(ValueKind::VPort) => parse_port(&t).is_some(),
            None => value_string(&t).is_some() || value_bool(&t).is_some() || int_form(&t),
        };
        if !ok {
            return false;
        }
        i = i + 1;
    }
    true
}

/// The view of an optional character vector.
pub open spec fn opt_chars_view(o: Option<Vec<char>>) -> Option<Seq<char>> {
    match o {
        Some(v) => Some(v@),
        None => None,
    }
}

/// Scans the whole configuration for the last value of one key.
#[verifier::loop_isolation(false)]
fn cfg_field(lines: &Vec<Vec<char>>, sec: &Vec<char>, key: &Vec<char>) -> (r: Option<Vec<char>>)
    ensures
        opt_chars_view(r) == spec_cfg_field(
            lines.deep_view(),
            0,
            Seq::<char>::empty(),
            sec@,
            key@,
            None,
        ),
{
    let ghost dv = lines.deep_view();
    proof {
        crate::text::lemma_chars_deep_view(lines);
    }
    let mut cur: Vec<char> = Vec::new();
    let mut acc: Option<Vec<char>> = None;
    let mut i: usize = 0;
    while i < lines.len()
        invariant
            i <= lines@.len(),
            spec_cfg_field(dv, 0, Seq::<char>::empty(), sec@, key@, None) == spec_cfg_field(
                dv,
                i as int,
                cur@,
                sec@,
                key@,
                opt_chars_view(acc),
            ),
        decreases lines@.len() - i,
    {
        let l = &lines[i];
        if cfg_skip_line(l) {
            i = i + 1;
            continue ;
        }
        match section_name(l) {
            Some(s) => {
                cur = s;
                i = i + 1;
                continue ;
            },
            None => {},
        }
        match find_char(l, '=', 0) {
            Some(e) => {
                let kpart = sub_chars(l, 0, e);
                let k = trim_chars(&kpart);
                let ln = l.len();
                let vpart = sub_chars(l, e + 1, ln);
                let tv = trim_chars(&vpart);
                let t = cut_comment(&tv);
                if chars_eq(&cur, sec) && chars_eq(&k, key) {
                    acc = Some(t);
                }
            },
            None => {},
        }
        i = i + 1;
    }
    acc
}

/// The recognized keys and their kinds, spelled out for the literal
/// section and key names the loader uses.
proof fn lemma_section_kinds()
    ensures
        expected_kind(Seq::<char>::empty(), "base_url"@) == Some(ValueKind::VString),
        expected_kind(Seq::<char>::empty(), "title"@) == Some(ValueKind::VString),
        expected_kind(Seq::<char>::empty(), "description"@) == Some(ValueKind::VString),
        expected_kind("author"@, "name"@) == Some(ValueKind::VString),
        expected_kind("author"@, "email"@) == Some(ValueKind::VString),
        expected_kind("build"@, "verbose"@) == Some(ValueKind::VBool),
        expected_kind("build"@, "output_dir"@) == Some(ValueKind::VString),
        expected_kind("build"@, "posts_dir"@) == Some(ValueKind::VString),
        expected_kind("build"@, "templates_dir"@) == Some(ValueKind::VString),
        expected_kind("build"@, "static_dir"@) == Some(ValueKind::VString),
        expected_kind("build"@, "post_assets_dir"@) == Some(ValueKind::VString),
        expected_kind("server"@, "auto_build"@) == Some(ValueKind::VBool),
        expected_kind("server"@, "hot_reload"@) == Some(ValueKind::VBool),
        expected_kind("server"@, "port"@) == Some(ValueKind::VPort),
{
    reveal_strlit("author");
    reveal_strlit("build");
    reveal_strlit("server");
    reveal_strlit("verbose");
    reveal_strlit("output_dir");
    reveal_strlit("posts_dir");
    reveal_strlit("templates_dir");
    reveal_strlit("static_dir");
    reveal_strlit("post_assets_dir");
    reveal_strlit("port");
    reveal_strlit("auto_build");
    reveal_strlit("hot_reload");
    assert("author"@.len() == 6);
    assert("build"@.len() == 5);
    assert("server"@.len() == 6);
    assert("author"@ != "build"@) by {
        assert("author"@[0] == 'a' && "build"@[0] == 'b');
    }
    assert("author"@ != "server"@) by {
        assert("author"@[0] == 'a' && "server"@[0] == 's');
    }
    assert("build"@ != "server"@) by {
        assert("build"@[0] == 'b' && "server"@[0] == 's');
    }
    assert("output_dir"@ != "verbose"@) by {
        assert("output_dir"@.len() == 10 && "verbose"@.len() == 7);
    }
    assert("posts_dir"@ != "verbose"@) by {
        assert("posts_dir"@.len() == 9 && "verbose"@.len() == 7);
    }
    assert("templates_dir"@ != "verbose"@) by {
        assert("templates_dir"@.len() == 13 && "verbose"@.len() == 7);
    }
    assert("static_dir"@ != "verbose"@) by {
        assert("static_dir"@.len() == 10 && "verbose"@.len() == 7);
    }
    assert("post_assets_dir"@ != "verbose"@) by {
        assert("post_assets_dir"@.len() == 15 && "verbose"@.len() == 7);
    }
    assert("port"@ != "auto_build"@) by {
        assert("port"@.len() == 4 && "auto_build"@.len() == 10);
    }
    assert("port"@ != "hot_reload"@) by {
        assert("port"@.len() == 4 && "hot_reload"@.len() == 10);
    }
}

/// Looks up a string key, returning `current` when the file gives none.
fn take_string(lines: &Vec<Vec<char>>, sec: &Vec<char>, key: &Vec<char>, current: String) -> (r:
    String)
    requires
        spec_cfg_valid_from(lines.deep_view(), 0, Seq::<char>::empty()),
        expected_kind(sec@, key@) == Some(ValueKind::VString),
    ensures
        r@ == (match spec_cfg_field(lines.deep_view(), 0, Seq::<char>::empty(), sec@, key@, None) {
            Some(t) => spec_value_string(t)->0,
            None => current@,
        }),
{
    match cfg_field(lines, sec, key) {
        Some(t) => {
            proof {
                lemma_field_typed(
                    lines.deep_view(),
                    0,
                    Seq::<char>::empty(),
                    sec@,
                    key@,
                    None,
                    ValueKind::VString,
                );
            }
            match value_string(&t) {
                Some(v) => string_of(&v),
                None => vstd::pervasive::unreached(),
            }
        },
        None => current,
    }
}

/// Looks up a boolean key, returning `current` when the file gives none.
fn take_bool(lines: &Vec<Vec<char>>, sec: &Vec<char>, key: &Vec<char>, current: bool) -> (r: bool)
    requires
        spec_cfg_valid_from(lines.deep_view(), 0, Seq::<char>::empty()),
        expected_kind(sec@, key@) == Some(ValueKind::VBool),
    ensures
        r == (match spec_cfg_field(lines.deep_view(), 0, Seq::<char>::empty(), sec@, key@, None) {
            Some(t) => spec_value_bool(t)->0,
            None => current,
        }),
{
    match cfg_field(lines, sec, key) {
        Some(t) => {
            proof {
                lemma_field_typed(
                    lines.deep_view(),
                    0,
                    Seq::<char>::empty(),
                    sec@,
                    key@,
                    None,
                    ValueKind::VBool,
                );
            }
            match value_bool(&t) {
                Some(v) => v,
                None => vstd::pervasive::unreached(),
            }
        },
        None => current,
    }
}

/// How a loaded configuration relates to the text it was read from: every
/// field is the last value the text assigns it, or its default.
pub open spec fn config_resolves(c: Config, content: Seq<char>, site_dir: Seq<char>) -> bool {
    let none = Seq::<char>::empty();
    &&& c.site_dir@ == site_dir
    &&& c.base_url@ == spec_strip_trailing_slash(
        cfg_str(content, none, "base_url"@, "http://localhost"@),
    )
    &&& c.title@ == cfg_str(content, none, "title"@, "My Terminal Velocity Blog"@)
    &&& c.description@ == cfg_str(content, none, "description"@, "A blazingly fast tech blog"@)
    &&& c.author.name@ == cfg_str(content, "author"@, "name"@, "Anonymous"@)
    &&& c.author.email@ == cfg_str(content, "author"@, "email"@, "author@example.com"@)
    &&& c.build.verbose == cfg_bool(content, "build"@, "verbose"@, false)
    &&& c.build.output_dir@ == cfg_str(content, "build"@, "output_dir"@, "dist"@)
    &&& c.build.posts_dir@ == cfg_str(content, "build"@, "posts_dir"@, "posts"@)
    &&& c.build.templates_dir@ == cfg_str(content, "build"@, "templates_dir"@, "templates"@)
    &&& c.build.static_dir@ == cfg_str(content, "build"@, "static_dir"@, "static"@)
    &&& c.build.post_assets_dir@ == cfg_str(content, "build"@, "post_assets_dir"@, "assets"@)
    &&& c.server.auto_build == cfg_bool(content, "server"@, "auto_build"@, true)
    &&& c.server.hot_reload == cfg_bool(content, "server"@, "hot_reload"@, true)
    &&& c.server.port as int == cfg_port(content, 8080)
}

impl Config {
    /// Parses a configuration text. Fails exactly when some line is neither
    /// blank, a comment, a section header, nor an acceptable `key = value`
    /// line; a `#` comment may follow a section header or a value. Absent
    /// keys keep their defaults; the base URL loses trailing slashes.
    pub fn from_toml_str(site_dir: &str, content: &str) -> (r: Result<Config, Error>)
        ensures
            r is Ok <==> spec_cfg_valid(content@),
            r matches Ok(c) ==> config_resolves(c, content@, site_dir@),
            r matches Err(e) ==> e matches Error::ConfigParse(m) && m@
                == "invalid configuration line"@,
    {
        let chars = chars_of(content);
        let lines = split_char(&chars, '\n');
        if !cfg_valid(&lines) {
            return Err(Error::ConfigParse(String::from_str("invalid configuration line")));
        }
        proof {
            lemma_section_kinds();
        }
        let top: Vec<char> = Vec::new();
        let sec_author = chars_of("author");
        let sec_build = chars_of("build");
        let sec_server = chars_of("server");
        let mut c = Config::default();
        c.site_dir = String::from_str(site_dir);
        let base_url = take_string(
            &lines,
            &top,
            &chars_of("base_url"),
            String::from_str("http://localhost"),
        );
        let base_chars = chars_of(base_url.as_str());
        c.base_url = string_of(&strip_trailing_slash(&base_chars));
        c.title = take_string(
            &lines,
            &top,
            &chars_of("title"),
            String::from_str("My Terminal Velocity Blog"),
        );
        c.description = take_string(
            &lines,
            &top,
            &chars_of("description"),
            String::from_str("A blazingly fast tech blog"),
        );
        c.author.name = take_string(
            &lines,
            &sec_author,
            &chars_of("name"),
            String::from_str("Anonymous"),
        );
        c.author.email = take_string(
            &lines,
            &sec_author,
            &chars_of("email"),
            String::from_str("author@example.com"),
        );
        c.build.verbose = take_bool(&lines, &sec_build, &chars_of("verbose"), false);
        c.build.output_dir = take_string(
            &lines,
            &sec_build,
            &chars_of("output_dir"),
            String::from_str("dist"),
        );
        c.build.posts_dir = take_string(
            &lines,
            &sec_build,
            &chars_of("posts_dir"),
            String::from_str("posts"),
        );
        c.build.templates_dir = take_string(
            &lines,
            &sec_build,
            &chars_of("templates_dir"),
            String::from_str("templates"),
        );
        c.build.static_dir = take_string(
            &lines,
            &sec_build,
            &chars_of("static_dir"),
            String::from_str("static"),
        );
        c.build.post_assets_dir = take_string(
            &lines,
            &sec_build,
            &chars_of("post_assets_dir"),
            String::from_str("assets"),
        );
        c.server.auto_build = take_bool(&lines, &sec_server, &chars_of("auto_build"), true);
        c.server.hot_reload = take_bool(&lines, &sec_server, &chars_of("hot_reload"), true);
        match cfg_field(&lines, &sec_server, &chars_of("port")) {
            Some(t) => {
                proof {
                    lemma_field_typed(
                        lines.deep_view(),
                        0,
                        Seq::<char>::empty(),
                        "server"@,
                        "port"@,
                        None,
                        ValueKind::VPort,
                    );
                }
                match parse_port(&t) {
                    Some(p) => {
                        c.server.port = p;
                    },
                    None => {
                        return vstd::pervasive::unreached();
                    },
                }
            },
            None => {},
        }
        Ok(c)
    }

    /// Loads a configuration: the parsed file content when the site has
    /// one, the full defaults otherwise; the site directory is recorded.
    pub fn load_from_str(site_dir: &str, content: Option<&str>) -> (r: Result<Config, Error>)
        ensures
            r is Ok <==> spec_cfg_valid(
                match content {
                    Some(s) => s@,
                    None => Seq::<char>::empty(),
                },
            ),
            r matches Ok(c) ==> config_resolves(
                c,
                match content {
                    Some(s) => s@,
                    None => Seq::<char>::empty(),
                },
                site_dir@,
            ),
            r matches Err(e) ==> e matches Error::ConfigParse(m) && m@
                == "invalid configuration line"@,
    {
        match content {
            Some(s) => Config::from_toml_str(site_dir, s),
            None => {
                proof {
                    reveal_strlit("");
                    assert(""@ =~= Seq::<char>::empty());
                }
                Config::from_toml_str(site_dir, "")
            },
        }
    }
}

} // verus!

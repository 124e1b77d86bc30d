//! The metadata header of a content file: a block of `key: value` lines
//! between `---` delimiter lines, followed by the document body. Values are
//! bare scalars, quoted scalars, or flow lists such as `["a", "b"]`.

use vstd::prelude::*;

verus! {

use crate::text::{
    spec_split,
    spec_join,
    spec_trim,
    spec_find_char,
    split_char,
    join_char,
    trim_chars,
    find_char,
    sub_chars,
    chars_eq,
    chars_of,
    string_of,
    clone_chars,
};

/// The lines of a text, split at newlines.
pub open spec fn spec_lines(s: Seq<char>) -> Seq<Seq<char>> {
    spec_split(s, '\n')
}

/// A head or tail delimiter of the metadata block: `---` alone on its line.
pub open spec fn is_delim_line(l: Seq<char>) -> bool {
    spec_trim(l) == seq!['-', '-', '-']
}

/// The first delimiter line at or after index `i`.
pub open spec fn spec_first_delim(lines: Seq<Seq<char>>, i: int) -> Option<int>
    decreases lines.len() - i,
    when 0 <= i <= lines.len()
{
    if i >= lines.len() {
        None
    } else if is_delim_line(lines[i]) {
        Some(i)
    } else {
        spec_first_delim(lines, i + 1)
    }
}

/// Whether the text has a complete metadata block: a leading delimiter
/// line and a later closing delimiter line.
pub open spec fn spec_frontmatter_ok(s: Seq<char>) -> bool {
    let lines = spec_lines(s);
    &&& lines.len() > 0
    &&& is_delim_line(lines[0])
    &&& spec_first_delim(lines, 1) is Some
}

/// The header lines between the two delimiters.
pub open spec fn spec_header_lines(s: Seq<char>) -> Seq<Seq<char>>
    recommends
        spec_frontmatter_ok(s),
{
    let lines = spec_lines(s);
    lines.subrange(1, spec_first_delim(lines, 1)->0)
}

/// The body: everything after the closing delimiter line.
pub open spec fn spec_body(s: Seq<char>) -> Seq<char>
    recommends
        spec_frontmatter_ok(s),
{
    let lines = spec_lines(s);
    spec_join(lines.subrange(spec_first_delim(lines, 1)->0 + 1, lines.len() as int), '\n')
}

/// Whether the line at `k` is a delimiter line.
fn delim_line_at(lines: &Vec<Vec<char>>, k: usize) -> (r: bool)
    requires
        k < lines@.len(),
    ensures
        r == is_delim_line(lines.deep_view()[k as int]),
{
    let delim = crate::text::chars_of("---");
    proof {
        reveal_strlit("---");
        assert(delim@ =~= seq!['-', '-', '-']);
        crate::text::lemma_chars_deep_view(lines);
    }
    let t = trim_chars(&lines[k]);
    chars_eq(&t, &delim)
}

/// Finds the first delimiter line at or after `from`.
fn find_delim(lines: &Vec<Vec<char>>, from: usize) -> (r: Option<usize>)
    requires
        1 <= from <= lines@.len(),
    ensures
        match r {
            Some(k) => spec_first_delim(lines.deep_view(), from as int) == Some(k as int) && from
                <= k < lines@.len(),
            None => spec_first_delim(lines.deep_view(), from as int) is None,
        },
{
    proof {
        crate::text::lemma_chars_deep_view(lines);
    }
    let mut k: usize = from;
    while k < lines.len()
        invariant
            from <= k <= lines@.len(),
            lines.deep_view().len() == lines@.len(),
            spec_first_delim(lines.deep_view(), from as int) == spec_first_delim(
                lines.deep_view(),
                k as int,
            ),
        decreases lines.len() - k,
    {
        if delim_line_at(lines, k) {
            return Some(k);
        }
        k = k + 1;
    }
    None
}

/// Splits a content file into its header lines and its body; `None` when a
/// delimiter is missing.
pub fn split_frontmatter(content: &Vec<char>) -> (r: Option<(Vec<Vec<char>>, Vec<char>)>)
    ensures
        r is Some <==> spec_frontmatter_ok(content@),
        r matches Some(p) ==> p.0.deep_view() == spec_header_lines(content@) && p.1@ == spec_body(
            content@,
        ),
{
    let lines = split_char(content, '\n');
    proof {
        crate::text::lemma_split_len(content@, '\n');
        crate::text::lemma_chars_deep_view(&lines);
    }
    if !delim_line_at(&lines, 0) {
        return None;
    }
    let end = match find_delim(&lines, 1) {
        Some(f) => f,
        None => {
            return None;
        },
    };
    let mut header: Vec<Vec<char>> = Vec::new();
    let mut i: usize = 1;
    while i < end
        invariant
            1 <= i <= end < lines@.len(),
            lines.deep_view() == spec_lines(content@),
            header.deep_view() =~= lines.deep_view().subrange(1, i as int),
        decreases end - i,
    {
        let ghost dv0 = header.deep_view();
        header.push(clone_chars(&lines[i]));
        i = i + 1;
        proof {
            assert(header.deep_view() =~~= dv0.push(lines.deep_view()[i - 1]));
            assert(header.deep_view() =~= lines.deep_view().subrange(1, i as int));
        }
    }
    let mut rest: Vec<Vec<char>> = Vec::new();
    let n = lines.len();
    proof {
        assert(end + 1 <= n);
    }
    let mut j: usize = end + 1;
    while j < lines.len()
        invariant
            end + 1 <= j <= lines@.len(),
            lines.deep_view() == spec_lines(content@),
            rest.deep_view() =~= lines.deep_view().subrange(end + 1, j as int),
        decreases lines.len() - j,
    {
        let ghost dv0 = rest.deep_view();
        rest.push(clone_chars(&lines[j]));
        j = j + 1;
        proof {
            assert(rest.deep_view() =~~= dv0.push(lines.deep_view()[j - 1]));
            assert(rest.deep_view() =~= lines.deep_view().subrange(end + 1, j as int));
        }
    }
    let body = join_char(&rest, '\n');
    Some((header, body))
}

/// A scalar value: the text between matching quotes, or the bare text.
pub open spec fn spec_scalar_value(t: Seq<char>) -> Option<Seq<char>> {
    if t.len() > 0 && (t[0] == '"' || t[0] == '\'') {
        if t.len() >= 2 && t[t.len() - 1] == t[0] {
            Some(t.subrange(1, t.len() - 1))
        } else {
            None
        }
    } else {
        Some(t)
    }
}

/// Each list item trimmed and unquoted; `None` when an item is malformed.
pub open spec fn spec_list_items(parts: Seq<Seq<char>>) -> Option<Seq<Seq<char>>>
    decreases parts.len(),
{
    if parts.len() == 0 {
        Some(Seq::<Seq<char>>::empty())
    } else {
        match spec_scalar_value(spec_trim(parts[0])) {
            Some(v) => match spec_list_items(parts.drop_first()) {
                Some(r) => Some(seq![v] + r),
                None => None,
            },
            None => None,
        }
    }
}

/// A flow list value `[ ... ]`: its items, or `None` when malformed.
pub open spec fn spec_list_value(t: Seq<char>) -> Option<Seq<Seq<char>>> {
    if t.len() >= 2 && t[0] == '[' && t[t.len() - 1] == ']' {
        let inner = t.subrange(1, t.len() - 1);
        if spec_trim(inner).len() == 0 {
            Some(Seq::<Seq<char>>::empty())
        } else {
            spec_list_items(spec_split(inner, ','))
        }
    } else {
        None
    }
}

/// Executable form of [`spec_scalar_value`].
fn parse_scalar(t: &Vec<char>) -> (r: Option<Vec<char>>)
    ensures
        match r {
            Some(v) => spec_scalar_value(t@) == Some(v@),
            None => spec_scalar_value(t@) is None,
        },
{
    if t.len() > 0 {
        let q = t[0];
        if q == '"' || q == '\'' {
            if t.len() >= 2 && t[t.len() - 1] == q {
                return Some(sub_chars(t, 1, t.len() - 1));
            }
            return None;
        }
    }
    Some(clone_chars(t))
}

/// Executable form of [`spec_list_value`]; items are returned as strings.
#[verifier::loop_isolation(false)]
fn parse_list(t: &Vec<char>) -> (r: Option<Vec<String>>)
    ensures
        match r {
            Some(v) => spec_list_value(t@) == Some(v.deep_view()),
            None => spec_list_value(t@) is None,
        },
{
    if !(t.len() >= 2 && t[0] == '[' && t[t.len() - 1] == ']') {
        return None;
    }
    let inner = sub_chars(t, 1, t.len() - 1);
    let itrim = trim_chars(&inner);
    if itrim.len() == 0 {
        let empty: Vec<String> = Vec::new();
        proof {
            assert(empty.deep_view() =~= Seq::<Seq<char>>::empty());
        }
        return Some(empty);
    }
    let parts = split_char(&inner, ',');
    let mut out: Vec<String> = Vec::new();
    let mut i: usize = 0;
    proof {
        assert(parts.deep_view().subrange(0, parts.deep_view().len() as int) =~= parts.deep_view());
        assert(parts.deep_view().subrange(i as int, parts.deep_view().len() as int)
            == parts.deep_view());
    }
    while i < parts.len()
        invariant
            i <= parts.len(),
            parts.deep_view() == spec_split(inner@, ','),
            ({
                let tail = parts.deep_view().subrange(i as int, parts.deep_view().len() as int);
                &&& (spec_list_items(tail) matches Some(x) ==> spec_list_items(parts.deep_view())
                    == Some(out.deep_view() + x))
                &&& (spec_list_items(tail) is None ==> spec_list_items(parts.deep_view()) is None)
            }),
        decreases parts.len() - i,
    {
        let ghost tail = parts.deep_view().subrange(i as int, parts.deep_view().len() as int);
        proof {
            crate::text::lemma_chars_deep_view(&parts);
            assert(tail.drop_first() =~= parts.deep_view().subrange(
                i + 1,
                parts.deep_view().len() as int,
            ));
            assert(tail[0] == parts@[i as int]@);
        }
        let item = trim_chars(&parts[i]);
        match parse_scalar(&item) {
            Some(v) => {
                let ghost dv0 = out.deep_view();
                let ghost vv = v@;
                out.push(string_of(&v));
                proof {
                    assert(out.deep_view() =~~= dv0.push(vv));
                    match spec_list_items(tail.drop_first()) {
                        Some(x) => {
                            assert(dv0 + (seq![vv] + x) =~= out.deep_view() + x);
                        },
                        None => {},
                    }
                }
            },
            None => {
                return None;
            },
        }
        i = i + 1;
    }
    proof {
        let tail = parts.deep_view().subrange(i as int, parts.deep_view().len() as int);
        assert(tail =~= Seq::<Seq<char>>::empty());
        assert(spec_list_items(tail) == Some(Seq::<Seq<char>>::empty()));
        assert(out.deep_view() + Seq::<Seq<char>>::empty() =~= out.deep_view());
    }
    Some(out)
}

/// A header line that carries no key: blank, or a `#` comment.
pub open spec fn spec_line_skip(l: Seq<char>) -> bool {
    spec_trim(l).len() == 0 || spec_trim(l)[0] == '#'
}

/// The keys whose values are scalars.
pub open spec fn known_scalar_key(k: Seq<char>) -> bool {
    k == "title"@ || k == "date"@ || k == "author"@ || k == "preview"@ || k == "slug"@
}

/// The key of a `key: value` line.
pub open spec fn spec_line_key(l: Seq<char>) -> Seq<char>
    recommends
        spec_find_char(l, ':', 0) is Some,
{
    spec_trim(l.subrange(0, spec_find_char(l, ':', 0)->0))
}

/// The value text of a `key: value` line, trimmed.
pub open spec fn spec_line_value(l: Seq<char>) -> Seq<char>
    recommends
        spec_find_char(l, ':', 0) is Some,
{
    spec_trim(l.subrange(spec_find_char(l, ':', 0)->0 + 1, l.len() as int))
}

/// A line the header parser accepts: blank or comment, or a `key: value`
/// line whose value parses, with a list exactly for the `tags` key.
pub open spec fn spec_line_valid(l: Seq<char>) -> bool {
    if spec_line_skip(l) {
        true
    } else {
        match spec_find_char(l, ':', 0) {
            None => false,
            Some(_) => {
                let k = spec_line_key(l);
                let t = spec_line_value(l);
                if t.len() > 0 && t[0] == '[' {
                    spec_list_value(t) is Some && !known_scalar_key(k)
                } else {
                    spec_scalar_value(t) is Some && k != "tags"@
                }
            },
        }
    }
}

/// Every line of the header is acceptable.
pub open spec fn spec_header_valid(lines: Seq<Seq<char>>) -> bool {
    forall|i: int| 0 <= i < lines.len() ==> spec_line_valid(#[trigger] lines[i])
}

/// Whether `l` assigns a scalar value to `key`.
pub open spec fn line_scalar_for(l: Seq<char>, key: Seq<char>) -> bool {
    &&& !spec_line_skip(l)
    &&& spec_find_char(l, ':', 0) is Some
    &&& spec_line_key(l) == key
    &&& !(spec_line_value(l).len() > 0 && spec_line_value(l)[0] == '[')
    &&& spec_scalar_value(spec_line_value(l)) is Some
}

/// The scalar value the header gives `key`: the last assignment wins.
pub open spec fn spec_scalar_field(lines: Seq<Seq<char>>, key: Seq<char>) -> Option<Seq<char>>
    decreases lines.len(),
{
    if lines.len() == 0 {
        None
    } else if line_scalar_for(lines.last(), key) {
        Some(spec_scalar_value(spec_line_value(lines.last()))->0)
    } else {
        spec_scalar_field(lines.drop_last(), key)
    }
}

/// Whether `l` assigns a list value to `key`.
pub open spec fn line_list_for(l: Seq<char>, key: Seq<char>) -> bool {
    &&& !spec_line_skip(l)
    &&& spec_find_char(l, ':', 0) is Some
    &&& spec_line_key(l) == key
    &&& spec_line_value(l).len() > 0 && spec_line_value(l)[0] == '['
    &&& spec_list_value(spec_line_value(l)) is Some
}

/// The list value the header gives `key`: the last assignment wins.
pub open spec fn spec_list_field(lines: Seq<Seq<char>>, key: Seq<char>) -> Option<Seq<Seq<char>>>
    decreases lines.len(),
{
    if lines.len() == 0 {
        None
    } else if line_list_for(lines.last(), key) {
        Some(spec_list_value(spec_line_value(lines.last()))->0)
    } else {
        spec_list_field(lines.drop_last(), key)
    }
}

/// The fields of a metadata header as the parser found them, before the
/// validation pass fills defaults and checks requirements.
#[derive(Debug)]
pub struct RawMetadata {
    pub title: Option<String>,
    pub date: Option<String>,
    pub author: Option<String>,
    pub tags: Option<Vec<String>>,
    pub preview: Option<String>,
    pub slug: Option<String>,
}

/// The view of an optional string.
pub open spec fn opt_string_view(o: Option<String>) -> Option<Seq<char>> {
    match o {
        Some(s) => Some(s@),
        None => None,
    }
}

/// The view of an optional list of strings.
pub open spec fn opt_vec_view(o: Option<Vec<String>>) -> Option<Seq<Seq<char>>> {
    match o {
        Some(v) => Some(v.deep_view()),
        None => None,
    }
}

/// The parsed fields agree with the header, key by key.
pub open spec fn fields_match(raw: RawMetadata, lines: Seq<Seq<char>>) -> bool {
    &&& opt_string_view(raw.title) == spec_scalar_field(lines, "title"@)
    &&& opt_string_view(raw.date) == spec_scalar_field(lines, "date"@)
    &&& opt_string_view(raw.author) == spec_scalar_field(lines, "author"@)
    &&& opt_string_view(raw.preview) == spec_scalar_field(lines, "preview"@)
    &&& opt_string_view(raw.slug) == spec_scalar_field(lines, "slug"@)
    &&& opt_vec_view(raw.tags) == spec_list_field(lines, "tags"@)
}

/// Parses the header lines into raw metadata fields. Fails exactly when
/// some line is neither blank, a comment, nor an acceptable `key: value`.
#[verifier::loop_isolation(false)]
pub fn parse_header(header: &Vec<Vec<char>>) -> (r: Result<RawMetadata, String>)
    ensures
        r is Ok <==> spec_header_valid(header.deep_view()),
        r matches Ok(raw) ==> fields_match(raw, header.deep_view()),
        r matches Err(m) ==> m@ == "invalid metadata line"@,
{
    let ghost hl = header.deep_view();
    proof {
        crate::text::lemma_chars_deep_view(header);
    }
    let key_title = chars_of("title");
    let key_date = chars_of("date");
    let key_author = chars_of("author");
    let key_preview = chars_of("preview");
    let key_slug = chars_of("slug");
    let key_tags = chars_of("tags");
    proof {
        reveal_strlit("title");
        reveal_strlit("date");
        reveal_strlit("author");
        reveal_strlit("preview");
        reveal_strlit("slug");
        reveal_strlit("tags");
    }
    let mut raw = RawMetadata {
        title: None,
        date: None,
        author: None,
        tags: None,
        preview: None,
        slug: None,
    };
    let mut i: usize = 0;
    proof {
        assert(hl.subrange(0, 0) =~= Seq::<Seq<char>>::empty());
    }
    while i < header.len()
        invariant
            i <= header@.len(),
            forall|j: int| 0 <= j < i ==> spec_line_valid(#[trigger] hl[j]),
            fields_match(raw, hl.subrange(0, i as int)),
        decreases header@.len() - i,
    {
        let ghost prefix = hl.subrange(0, i as int);
        let ghost prefix1 = hl.subrange(0, i + 1);
        proof {
            reveal_strlit("title");
            reveal_strlit("date");
            reveal_strlit("author");
            reveal_strlit("preview");
            reveal_strlit("slug");
            reveal_strlit("tags");
            assert("date"@ != "slug"@) by {
                assert("date"@[0] == 'd' && "slug"@[0] == 's');
            }
            assert("tags"@ != "date"@) by {
                assert("tags"@[0] == 't' && "date"@[0] == 'd');
            }
            assert("tags"@ != "slug"@) by {
                assert("tags"@[0] == 't' && "slug"@[0] == 's');
            }
            assert(prefix1.drop_last() =~= prefix);
            assert(prefix1.last() == hl[i as int]);
        }
        let l = &header[i];
        let lt = trim_chars(l);
        if lt.len() == 0 || lt[0] == '#' {
            proof {
                assert(spec_line_skip(hl[i as int]));
                assert(fields_match(raw, prefix1));
            }
        } else {
            let ci = match find_char(l, ':', 0) {
                Some(c) => c,
                None => {
                    proof {
                        assert(!spec_line_valid(hl[i as int]));
                    }
                    return Err(String::from_str("invalid metadata line"));
                },
            };
            let key = {
                let kpart = sub_chars(l, 0, ci);
                trim_chars(&kpart)
            };
            let ln = l.len();
            let vt = {
                let vpart = sub_chars(l, ci + 1, ln);
                trim_chars(&vpart)
            };
            proof {
                assert(key@ == spec_line_key(hl[i as int]));
                assert(vt@ == spec_line_value(hl[i as int]));
            }
            if vt.len() > 0 && vt[0] == '[' {
                match parse_list(&vt) {
                    Some(items) => {
                        if chars_eq(&key, &key_tags) {
                            raw.tags = Some(items);
                            proof {
                                assert(line_list_for(hl[i as int], "tags"@));
                                assert(fields_match(raw, prefix1));
                            }
                        } else if chars_eq(&key, &key_title) || chars_eq(&key, &key_date)
                            || chars_eq(&key, &key_author) || chars_eq(&key, &key_preview)
                            || chars_eq(&key, &key_slug) {
                            proof {
                                assert(!spec_line_valid(hl[i as int]));
                            }
                            return Err(String::from_str("invalid metadata line"));
                        } else {
                            proof {
                                assert(fields_match(raw, prefix1));
                            }
                        }
                    },
                    None => {
                        proof {
                            assert(!spec_line_valid(hl[i as int]));
                        }
                        return Err(String::from_str("invalid metadata line"));
                    },
                }
            } else {
                match parse_scalar(&vt) {
                    Some(v) => {
                        if chars_eq(&key, &key_tags) {
                            proof {
                                assert(!spec_line_valid(hl[i as int]));
                            }
                            return Err(String::from_str("invalid metadata line"));
                        } else if chars_eq(&key, &key_title) {
                            raw.title = Some(string_of(&v));
                            proof {
                                assert(line_scalar_for(hl[i as int], "title"@));
                                assert(fields_match(raw, prefix1));
                            }
                        } else if chars_eq(&key, &key_date) {
                            raw.date = Some(string_of(&v));
                            proof {
                                assert(line_scalar_for(hl[i as int], "date"@));
                                assert(fields_match(raw, prefix1));
                            }
                        } else if chars_eq(&key, &key_author) {
                            raw.author = Some(string_of(&v));
                            proof {
                                assert(line_scalar_for(hl[i as int], "author"@));
                                assert(fields_match(raw, prefix1));
                            }
                        } else if chars_eq(&key, &key_preview) {
                            raw.preview = Some(string_of(&v));
                            proof {
                                assert(line_scalar_for(hl[i as int], "preview"@));
                                assert(fields_match(raw, prefix1));
                            }
                        } else if chars_eq(&key, &key_slug) {
                            raw.slug = Some(string_of(&v));
                            proof {
                                assert(line_scalar_for(hl[i as int], "slug"@));
                                assert(fields_match(raw, prefix1));
                            }
                        } else {
                            proof {
                                assert(fields_match(raw, prefix1));
                            }
                        }
                    },
                    None => {
                        proof {
                            assert(!spec_line_valid(hl[i as int]));
                        }
                        return Err(String::from_str("invalid metadata line"));
                    },
                }
            }
        }
        i = i + 1;
    }
    proof {
        assert(hl.subrange(0, hl.len() as int) =~= hl);
    }
    Ok(raw)
}

} // verus!

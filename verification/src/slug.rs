//! Slug derivation: a slug is the URL-safe identifier of a document,
//! normalized to lowercase letters and digits separated by single hyphens.

use vstd::prelude::*;

verus! {

/// A character that may appear in a slug besides the hyphen.
pub open spec fn is_slug_char(c: char) -> bool {
    ('a' <= c && c <= 'z') || ('0' <= c && c <= '9')
}

/// A well-formed slug: nonempty, only lowercase letters, digits and
/// hyphens, no leading, trailing or doubled hyphen. This is the shape
/// `[a-z0-9]+(-[a-z0-9]+)*`.
pub open spec fn is_valid_slug(s: Seq<char>) -> bool {
    &&& s.len() > 0
    &&& forall|i: int| 0 <= i < s.len() ==> is_slug_char(#[trigger] s[i]) || s[i] == '-'
    &&& s[0] != '-'
    &&& s[s.len() - 1] != '-'
    &&& forall|i: int| 0 <= i < s.len() - 1 ==> !(#[trigger] s[i] == '-' && s[i + 1] == '-')
}

/// How one character of the input contributes to the slug: kept, lowered,
/// turned into a hyphen, or dropped.
pub open spec fn spec_slug_map(c: char) -> Option<char> {
    if is_slug_char(c) {
        Some(c)
    } else if 'A' <= c && c <= 'Z' {
        Some((((c as u8) + 32) as char))
    } else if c == ' ' || c == '-' || c == '_' {
        Some('-')
    } else {
        None
    }
}

/// The input mapped character by character, dropped characters removed.
pub open spec fn spec_slug_raw(s: Seq<char>) -> Seq<char>
    decreases s.len(),
{
    if s.len() == 0 {
        Seq::<char>::empty()
    } else {
        match spec_slug_map(s[0]) {
            Some(c) => seq![c] + spec_slug_raw(s.drop_first()),
            None => spec_slug_raw(s.drop_first()),
        }
    }
}

/// Collapses runs of hyphens and drops leading hyphens, appending to `acc`.
pub open spec fn spec_slug_collapse(s: Seq<char>, acc: Seq<char>) -> Seq<char>
    decreases s.len(),
{
    if s.len() == 0 {
        acc
    } else if s[0] != '-' {
        spec_slug_collapse(s.drop_first(), acc.push(s[0]))
    } else if acc.len() > 0 && acc[acc.len() - 1] != '-' {
        spec_slug_collapse(s.drop_first(), acc.push('-'))
    } else {
        spec_slug_collapse(s.drop_first(), acc)
    }
}

/// Removes the at most one trailing hyphen the collapse can leave.
pub open spec fn spec_slug_trim(s: Seq<char>) -> Seq<char> {
    if s.len() > 0 && s[s.len() - 1] == '-' {
        s.drop_last()
    } else {
        s
    }
}

/// The slug derived from arbitrary text: map and filter the characters,
/// collapse hyphen runs, trim the edges.
pub open spec fn spec_slugify(s: Seq<char>) -> Seq<char> {
    spec_slug_trim(spec_slug_collapse(spec_slug_raw(s), Seq::<char>::empty()))
}

/// Executable form of [`spec_slug_map`].
fn slug_map(c: char) -> (r: Option<char>)
    ensures
        r == spec_slug_map(c),
{
    if ('a' <= c && c <= 'z') || ('0' <= c && c <= '9') {
        Some(c)
    } else if 'A' <= c && c <= 'Z' {
        Some(((c as u8) + 32) as char)
    } else if c == ' ' || c == '-' || c == '_' {
        Some('-')
    } else {
        None
    }
}

/// Derives a slug from free text. The result is either empty (no usable
/// character in the input) or a well-formed slug.
pub fn slugify(text: &str) -> (r: String)
    ensures
        r@ == spec_slugify(text@),
        r@.len() == 0 || is_valid_slug(r@),
{
    let chars = crate::text::chars_of(text);
    let mut raw: Vec<char> = Vec::new();
    let mut i: usize = 0;
    proof {
        assert(chars@.subrange(0, chars@.len() as int) =~= chars@);
        assert(raw@ + spec_slug_raw(chars@) =~= spec_slug_raw(chars@));
    }
    while i < chars.len()
        invariant
            i <= chars.len(),
            chars@ == text@,
            spec_slug_raw(chars@) =~= raw@ + spec_slug_raw(
                chars@.subrange(i as int, chars@.len() as int),
            ),
            forall|j: int| 0 <= j < raw@.len() ==> is_slug_char(#[trigger] raw@[j]) || raw@[j]
                == '-',
        decreases chars.len() - i,
    {
        let ghost tail = chars@.subrange(i as int, chars@.len() as int);
        proof {
            assert(tail.drop_first() =~= chars@.subrange(i + 1, chars@.len() as int));
        }
        match slug_map(chars[i]) {
            Some(c) => {
                proof {
                    assert(is_slug_char(c) || c == '-');
                    assert(raw@ + (seq![c] + spec_slug_raw(tail.drop_first())) =~= raw@.push(c)
                        + spec_slug_raw(tail.drop_first()));
                }
                raw.push(c);
            },
            None => {},
        }
        i = i + 1;
    }
    proof {
        assert(chars@.subrange(i as int, chars@.len() as int) =~= Seq::<char>::empty());
        assert(raw@ + Seq::<char>::empty() =~= raw@);
        assert(raw@ == spec_slug_raw(chars@));
    }
    let mut out: Vec<char> = Vec::new();
    let mut j: usize = 0;
    proof {
        assert(raw@.subrange(0, raw@.len() as int) =~= raw@);
    }
    while j < raw.len()
        invariant
            j <= raw.len(),
            forall|k: int| 0 <= k < raw@.len() ==> is_slug_char(#[trigger] raw@[k]) || raw@[k]
                == '-',
            spec_slug_collapse(raw@, Seq::<char>::empty()) == spec_slug_collapse(
                raw@.subrange(j as int, raw@.len() as int),
                out@,
            ),
            forall|k: int| 0 <= k < out@.len() ==> is_slug_char(#[trigger] out@[k]) || out@[k]
                == '-',
            out@.len() > 0 ==> out@[0] != '-',
            forall|k: int| 0 <= k < out@.len() - 1 ==> !(#[trigger] out@[k] == '-' && out@[k + 1] == '-'),
        decreases raw.len() - j,
    {
        let ghost tail = raw@.subrange(j as int, raw@.len() as int);
        proof {
            assert(tail.drop_first() =~= raw@.subrange(j + 1, raw@.len() as int));
            assert(tail[0] == raw@[j as int]);
        }
        let c = raw[j];
        if c != '-' {
            out.push(c);
        } else if out.len() > 0 {
            let last = out[out.len() - 1];
            if last != '-' {
                out.push('-');
            }
        }
        j = j + 1;
    }
    proof {
        assert(raw@.subrange(j as int, raw@.len() as int) =~= Seq::<char>::empty());
        assert(out@ == spec_slug_collapse(raw@, Seq::<char>::empty()));
    }
    if out.len() > 0 && out[out.len() - 1] == '-' {
        out.pop();
        proof {
            assert(out@ =~= spec_slug_trim(spec_slug_collapse(raw@, Seq::<char>::empty())));
        }
    }
    proof {
        if out@.len() > 0 {
            assert(out@[out@.len() - 1] != '-');
            assert(is_valid_slug(out@));
        }
    }
    crate::text::string_of(&out)
}

} // verus!

//! Conversions between `String` and `Vec<char>`, and small verified
//! operations on character vectors. All higher-level text processing in this
//! crate works on `Vec<char>` values, whose view is a `Seq<char>`.

use vstd::prelude::*;

verus! {

use vstd::string::StrSliceExecFns;

/// Relies on std's `String::push`: appends exactly one character.
#[verifier::external_body]
pub(crate) fn push_char(s: &mut String, c: char)
    ensures
        final(s)@ == old(s)@.push(c),
{
    s.push(c);
}

/// The characters of a string slice, as a vector.
pub fn chars_of(s: &str) -> (v: Vec<char>)
    ensures
        v@ == s@,
{
    let n = s.unicode_len();
    let mut v: Vec<char> = Vec::new();
    let mut i: usize = 0;
    while i < n
        invariant
            n == s@.len(),
            i <= n,
            v@ == s@.subrange(0, i as int),
        decreases n - i,
    {
        let c = s.get_char(i);
        v.push(c);
        i = i + 1;
        proof {
            assert(v@ =~= s@.subrange(0, i as int));
        }
    }
    proof {
        assert(v@ =~= s@);
    }
    v
}

/// A `String` holding exactly the given characters.
pub fn string_of(v: &Vec<char>) -> (s: String)
    ensures
        s@ == v@,
{
    let mut s = String::new();
    let mut i: usize = 0;
    while i < v.len()
        invariant
            i <= v.len(),
            s@ == v@.subrange(0, i as int),
        decreases v.len() - i,
    {
        push_char(&mut s, v[i]);
        i = i + 1;
        proof {
            assert(s@ =~= v@.subrange(0, i as int));
        }
    }
    proof {
        assert(s@ =~= v@);
    }
    s
}

/// Blank characters that trimming removes: space, tab, carriage return.
pub open spec fn is_blank_char(c: char) -> bool {
    c == ' ' || c == '\t' || c == '\r'
}

/// Executable test for [`is_blank_char`].
pub fn blank_char(c: char) -> (r: bool)
    ensures
        r == is_blank_char(c),
{
    c == ' ' || c == '\t' || c == '\r'
}

/// Appends all characters of `piece` to `out`.
pub fn extend_chars(out: &mut Vec<char>, piece: &Vec<char>)
    ensures
        final(out)@ == old(out)@ + piece@,
{
    let mut i: usize = 0;
    while i < piece.len()
        invariant
            i <= piece.len(),
            out@ == old(out)@ + piece@.subrange(0, i as int),
        decreases piece.len() - i,
    {
        out.push(piece[i]);
        i = i + 1;
        proof {
            assert(out@ =~= old(out)@ + piece@.subrange(0, i as int));
        }
    }
    proof {
        assert(out@ =~= old(out)@ + piece@);
    }
}

/// Whether the characters of `a` equal those of `b`.
pub fn chars_eq(a: &Vec<char>, b: &Vec<char>) -> (r: bool)
    ensures
        r == (a@ == b@),
{
    if a.len() != b.len() {
        proof {
            assert(a@.len() != b@.len());
        }
        return false;
    }
    let mut i: usize = 0;
    while i < a.len()
        invariant
            i <= a.len(),
            a@.len() == b@.len(),
            forall|j: int| 0 <= j < i ==> a@[j] == b@[j],
        decreases a.len() - i,
    {
        if a[i] != b[i] {
            return false;
        }
        i = i + 1;
    }
    proof {
        assert(a@ =~= b@);
    }
    true
}

/// Whether `pat` occurs in `s` starting at position `i`.
pub open spec fn is_match_at(s: Seq<char>, pat: Seq<char>, i: int) -> bool {
    &&& 0 <= i
    &&& i + pat.len() <= s.len()
    &&& s.subrange(i, i + pat.len() as int) == pat
}

/// Executable test for [`is_match_at`].
pub fn match_at(s: &Vec<char>, pat: &Vec<char>, i: usize) -> (r: bool)
    ensures
        r == is_match_at(s@, pat@, i as int),
{
    if i > s.len() || pat.len() > s.len() - i {
        proof {
            assert(!is_match_at(s@, pat@, i as int));
        }
        return false;
    }
    let mut j: usize = 0;
    while j < pat.len()
        invariant
            j <= pat.len(),
            i + pat.len() <= s.len(),
            forall|k: int| 0 <= k < j ==> s@[i + k] == pat@[k],
        decreases pat.len() - j,
    {
        if s[i + j] != pat[j] {
            proof {
                assert(s@.subrange(i as int, i + pat@.len() as int)[j as int] == s@[i + j]);
            }
            return false;
        }
        j = j + 1;
    }
    proof {
        assert(s@.subrange(i as int, i + pat@.len() as int) =~= pat@);
    }
    true
}

/// Whether `s` begins with `pat`.
pub open spec fn starts_with(s: Seq<char>, pat: Seq<char>) -> bool {
    is_match_at(s, pat, 0)
}

/// The pieces of `s` between occurrences of `sep`; one piece more than
/// separators, so the empty sequence yields one empty piece.
pub open spec fn spec_split(s: Seq<char>, sep: char) -> Seq<Seq<char>>
    decreases s.len(),
{
    if s.len() == 0 {
        seq![Seq::<char>::empty()]
    } else if s[0] == sep {
        seq![Seq::<char>::empty()] + spec_split(s.drop_first(), sep)
    } else {
        let rest = spec_split(s.drop_first(), sep);
        seq![seq![s[0]] + rest[0]] + rest.drop_first()
    }
}

pub proof fn lemma_split_len(s: Seq<char>, sep: char)
    ensures
        spec_split(s, sep).len() >= 1,
    decreases s.len(),
{
    if s.len() > 0 {
        lemma_split_len(s.drop_first(), sep);
    }
}

/// Splitting a sequence without separators yields the sequence alone.
pub proof fn lemma_split_no_sep(s: Seq<char>, sep: char)
    requires
        forall|i: int| 0 <= i < s.len() ==> s[i] != sep,
    ensures
        spec_split(s, sep) =~= seq![s],
    decreases s.len(),
{
    if s.len() == 0 {
        assert(spec_split(s, sep) == seq![Seq::<char>::empty()]);
        assert(s =~= Seq::<char>::empty());
    } else {
        lemma_split_no_sep(s.drop_first(), sep);
        assert(seq![s[0]] + s.drop_first() =~= s);
    }
}

/// Splitting at the first separator: the head piece, then the split of the rest.
pub proof fn lemma_split_step(s: Seq<char>, sep: char, i: int)
    requires
        0 <= i < s.len(),
        s[i] == sep,
        forall|j: int| 0 <= j < i ==> s[j] != sep,
    ensures
        spec_split(s, sep) =~= seq![s.subrange(0, i)] + spec_split(
            s.subrange(i + 1, s.len() as int),
            sep,
        ),
    decreases s.len(),
{
    if i == 0 {
        assert(s.subrange(0, 0) =~= Seq::<char>::empty());
        assert(s.subrange(1, s.len() as int) =~= s.drop_first());
    } else {
        lemma_split_step(s.drop_first(), sep, i - 1);
        lemma_split_len(s.drop_first().subrange(i, s.len() - 1), sep);
        assert(s.drop_first().subrange(0, i - 1) =~= s.subrange(0, i).drop_first());
        assert(s.drop_first().subrange(i, s.len() - 1) =~= s.subrange(i + 1, s.len() as int));
        let rest = spec_split(s.drop_first(), sep);
        assert(rest[0] == s.subrange(0, i).drop_first());
        assert(seq![s[0]] + s.subrange(0, i).drop_first() =~= s.subrange(0, i));
    }
}

/// Splits `s` at every occurrence of `sep`.
pub fn split_char(s: &Vec<char>, sep: char) -> (parts: Vec<Vec<char>>)
    ensures
        parts.deep_view() == spec_split(s@, sep),
{
    let mut parts: Vec<Vec<char>> = Vec::new();
    let mut cur: Vec<char> = Vec::new();
    let mut i: usize = 0;
    let ghost mut piece_start: int = 0;
    proof {
        assert(s@.subrange(0, s@.len() as int) =~= s@);
        assert(cur@ =~= s@.subrange(0, 0));
        assert(parts.deep_view() =~= Seq::<Seq<char>>::empty());
        assert(Seq::<Seq<char>>::empty() + spec_split(s@, sep) =~= spec_split(s@, sep));
    }
    while i < s.len()
        invariant
            i <= s.len(),
            0 <= piece_start <= i,
            cur@ == s@.subrange(piece_start, i as int),
            forall|j: int| piece_start <= j < i ==> s@[j] != sep,
            spec_split(s@, sep) =~= parts.deep_view() + spec_split(
                s@.subrange(piece_start, s@.len() as int),
                sep,
            ),
        decreases s.len() - i,
    {
        let c = s[i];
        if c == sep {
            proof {
                let tail = s@.subrange(piece_start, s@.len() as int);
                lemma_split_step(tail, sep, i - piece_start);
                assert(tail.subrange(0, i - piece_start) =~= s@.subrange(piece_start, i as int));
                assert(tail.subrange(i - piece_start + 1, tail.len() as int) =~= s@.subrange(
                    i + 1,
                    s@.len() as int,
                ));
            }
            let ghost dv0 = parts.deep_view();
            let ghost curv = cur@;
            parts.push(cur);
            cur = Vec::new();
            proof {
                assert(parts.deep_view() =~~= dv0.push(curv));
                assert(dv0 + (seq![curv] + spec_split(s@.subrange(i + 1, s@.len() as int), sep))
                    =~= parts.deep_view() + spec_split(s@.subrange(i + 1, s@.len() as int), sep));
                piece_start = i + 1;
                assert(cur@ =~= s@.subrange(piece_start, (i + 1) as int));
            }
        } else {
            cur.push(c);
            proof {
                assert(cur@ =~= s@.subrange(piece_start, (i + 1) as int));
            }
        }
        i = i + 1;
    }
    proof {
        let tail = s@.subrange(piece_start, s@.len() as int);
        lemma_split_no_sep(tail, sep);
        assert(cur@ =~= tail);
    }
    let ghost dv0 = parts.deep_view();
    let ghost curv = cur@;
    parts.push(cur);
    proof {
        assert(parts.deep_view() =~~= dv0.push(curv));
        assert(dv0 + seq![curv] =~= dv0.push(curv));
    }
    parts
}

/// The combined length of all pieces.
pub open spec fn total_len(parts: Seq<Seq<char>>) -> nat
    decreases parts.len(),
{
    if parts.len() == 0 {
        0
    } else {
        parts[0].len() + total_len(parts.drop_first())
    }
}

/// Unfolds [`total_len`] at an index through `skip`.
pub proof fn lemma_total_len_skip(parts: Seq<Seq<char>>, i: int)
    requires
        0 <= i <= parts.len(),
    ensures
        total_len(parts.skip(i)) == if i < parts.len() {
            parts[i].len() + total_len(parts.skip(i + 1))
        } else {
            0
        },
{
    if i < parts.len() {
        assert(parts.skip(i).drop_first() =~= parts.skip(i + 1));
        assert(parts.skip(i)[0] == parts[i]);
    } else {
        assert(parts.skip(i) =~= Seq::<Seq<char>>::empty());
    }
}

/// The pieces of a split are collectively no longer than the text.
pub proof fn lemma_split_total_len(s: Seq<char>, sep: char)
    ensures
        total_len(spec_split(s, sep)) <= s.len(),
    decreases s.len(),
{
    if s.len() == 0 {
        assert(seq![Seq::<char>::empty()].drop_first() =~= Seq::<Seq<char>>::empty());
        assert(total_len(Seq::<Seq<char>>::empty()) == 0);
        assert(total_len(seq![Seq::<char>::empty()]) == 0);
    } else if s[0] == sep {
        lemma_split_total_len(s.drop_first(), sep);
        let r = spec_split(s.drop_first(), sep);
        assert((seq![Seq::<char>::empty()] + r).drop_first() =~= r);
        assert((seq![Seq::<char>::empty()] + r)[0].len() == 0);
    } else {
        lemma_split_total_len(s.drop_first(), sep);
        lemma_split_len(s.drop_first(), sep);
        let r = spec_split(s.drop_first(), sep);
        assert((seq![seq![s[0]] + r[0]] + r.drop_first()).drop_first() =~= r.drop_first());
        assert((seq![seq![s[0]] + r[0]] + r.drop_first())[0] == seq![s[0]] + r[0]);
        assert((seq![s[0]] + r[0]).len() == 1 + r[0].len());
    }
}

/// The pieces joined with `sep` between consecutive pieces.
pub open spec fn spec_join(parts: Seq<Seq<char>>, sep: char) -> Seq<char>
    decreases parts.len(),
{
    if parts.len() == 0 {
        Seq::<char>::empty()
    } else if parts.len() == 1 {
        parts[0]
    } else {
        parts[0] + seq![sep] + spec_join(parts.drop_first(), sep)
    }
}

pub proof fn lemma_join_push(parts: Seq<Seq<char>>, x: Seq<char>, sep: char)
    requires
        parts.len() >= 1,
    ensures
        spec_join(parts.push(x), sep) =~= spec_join(parts, sep) + seq![sep] + x,
    decreases parts.len(),
{
    if parts.len() == 1 {
        assert(parts.push(x).drop_first() =~= seq![x]);
        assert(spec_join(seq![x], sep) == x);
    } else {
        lemma_join_push(parts.drop_first(), x, sep);
        assert(parts.push(x).drop_first() =~= parts.drop_first().push(x));
    }
}

/// Joins the pieces with `sep` between consecutive pieces.
pub fn join_char(parts: &Vec<Vec<char>>, sep: char) -> (out: Vec<char>)
    ensures
        out@ == spec_join(parts.deep_view(), sep),
{
    let mut out: Vec<char> = Vec::new();
    if parts.len() == 0 {
        return out;
    }
    extend_chars(&mut out, &parts[0]);
    proof {
        assert(out@ =~= spec_join(parts.deep_view().subrange(0, 1), sep));
    }
    let mut i: usize = 1;
    while i < parts.len()
        invariant
            1 <= i <= parts.len(),
            out@ == spec_join(parts.deep_view().subrange(0, i as int), sep),
        decreases parts.len() - i,
    {
        out.push(sep);
        extend_chars(&mut out, &parts[i]);
        proof {
            let prefix = parts.deep_view().subrange(0, i as int);
            lemma_join_push(prefix, parts.deep_view()[i as int], sep);
            assert(prefix.push(parts.deep_view()[i as int]) =~= parts.deep_view().subrange(
                0,
                (i + 1) as int,
            ));
        }
        i = i + 1;
    }
    proof {
        assert(parts.deep_view().subrange(0, parts.deep_view().len() as int) =~= parts.deep_view());
    }
    out
}

/// `s` with every non-overlapping occurrence of `pat` replaced by `rep`,
/// scanning left to right.
pub open spec fn spec_replace(s: Seq<char>, pat: Seq<char>, rep: Seq<char>) -> Seq<char>
    recommends
        pat.len() > 0,
    decreases s.len(),
{
    if s.len() == 0 || pat.len() == 0 {
        s
    } else if is_match_at(s, pat, 0) {
        rep + spec_replace(s.subrange(pat.len() as int, s.len() as int), pat, rep)
    } else {
        seq![s[0]] + spec_replace(s.drop_first(), pat, rep)
    }
}

/// Replaces every non-overlapping occurrence of `pat` by `rep`, left to right.
pub fn replace_all(s: &Vec<char>, pat: &Vec<char>, rep: &Vec<char>) -> (out: Vec<char>)
    requires
        pat@.len() > 0,
    ensures
        out@ == spec_replace(s@, pat@, rep@),
{
    let mut out: Vec<char> = Vec::new();
    let mut i: usize = 0;
    proof {
        assert(s@.subrange(0, s@.len() as int) =~= s@);
        assert(out@ + spec_replace(s@, pat@, rep@) =~= spec_replace(s@, pat@, rep@));
    }
    while i < s.len()
        invariant
            i <= s.len(),
            pat@.len() > 0,
            spec_replace(s@, pat@, rep@) =~= out@ + spec_replace(
                s@.subrange(i as int, s@.len() as int),
                pat@,
                rep@,
            ),
        decreases s.len() - i,
    {
        let ghost tail = s@.subrange(i as int, s@.len() as int);
        if match_at(s, pat, i) {
            proof {
                assert(tail.subrange(0, pat@.len() as int) =~= s@.subrange(
                    i as int,
                    i + pat@.len(),
                ));
                assert(is_match_at(tail, pat@, 0));
                assert(tail.subrange(pat@.len() as int, tail.len() as int) =~= s@.subrange(
                    i + pat@.len(),
                    s@.len() as int,
                ));
            }
            extend_chars(&mut out, rep);
            i = i + pat.len();
        } else {
            proof {
                if is_match_at(tail, pat@, 0) {
                    assert(tail.subrange(0, pat@.len() as int) =~= s@.subrange(
                        i as int,
                        i + pat@.len(),
                    ));
                }
                assert(tail.drop_first() =~= s@.subrange(i + 1, s@.len() as int));
                assert(seq![tail[0]] + tail.drop_first() =~= tail);
            }
            out.push(s[i]);
            i = i + 1;
        }
    }
    proof {
        assert(s@.subrange(i as int, s@.len() as int) =~= Seq::<char>::empty());
        assert(out@ =~= spec_replace(s@, pat@, rep@));
    }
    out
}

/// The deep view of a vector of character vectors indexes to the views of
/// its elements.
pub proof fn lemma_chars_deep_view(v: &Vec<Vec<char>>)
    ensures
        v.deep_view().len() == v@.len(),
        forall|i: int| 0 <= i < v@.len() ==> v.deep_view()[i] == v@[i]@,
{
    assert forall|i: int| 0 <= i < v@.len() implies v.deep_view()[i] == v@[i]@ by {
        assert(v.deep_view()[i] =~= v@[i]@);
    }
}

/// The first occurrence of `c` in `s` at or after position `i`.
pub open spec fn spec_find_char(s: Seq<char>, c: char, i: int) -> Option<int>
    decreases s.len() - i,
    when 0 <= i <= s.len()
{
    if i >= s.len() {
        None
    } else if s[i] == c {
        Some(i)
    } else {
        spec_find_char(s, c, i + 1)
    }
}

/// Finds the first occurrence of `c` in `s` at or after `from`.
pub fn find_char(s: &Vec<char>, c: char, from: usize) -> (r: Option<usize>)
    requires
        from <= s@.len(),
    ensures
        match r {
            Some(k) => spec_find_char(s@, c, from as int) == Some(k as int) && from <= k
                < s@.len() && s@[k as int] == c,
            None => spec_find_char(s@, c, from as int) is None,
        },
{
    let mut i: usize = from;
    while i < s.len()
        invariant
            from <= i <= s.len(),
            spec_find_char(s@, c, from as int) == spec_find_char(s@, c, i as int),
        decreases s.len() - i,
    {
        if s[i] == c {
            return Some(i);
        }
        i = i + 1;
    }
    None
}

/// The characters of `s` from `from` (inclusive) to `to` (exclusive).
pub fn sub_chars(s: &Vec<char>, from: usize, to: usize) -> (out: Vec<char>)
    requires
        from <= to <= s@.len(),
    ensures
        out@ == s@.subrange(from as int, to as int),
{
    let mut out: Vec<char> = Vec::new();
    let mut i: usize = from;
    while i < to
        invariant
            from <= i <= to <= s@.len(),
            out@ == s@.subrange(from as int, i as int),
        decreases to - i,
    {
        out.push(s[i]);
        i = i + 1;
        proof {
            assert(out@ =~= s@.subrange(from as int, i as int));
        }
    }
    out
}

/// A copy of the character vector.
pub fn clone_chars(s: &Vec<char>) -> (out: Vec<char>)
    ensures
        out@ == s@,
{
    let mut out: Vec<char> = Vec::new();
    let mut i: usize = 0;
    while i < s.len()
        invariant
            i <= s.len(),
            out@ == s@.subrange(0, i as int),
        decreases s.len() - i,
    {
        out.push(s[i]);
        i = i + 1;
        proof {
            assert(out@ =~= s@.subrange(0, i as int));
        }
    }
    proof {
        assert(out@ =~= s@);
    }
    out
}

/// `s` without leading blank characters.
pub open spec fn spec_trim_start(s: Seq<char>) -> Seq<char>
    decreases s.len(),
{
    if s.len() > 0 && is_blank_char(s[0]) {
        spec_trim_start(s.drop_first())
    } else {
        s
    }
}

/// `s` without trailing blank characters.
pub open spec fn spec_trim_end(s: Seq<char>) -> Seq<char>
    decreases s.len(),
{
    if s.len() > 0 && is_blank_char(s[s.len() - 1]) {
        spec_trim_end(s.drop_last())
    } else {
        s
    }
}

/// `s` without leading and trailing blank characters.
pub open spec fn spec_trim(s: Seq<char>) -> Seq<char> {
    spec_trim_end(spec_trim_start(s))
}

pub proof fn lemma_trim_start_range(s: Seq<char>, k: int)
    requires
        0 <= k <= s.len(),
        forall|j: int| 0 <= j < k ==> is_blank_char(s[j]),
        k == s.len() || !is_blank_char(s[k]),
    ensures
        spec_trim_start(s) =~= s.subrange(k, s.len() as int),
    decreases s.len(),
{
    if k == 0 {
        assert(s.subrange(0, s.len() as int) =~= s);
    } else {
        lemma_trim_start_range(s.drop_first(), k - 1);
        assert(s.drop_first().subrange(k - 1, s.len() - 1) =~= s.subrange(k, s.len() as int));
    }
}

proof fn lemma_trim_end_range(s: Seq<char>, k: int)
    requires
        0 <= k <= s.len(),
        forall|j: int| k <= j < s.len() ==> is_blank_char(s[j]),
        k == 0 || !is_blank_char(s[k - 1]),
    ensures
        spec_trim_end(s) =~= s.subrange(0, k),
    decreases s.len(),
{
    if k == s.len() {
        assert(s.subrange(0, s.len() as int) =~= s);
    } else {
        lemma_trim_end_range(s.drop_last(), k);
        assert(s.drop_last().subrange(0, k) =~= s.subrange(0, k));
    }
}

/// The first occurrence of `pat` in `s` at or after position `i`.
pub open spec fn spec_find_sub(s: Seq<char>, pat: Seq<char>, i: int) -> Option<int>
    decreases s.len() - i,
    when 0 <= i <= s.len() && pat.len() > 0
{
    if i + pat.len() > s.len() {
        None
    } else if is_match_at(s, pat, i) {
        Some(i)
    } else {
        spec_find_sub(s, pat, i + 1)
    }
}

/// Finds the first occurrence of `pat` in `s` at or after `from`.
#[verifier::loop_isolation(false)]
pub fn find_sub(s: &Vec<char>, pat: &Vec<char>, from: usize) -> (r: Option<usize>)
    requires
        from <= s@.len(),
        pat@.len() > 0,
    ensures
        match r {
            Some(k) => spec_find_sub(s@, pat@, from as int) == Some(k as int) && from <= k
                && k + pat@.len() <= s@.len() && is_match_at(s@, pat@, k as int),
            None => spec_find_sub(s@, pat@, from as int) is None,
        },
{
    let mut i: usize = from;
    while i <= s.len() && pat.len() <= s.len() - i
        invariant
            from <= i <= s@.len(),
            spec_find_sub(s@, pat@, from as int) == spec_find_sub(s@, pat@, i as int),
        decreases s.len() - i,
    {
        if match_at(s, pat, i) {
            return Some(i);
        }
        i = i + 1;
    }
    None
}

/// `s` without leading blank characters, as a vector.
pub fn trim_start_chars(s: &Vec<char>) -> (out: Vec<char>)
    ensures
        out@ == spec_trim_start(s@),
{
    let mut lo: usize = 0;
    while lo < s.len() && blank_char(s[lo])
        invariant
            lo <= s.len(),
            forall|j: int| 0 <= j < lo ==> is_blank_char(s@[j]),
        decreases s.len() - lo,
    {
        lo = lo + 1;
    }
    proof {
        lemma_trim_start_range(s@, lo as int);
    }
    sub_chars(s, lo, s.len())
}

/// The characters of `s` with leading and trailing blanks removed.
pub fn trim_chars(s: &Vec<char>) -> (out: Vec<char>)
    ensures
        out@ == spec_trim(s@),
{
    let mut lo: usize = 0;
    while lo < s.len() && blank_char(s[lo])
        invariant
            lo <= s.len(),
            forall|j: int| 0 <= j < lo ==> is_blank_char(s@[j]),
        decreases s.len() - lo,
    {
        lo = lo + 1;
    }
    proof {
        lemma_trim_start_range(s@, lo as int);
    }
    let mut hi: usize = s.len();
    while hi > lo && blank_char(s[hi - 1])
        invariant
            lo <= hi <= s.len(),
            forall|j: int| hi <= j < s.len() ==> is_blank_char(s@[j]),
        decreases hi,
    {
        hi = hi - 1;
    }
    proof {
        let st = spec_trim_start(s@);
        assert(st == s@.subrange(lo as int, s@.len() as int));
        lemma_trim_end_range(st, hi - lo);
        assert(st.subrange(0, hi - lo) =~= s@.subrange(lo as int, hi as int));
    }
    let mut out: Vec<char> = Vec::new();
    let mut i: usize = lo;
    while i < hi
        invariant
            lo <= i <= hi <= s.len(),
            out@ == s@.subrange(lo as int, i as int),
        decreases hi - i,
    {
        out.push(s[i]);
        i = i + 1;
        proof {
            assert(out@ =~= s@.subrange(lo as int, i as int));
        }
    }
    out
}

} // verus!

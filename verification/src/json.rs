//! JSON text for the contexts handed to the template engine: strings with
//! their characters escaped, numbers in decimal, booleans, and arrays of
//! strings. The engine parses this text back into its own value tree.

use vstd::prelude::*;

verus! {

use crate::text::{chars_of, extend_chars};

/// The character spelling the hexadecimal digit `n`.
pub open spec fn hex_char(n: u8) -> char
    recommends
        n < 16,
{
    if n < 10 {
        ((('0' as u8) + n) as char)
    } else {
        ((('a' as u8) + (n - 10)) as char)
    }
}

/// How one character appears inside a JSON string literal.
pub open spec fn spec_json_char(c: char) -> Seq<char> {
    if c == '"' {
        seq!['\\', '"']
    } else if c == '\\' {
        seq!['\\', '\\']
    } else if c == '\n' {
        seq!['\\', 'n']
    } else if c == '\r' {
        seq!['\\', 'r']
    } else if c == '\t' {
        seq!['\\', 't']
    } else if (c as u32) < 32 {
        seq!['\\', 'u', '0', '0', hex_char((c as u32 / 16) as u8), hex_char((c as u32 % 16) as u8)]
    } else {
        seq![c]
    }
}

/// The body of a JSON string literal for `s`.
pub open spec fn spec_json_escape(s: Seq<char>) -> Seq<char>
    decreases s.len(),
{
    if s.len() == 0 {
        Seq::<char>::empty()
    } else {
        spec_json_char(s[0]) + spec_json_escape(s.drop_first())
    }
}

/// The JSON string literal for `s`, quotes included.
pub open spec fn spec_json_string(s: Seq<char>) -> Seq<char> {
    seq!['"'] + spec_json_escape(s) + seq!['"']
}

/// The decimal spelling of a nonnegative number.
pub open spec fn spec_dec(n: int) -> Seq<char>
    decreases n,
    when n >= 0
{
    if n < 10 {
        seq![hex_char(n as u8)]
    } else {
        spec_dec(n / 10) + seq![hex_char((n % 10) as u8)]
    }
}

/// The JSON spelling of a boolean.
pub open spec fn spec_json_bool(b: bool) -> Seq<char> {
    if b {
        "true"@
    } else {
        "false"@
    }
}

/// The items of a JSON array of strings from index `i` on, with the comma
/// that precedes every item but the first.
pub open spec fn spec_json_items_from(items: Seq<Seq<char>>, i: int) -> Seq<char>
    decreases items.len() - i,
    when 0 <= i <= items.len()
{
    if i >= items.len() {
        Seq::<char>::empty()
    } else {
        (if i > 0 {
            seq![',']
        } else {
            Seq::<char>::empty()
        }) + spec_json_string(items[i]) + spec_json_items_from(items, i + 1)
    }
}

/// The JSON array of strings.
pub open spec fn spec_json_str_array(items: Seq<Seq<char>>) -> Seq<char> {
    seq!['['] + spec_json_items_from(items, 0) + seq![']']
}

/// Appends the JSON string literal for `s`.
#[verifier::loop_isolation(false)]
pub fn push_json_string(out: &mut Vec<char>, s: &str) -> (u: ())
    ensures
        final(out)@ == old(out)@ + spec_json_string(s@),
{
    let chars = chars_of(s);
    out.push('"');
    let ghost start = out@;
    let mut i: usize = 0;
    proof {
        assert(chars@.subrange(0, chars@.len() as int) =~= chars@);
        assert(start + spec_json_escape(chars@) =~= start + spec_json_escape(chars@));
    }
    while i < chars.len()
        invariant
            i <= chars@.len(),
            start + spec_json_escape(chars@) =~= out@ + spec_json_escape(
                chars@.subrange(i as int, chars@.len() as int),
            ),
        decreases chars@.len() - i,
    {
        let ghost tail = chars@.subrange(i as int, chars@.len() as int);
        proof {
            assert(tail.drop_first() =~= chars@.subrange(i + 1, chars@.len() as int));
            assert(tail[0] == chars@[i as int]);
        }
        let c = chars[i];
        if c == '"' {
            out.push('\\');
            out.push('"');
        } else if c == '\\' {
            out.push('\\');
            out.push('\\');
        } else if c == '\n' {
            out.push('\\');
            out.push('n');
        } else if c == '\r' {
            out.push('\\');
            out.push('r');
        } else if c == '\t' {
            out.push('\\');
            out.push('t');
        } else if (c as u32) < 32 {
            out.push('\\');
            out.push('u');
            out.push('0');
            out.push('0');
            let hi = ((c as u32) / 16) as u8;
            let lo = ((c as u32) % 16) as u8;
            out.push(if hi < 10 {
                (('0' as u8) + hi) as char
            } else {
                (('a' as u8) + (hi - 10)) as char
            });
            out.push(if lo < 10 {
                (('0' as u8) + lo) as char
            } else {
                (('a' as u8) + (lo - 10)) as char
            });
        } else {
            out.push(c);
        }
        proof {
            assert(out@ + spec_json_escape(tail.drop_first()) =~= start + spec_json_escape(
                chars@,
            ));
        }
        i = i + 1;
    }
    proof {
        assert(chars@.subrange(i as int, chars@.len() as int) =~= Seq::<char>::empty());
    }
    out.push('"');
    proof {
        assert(out@ =~= old(out)@ + spec_json_string(s@));
    }
}

/// Appends the decimal spelling of `n`.
pub fn push_dec(out: &mut Vec<char>, n: u64)
    ensures
        final(out)@ == old(out)@ + spec_dec(n as int),
    decreases n,
{
    if n < 10 {
        out.push((('0' as u8) + (n as u8)) as char);
        proof {
            assert(out@ =~= old(out)@ + spec_dec(n as int));
        }
    } else {
        push_dec(out, n / 10);
        let d = (n % 10) as u8;
        out.push((('0' as u8) + d) as char);
        proof {
            assert(out@ =~= old(out)@ + spec_dec(n as int));
        }
    }
}

/// Appends `true` or `false`.
pub fn push_bool(out: &mut Vec<char>, b: bool)
    ensures
        final(out)@ == old(out)@ + spec_json_bool(b),
{
    if b {
        let t = chars_of("true");
        extend_chars(out, &t);
    } else {
        let f = chars_of("false");
        extend_chars(out, &f);
    }
}

/// Appends the JSON array of the given strings.
#[verifier::loop_isolation(false)]
pub fn push_json_str_array(out: &mut Vec<char>, items: &Vec<String>)
    ensures
        final(out)@ == old(out)@ + spec_json_str_array(items.deep_view()),
{
    let ghost dv = items.deep_view();
    out.push('[');
    let ghost start = out@;
    let mut i: usize = 0;
    while i < items.len()
        invariant
            i <= items@.len(),
            dv.len() == items@.len(),
            i > 0 || out@ == start,
            start + spec_json_items_from(dv, 0) =~= out@ + spec_json_items_from(dv, i as int),
        decreases items@.len() - i,
    {
        proof {
            assert(dv[i as int] == items@[i as int]@);
        }
        if i > 0 {
            out.push(',');
        }
        push_json_string(out, items[i].as_str());
        i = i + 1;
    }
    proof {
        assert(spec_json_items_from(dv, i as int) =~= Seq::<char>::empty());
    }
    out.push(']');
    proof {
        assert(out@ =~= old(out)@ + spec_json_str_array(dv));
    }
}

} // verus!

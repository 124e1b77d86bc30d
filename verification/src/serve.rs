//! The preview server's decisions: which file of the output tree a request
//! path asks for, with index-file resolution and a not-found answer for
//! everything else. Binding the port and reading files stay outside; the
//! routing itself is decided here.

use vstd::prelude::*;

verus! {

use vstd::string::StringExecFns;
use crate::config::Config;
use crate::errors::Error;
use crate::text::{spec_split, chars_of, string_of, split_char, chars_eq, extend_chars};

/// The preview server: configuration for the loop that serves the output
/// tree.
#[derive(Debug)]
pub struct Server {
    pub config: Config,
}

impl Server {
    /// A server over the given configuration.
    pub fn new(config: Config) -> (s: Server)
        ensures
            s.config == config,
    {
        Server { config }
    }
}

/// The message refusing to serve when the output tree is missing.
pub open spec fn spec_not_built_message(output_dir: Seq<char>) -> Seq<char> {
    "Output directory not found: "@ + output_dir + ". Run `termv build` first."@
}

/// Checks that the output tree exists before serving begins.
pub fn check_output_ready(output_dir: &str, exists: bool) -> (r: Result<(), Error>)
    ensures
        r is Ok <==> exists,
        r matches Err(e) ==> e matches Error::Other(m) && m@ == spec_not_built_message(output_dir@),
{
    if exists {
        Ok(())
    } else {
        let mut m = String::from_str("Output directory not found: ");
        m.append(output_dir);
        m.append(". Run `termv build` first.");
        Err(Error::Other(m))
    }
}

/// Whether some segment of the path climbs upward.
pub open spec fn has_dotdot(segs: Seq<Seq<char>>) -> bool {
    exists|i: int| 0 <= i < segs.len() && segs[i] == ".."@
}

/// The file of the output tree a request path asks for: the path without
/// its leading slash, with `index.html` appended for the root and for
/// directory requests; `None` for a malformed or upward-climbing path.
pub open spec fn spec_resolve(path: Seq<char>) -> Option<Seq<char>> {
    if path.len() == 0 || path[0] != '/' {
        None
    } else {
        let rel = path.subrange(1, path.len() as int);
        if has_dotdot(spec_split(rel, '/')) {
            None
        } else if rel.len() == 0 || rel[rel.len() - 1] == '/' {
            Some(rel + "index.html"@)
        } else {
            Some(rel)
        }
    }
}

/// Resolves a request path to a relative file path of the output tree.
#[verifier::loop_isolation(false)]
pub fn resolve_request_path(path: &str) -> (r: Option<String>)
    ensures
        match r {
            Some(f) => spec_resolve(path@) == Some(f@),
            None => spec_resolve(path@) is None,
        },
{
    let chars = chars_of(path);
    if chars.len() == 0 || chars[0] != '/' {
        return None;
    }
    let rel = crate::text::sub_chars(&chars, 1, chars.len());
    let segs = split_char(&rel, '/');
    let dotdot = chars_of("..");
    let ghost segs_dv = segs.deep_view();
    proof {
        crate::text::lemma_chars_deep_view(&segs);
    }
    let mut i: usize = 0;
    while i < segs.len()
        invariant
            i <= segs@.len(),
            forall|j: int| 0 <= j < i ==> segs_dv[j] != ".."@,
        decreases segs@.len() - i,
    {
        if chars_eq(&segs[i], &dotdot) {
            proof {
                reveal_strlit("..");
                assert(segs_dv[i as int] == ".."@);
            }
            return None;
        }
        proof {
            reveal_strlit("..");
        }
        i = i + 1;
    }
    proof {
        assert(!has_dotdot(segs_dv));
    }
    let mut out = rel;
    if out.len() == 0 || out[out.len() - 1] == '/' {
        let index = chars_of("index.html");
        extend_chars(&mut out, &index);
    }
    Some(string_of(&out))
}

/// What the server answers: the contents of a file of the output tree, or
/// a not-found page.
#[derive(Debug)]
pub enum RouteDecision {
    ServeFile(String),
    NotFound,
}

/// The routing decision for a request path, given whether the resolved
/// file exists in the output tree: the file when the path resolves and the
/// file is there, not found otherwise.
pub fn route(path: &str, exists_file: bool) -> (r: RouteDecision)
    ensures
        r is ServeFile <==> spec_resolve(path@) is Some && exists_file,
        r matches RouteDecision::ServeFile(f) ==> spec_resolve(path@) == Some(f@),
{
    match resolve_request_path(path) {
        Some(f) => {
            if exists_file {
                RouteDecision::ServeFile(f)
            } else {
                RouteDecision::NotFound
            }
        },
        None => RouteDecision::NotFound,
    }
}

} // verus!

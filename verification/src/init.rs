//! Validation of a site directory's layout before a build: the directory
//! itself and its required subdirectories must exist.

use vstd::prelude::*;

verus! {

use vstd::string::StringExecFns;
use crate::errors::Error;

/// What a look at the site directory found.
#[derive(Debug)]
pub struct SiteDirProbe {
    pub exists: bool,
    pub has_posts: bool,
    pub has_templates: bool,
    pub has_static_css: bool,
}

/// Checks that the site directory and its required subdirectories
/// (`posts`, `templates`, `static/css`) are present, reporting the first
/// one missing.
pub fn validate_site_directory(path: &str, probe: &SiteDirProbe) -> (r: Result<(), Error>)
    ensures
        r is Ok <==> probe.exists && probe.has_posts && probe.has_templates
            && probe.has_static_css,
        r matches Err(e) ==> if !probe.exists {
            e matches Error::DirectoryNotFound(p) && p@ == path@
        } else if !probe.has_posts {
            e matches Error::MissingDirectory(d) && d@ == "posts"@
        } else if !probe.has_templates {
            e matches Error::MissingDirectory(d) && d@ == "templates"@
        } else {
            e matches Error::MissingDirectory(d) && d@ == "static/css"@
        },
{
    if !probe.exists {
        return Err(Error::DirectoryNotFound(String::from_str(path)));
    }
    if !probe.has_posts {
        return Err(Error::MissingDirectory(String::from_str("posts")));
    }
    if !probe.has_templates {
        return Err(Error::MissingDirectory(String::from_str("templates")));
    }
    if !probe.has_static_css {
        return Err(Error::MissingDirectory(String::from_str("static/css")));
    }
    Ok(())
}

} // verus!

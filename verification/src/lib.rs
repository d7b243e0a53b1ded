//! Markdown-to-HTML transformation for a static site: rendering through an
//! outside markdown engine, rewriting of internal links to a canonical
//! site-relative form, extraction of a table of contents from rendered
//! headings, and frontmatter handling. The link and heading scanners are
//! this crate's own verified logic; the markdown engine, the URL parser and
//! the frontmatter parser are outside collaborators behind trusted wrappers.
mod frontmatter;
mod options;
mod links;
mod render;
mod rewrite;
mod slug;
mod toc;
mod outside;
mod text;

pub use frontmatter::{extract_fm_content, parse_front_matter};
pub use options::ParserOptions;
pub use links::get_links_to;
pub use render::{get_html, get_html_with_options};
pub use rewrite::fix_internal_links;
pub use slug::slugify;
pub use toc::get_table_of_contents_from_html;

use crate::outside::str_chars;
use crate::text::is_prefix;
use vstd::prelude::*;

verus! {

/// Appends a block of reference definitions to a markdown document.
///
/// When `references` is present, the result is the content, a blank line,
/// and the references; otherwise the content is returned unchanged.
pub fn append_references(content: &str, references: Option<&str>) -> (out: String)
    ensures
        match references {
            Some(refs) => out@ == content@ + "\n\n"@ + refs@,
            None => out@ == content@,
        },
{
    match references {
        Some(refs) => {
            let mut s = content.to_owned();
            s.append("\n\n");
            s.append(refs);
            s
        }
        None => content.to_owned(),
    }
}

/// A link reference that may stay unresolved without a warning: external
/// links, callouts, anchors, footnotes, absolute links, single-character
/// non-digit references (task checkboxes), and empty ones.
pub open spec fn broken_link_allowed_spec(s: Seq<char>) -> bool {
    is_prefix("http"@, s) || (s.len() > 0 && (s[0] == '!' || s[0] == '#' || s[0] == '^' || s[0]
        == '/')) || (s.len() == 1 && (s[0] as u32) < 128 && !(48 <= (s[0] as u32) <= 57)) || s.len()
        == 0
}

/// Decides whether an unresolved link reference is expected markup rather
/// than a missing reference definition worth warning about.
pub fn broken_link_allowed(original: &str) -> (b: bool)
    ensures
        b == broken_link_allowed_spec(original@),
{
    let v = str_chars(original);
    if v.len() == 0 {
        return true;
    }
    let c = v[0];
    crate::text::starts_with(&v, &str_chars("http")) || c == '!' || c == '#' || c == '^' || c == '/'
        || (v.len() == 1 && (c as u32) < 128 && !(48 <= (c as u32) && (c as u32) <= 57))
}

} // verus!

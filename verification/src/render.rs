//! The markdown-to-HTML pipeline: the outside markdown engine renders the
//! document, then the internal links of the result are rewritten.
use crate::options::{default_parser_options, ParserOptions};
use crate::outside::{render_markdown, rendered_markdown};
use crate::rewrite::{fix_internal_links, fix_links};
use vstd::prelude::*;

verus! {

/// Converts markdown to HTML with the given options and rewrites the
/// internal links of the result.
pub fn get_html_with_options(markdown: &str, parser_options: &ParserOptions) -> (r: String)
    ensures
        r@ == fix_links(rendered_markdown(markdown@, *parser_options)),
{
    let html = render_markdown(markdown, parser_options);
    fix_internal_links(html.as_str())
}

/// Converts markdown to HTML with the default options and rewrites the
/// internal links of the result.
pub fn get_html(markdown: &str) -> (r: String)
    ensures
        r@ == fix_links(rendered_markdown(markdown@, default_parser_options())),
{
    let opts = ParserOptions::default();
    get_html_with_options(markdown, &opts)
}

} // verus!

//! Splitting a document into its frontmatter and its body.
use crate::outside::{
    chars_string, detect_fm_format, extract_raw_fm, fm_format_of, fm_parse_ok, fm_split_of,
    new_frontmatter, parse_fm, str_chars,
};
use crate::text::{is_prefix, starts_with, trim_leading, trim_leading_vec};
use frontmatter_gen::Frontmatter;
use vstd::prelude::*;

verus! {

/// What extracting frontmatter from `s` yields: `Err` where the outside
/// parser rejects the document, else the parsed frontmatter (left abstract
/// here) together with the remaining content.
pub open spec fn fm_extract_outcome(s: Seq<char>, r: Result<(Frontmatter, String), String>) -> bool {
    match fm_split_of(s) {
        None => r is Err,
        Some(q) => match fm_format_of(q.0) {
            None => r is Err,
            Some(f) => if fm_parse_ok(q.0, f) {
                r matches Ok(p) && p.1@ == q.1
            } else {
                r is Err
            },
        },
    }
}

/// Whether a document opens with one of the frontmatter markers: a YAML
/// `---` fence, a TOML `+++` fence, or a JSON object brace.
pub open spec fn has_front_matter_marker(s: Seq<char>) -> bool {
    is_prefix("---"@, s) || is_prefix("+++"@, s) || is_prefix("{"@, s)
}

/// Splits off and parses the frontmatter block that opens `content`.
pub fn extract_fm_content(content: &str) -> (r: Result<(Frontmatter, String), String>)
    ensures
        fm_extract_outcome(content@, r),
{
    match extract_raw_fm(content) {
        Err(e) => Err(e),
        Ok((raw, rest)) => match detect_fm_format(raw.as_str()) {
            Err(e) => Err(e),
            Ok(f) => match parse_fm(raw.as_str(), f) {
                Err(e) => Err(e),
                Ok(fm) => Ok((fm, rest)),
            },
        },
    }
}

/// Parses the frontmatter of a markdown document, if it has one.
///
/// Leading blank lines are dropped first. A document that does not open
/// with a frontmatter marker is returned whole, with empty frontmatter;
/// one that does is handed to the frontmatter parser, whose error is
/// passed on.
pub fn parse_front_matter(content: &str) -> (r: Result<(Frontmatter, String), String>)
    ensures
        ({
            let t = trim_leading(content@, "\n"@);
            if has_front_matter_marker(t) {
                fm_extract_outcome(t, r)
            } else {
                r matches Ok(p) && p.1@ == t
            }
        }),
{
    proof {
        reveal_strlit("\n");
    }
    let v = str_chars(content);
    let nl = str_chars("\n");
    let t = trim_leading_vec(&v, &nl);
    let has = starts_with(&t, &str_chars("---")) || starts_with(&t, &str_chars("+++"))
        || starts_with(&t, &str_chars("{"));
    if has {
        let s = chars_string(&t);
        extract_fm_content(s.as_str())
    } else {
        Ok((new_frontmatter(), chars_string(&t)))
    }
}

} // verus!

//! The trusted boundary: every call into an outside crate is made here, in
//! small `external_body` wrappers whose contracts Verus believes. Results
//! that no short formula can state are given names (`uninterp` spec
//! functions): the same input always yields the same named value.
use crate::options::ParserOptions;
use comrak::markdown_to_html;
use vstd::prelude::*;

verus! {

/// Relies on str::chars: a string viewed as the sequence of its characters.
#[verifier::external_body]
pub fn str_chars(s: &str) -> (v: Vec<char>)
    ensures
        v@ == s@,
{
    s.chars().collect()
}

/// Relies on the FromIterator impl of String: the string made of exactly
/// the given characters.
#[verifier::external_body]
pub fn chars_string(v: &Vec<char>) -> (s: String)
    ensures
        s@ == v@,
{
    v.iter().collect()
}

/// What str::to_lowercase returns: a function of the characters alone.
pub uninterp spec fn lower_of(s: Seq<char>) -> Seq<char>;

/// Relies on str::to_lowercase: the result depends on the characters alone.
#[verifier::external_body]
pub fn lower_chars(v: &Vec<char>) -> (r: Vec<char>)
    ensures
        r@ == lower_of(v@),
{
    let s: String = v.iter().collect();
    s.to_lowercase().chars().collect()
}

/// What url::Url::parse returns for a string: whether it parses as an
/// absolute URL, and if so its scheme, path and fragment (the fragment is
/// empty when absent). A function of the characters alone.
pub uninterp spec fn url_parse_of(s: Seq<char>) -> (bool, Seq<char>, Seq<char>, Seq<char>);

/// Relies on url::Url::parse: parses absolute URLs only (a relative
/// reference is an error), and Url::scheme, Url::path and Url::fragment,
/// which return the parsed parts.
#[verifier::external_body]
pub fn parse_url(v: &Vec<char>) -> (r: Option<(Vec<char>, Vec<char>, Vec<char>)>)
    ensures
        r is Some <==> url_parse_of(v@).0,
        r matches Some(p) ==> p.0@ == url_parse_of(v@).1 && p.1@ == url_parse_of(v@).2 && p.2@
            == url_parse_of(v@).3,
{
    let s: String = v.iter().collect();
    match url::Url::parse(&s) {
        Ok(u) => Some((
            u.scheme().chars().collect(),
            u.path().chars().collect(),
            u.fragment().unwrap_or("").chars().collect(),
        )),
        Err(_) => None,
    }
}

/// What comrak::markdown_to_html returns for a document and a set of
/// options: a function of its arguments alone.
pub uninterp spec fn rendered_markdown(md: Seq<char>, opts: ParserOptions) -> Seq<char>;

/// Relies on comrak::markdown_to_html with the option set built from the
/// given switches; heading anchors are always on (empty id prefix).
#[verifier::external_body]
pub fn render_markdown(markdown: &str, p: &ParserOptions) -> (r: String)
    ensures
        r@ == rendered_markdown(markdown@, *p),
{
    let mut o = comrak::Options::default();
    let e = &mut o.extension;
    e.alerts = p.alerts; e.autolink = p.autolink; e.description_lists = p.description_lists;
    e.footnotes = p.footnotes; e.greentext = p.greentext; e.tagfilter = p.tagfilter;
    e.multiline_block_quotes = p.multiline_block_quotes; e.shortcodes = p.shortcodes;
    e.spoiler = p.spoiler; e.strikethrough = p.strikethrough; e.table = p.table;
    e.tasklist = p.tasklist; e.underline = p.underline; e.header_ids = Some("".into());
    e.wikilinks_title_before_pipe = p.wikilinks_title_before_pipe;
    e.wikilinks_title_after_pipe = p.wikilinks_title_after_pipe;
    o.parse.relaxed_tasklist_matching = p.relaxed_tasklist_matching;
    o.render.figure_with_caption = p.figure_with_caption;
    o.render.ignore_empty_links = p.ignore_empty_links;
    o.render.unsafe_ = p.raw_html;
    markdown_to_html(markdown, &o)
}

#[verifier::external_type_specification]
#[verifier::external_body]
pub struct ExFrontmatter(frontmatter_gen::Frontmatter);

/// Relies on frontmatter_gen::Frontmatter::new: the empty frontmatter.
#[verifier::external_body]
pub fn new_frontmatter() -> frontmatter_gen::Frontmatter {
    frontmatter_gen::Frontmatter::new()
}

/// What frontmatter_gen::extract_raw_frontmatter returns: the raw
/// frontmatter block and the remaining content, if the document carries
/// one it can split off. A function of the characters alone.
pub uninterp spec fn fm_split_of(s: Seq<char>) -> Option<(Seq<char>, Seq<char>)>;

/// Relies on frontmatter_gen::extract_raw_frontmatter, and on
/// From<frontmatter_gen::Error> for String for the error text.
#[verifier::external_body]
pub fn extract_raw_fm(content: &str) -> (r: Result<(String, String), String>)
    ensures
        r is Ok <==> fm_split_of(content@) is Some,
        r matches Ok(p) ==> (fm_split_of(content@) matches Some(q) && p.0@ == q.0 && p.1@
            == q.1),
{
    match frontmatter_gen::extract_raw_frontmatter(content) {
        Ok((raw, rest)) => Ok((raw.to_owned(), rest.to_owned())),
        Err(e) => Err(String::from(e)),
    }
}

/// The frontmatter formats the library distinguishes.
#[derive(Clone, Copy, PartialEq, Eq, Structural, Debug)]
pub enum FmFormat {
    Yaml,
    Toml,
    Json,
    Unsupported,
}

/// What frontmatter_gen::detect_format returns: the format of a raw
/// frontmatter block, or nothing where none can be told. A function of the
/// characters alone.
pub uninterp spec fn fm_format_of(s: Seq<char>) -> Option<FmFormat>;

/// Relies on frontmatter_gen::detect_format, and on
/// From<frontmatter_gen::Error> for String for the error text.
#[verifier::external_body]
pub fn detect_fm_format(raw: &str) -> (r: Result<FmFormat, String>)
    ensures
        r is Ok <==> fm_format_of(raw@) is Some,
        r matches Ok(f) ==> fm_format_of(raw@) == Some(f),
{
    match frontmatter_gen::detect_format(raw) {
        Ok(frontmatter_gen::Format::Yaml) => Ok(FmFormat::Yaml),
        Ok(frontmatter_gen::Format::Toml) => Ok(FmFormat::Toml),
        Ok(frontmatter_gen::Format::Json) => Ok(FmFormat::Json),
        Ok(_) => Ok(FmFormat::Unsupported),
        Err(e) => Err(String::from(e)),
    }
}

/// Whether frontmatter_gen::parse accepts a raw block in a format: a
/// function of its arguments alone.
pub uninterp spec fn fm_parse_ok(raw: Seq<char>, f: FmFormat) -> bool;

/// Relies on frontmatter_gen::parse, and on From<frontmatter_gen::Error>
/// for String for the error text.
#[verifier::external_body]
pub fn parse_fm(raw: &str, f: FmFormat) -> (r: Result<frontmatter_gen::Frontmatter, String>)
    ensures
        r is Ok <==> fm_parse_ok(raw@, f),
{
    let g = match f {
        FmFormat::Yaml => frontmatter_gen::Format::Yaml,
        FmFormat::Toml => frontmatter_gen::Format::Toml,
        FmFormat::Json => frontmatter_gen::Format::Json,
        FmFormat::Unsupported => frontmatter_gen::Format::Unsupported,
    };
    frontmatter_gen::parse(raw, g).map_err(String::from)
}

} // verus!

//! Rewriting of internal links in rendered HTML: every `<a href="...">`
//! element whose target is neither an anchor, a footnote, a media file, an
//! absolute path nor an external URL is pointed at the canonical
//! `page.html#fragment` form, and the link text is cleaned of extensions
//! and leading hashes.
use crate::outside::{chars_string, lower_of, lower_chars, parse_url, str_chars, url_parse_of};
use crate::slug::{slug_of, slugify_chars};
use crate::text::{
    contains_seq, contains_sub, find_at, find_from, is_suffix, lemma_find_at, match_at,
    occurs_at, push_all, replace_all, replace_all_vec, sub_vec, trim_leading, trim_leading_vec,
    trim_trailing, trim_trailing_vec,
};
use vstd::prelude::*;

verus! {

/// Where the link text that starts at `c0` ends: the first `</a>`,
/// provided no line break comes first.
pub open spec fn text_end(s: Seq<char>, c0: int) -> Option<int>
    decreases s.len() - c0,
{
    if c0 < 0 || c0 + "</a>"@.len() > s.len() || c0 >= s.len() {
        None
    } else if occurs_at(s, "</a>"@, c0) {
        Some(c0)
    } else if s[c0] == '\n' {
        None
    } else {
        text_end(s, c0 + 1)
    }
}

/// The whole `<a href="...">...</a>` element standing at `i`, if any: the
/// element itself, its `href` value, its text, and the position just past
/// it. The `href` must come before the end of the opening tag and its
/// value must be non-empty; the text never crosses a line break.
pub open spec fn atag_at(s: Seq<char>, i: int) -> Option<(Seq<char>, Seq<char>, Seq<char>, int)> {
    if !occurs_at(s, "<a"@, i) {
        None
    } else {
        match find_at(s, "href=\""@, i + 2) {
            None => None,
            Some(j) => match find_at(s, ">"@, i + 2) {
                None => None,
                Some(g2) => if g2 < j {
                    None
                } else {
                    match find_at(s, "\""@, j + "href=\""@.len()) {
                        None => None,
                        Some(q2) => if q2 == j + "href=\""@.len() {
                            None
                        } else {
                            match find_at(s, ">"@, q2 + 1) {
                                None => None,
                                Some(t) => match text_end(s, t + 1) {
                                    None => None,
                                    Some(e) => Some(
                                        (
                                            s.subrange(i, e + "</a>"@.len()),
                                            s.subrange(j + "href=\""@.len(), q2),
                                            s.subrange(t + 1, e),
                                            e + "</a>"@.len(),
                                        ),
                                    ),
                                },
                            }
                        },
                    }
                },
            },
        }
    }
}

/// Whether a lowered `href` names a media or download file by extension.
pub open spec fn is_media_target(low: Seq<char>) -> bool {
    is_suffix(".jpg"@, low) || is_suffix(".jpeg"@, low) || is_suffix(".png"@, low) || is_suffix(
        ".gif"@,
        low,
    ) || is_suffix(".webp"@, low) || is_suffix(".svg"@, low) || is_suffix(".avif"@, low)
        || is_suffix(".bmp"@, low) || is_suffix(".tiff"@, low) || is_suffix(".tif"@, low)
        || is_suffix(".ico"@, low) || is_suffix(".pdf"@, low) || is_suffix(".mp4"@, low)
        || is_suffix(".mov"@, low) || is_suffix(".avi"@, low) || is_suffix(".mkv"@, low)
        || is_suffix(".webm"@, low) || is_suffix(".mp3"@, low) || is_suffix(".wav"@, low)
        || is_suffix(".ogg"@, low) || is_suffix(".flac"@, low) || is_suffix(".zip"@, low)
        || is_suffix(".tar"@, low) || is_suffix(".gz"@, low) || is_suffix(".7z"@, low)
        || is_suffix(".rar"@, low) || is_suffix(".doc"@, low) || is_suffix(".docx"@, low)
        || is_suffix(".xls"@, low) || is_suffix(".xlsx"@, low) || is_suffix(".ppt"@, low)
        || is_suffix(".pptx"@, low) || is_suffix(".txt"@, low) || is_suffix(".csv"@, low)
        || is_suffix(".json"@, low) || is_suffix(".xml"@, low) || is_suffix(".yaml"@, low)
        || is_suffix(".yml"@, low) || is_suffix(".toml"@, low)
}

/// A link that is left as it stands: heading anchors, footnote links,
/// links whose element begins with a slash, relative targets beginning
/// with a dot, and media files.
pub open spec fn link_left_alone(link: Seq<char>, href: Seq<char>) -> bool {
    contains_seq(link, "class=\"anchor\""@) || contains_seq(link, "data-footnote-ref"@)
        || contains_seq(link, "footnote-backref"@) || (link.len() > 0 && link[0] == '/') || (
    href.len() > 0 && href[0] == '.') || is_media_target(lower_of(href))
}

/// The canonical target for an internal `href`: its path part with any
/// markdown or HTML extension dropped and slugged, pointed at `.html`,
/// with a slugged fragment where one stands. Where even the path split
/// fails the `href` stands unchanged.
pub open spec fn canonical_href(href: Seq<char>) -> Seq<char> {
    let parsed = url_parse_of("m://m/"@ + href);
    if parsed.0 {
        let path = slug_of(
            trim_trailing(trim_trailing(trim_leading(parsed.2, "/"@), ".md"@), ".html"@),
        );
        let frag = slug_of(parsed.3);
        let base = if path.len() > 0 {
            path + ".html"@
        } else {
            Seq::<char>::empty()
        };
        if frag.len() > 0 {
            base + "#"@ + frag
        } else {
            base
        }
    } else {
        href
    }
}

/// The cleaned link text: leading hashes dropped, a trailing `.md` or
/// `.html` extension dropped, remaining hashes turned into breadcrumbs.
pub open spec fn cleaned_text(text: Seq<char>) -> Seq<char> {
    replace_all(
        trim_trailing(trim_trailing(trim_leading(text, "#"@), ".md"@), ".html"@),
        "#"@,
        " > "@,
    )
}

/// How one link element is rewritten.
pub open spec fn rewrite_link(link: Seq<char>, href: Seq<char>, text: Seq<char>) -> Seq<char> {
    if link_left_alone(link, href) {
        link
    } else if url_parse_of(href).0 && url_parse_of(href).1.len() > 0 {
        link
    } else {
        replace_all(
            replace_all(link, "href=\""@ + href + "\""@, "href=\""@ + canonical_href(href) + "\""@),
            ">"@ + text + "</a>"@,
            ">"@ + cleaned_text(text) + "</a>"@,
        )
    }
}

/// The document from position `i` on with every link element rewritten.
pub open spec fn fix_links_from(s: Seq<char>, i: int) -> Seq<char>
    decreases s.len() - i,
{
    if i < 0 || i >= s.len() {
        Seq::empty()
    } else {
        match atag_at(s, i) {
            Some(m) => if i < m.3 <= s.len() {
                rewrite_link(m.0, m.1, m.2) + fix_links_from(s, m.3)
            } else {
                seq![s[i]] + fix_links_from(s, i + 1)
            },
            None => seq![s[i]] + fix_links_from(s, i + 1),
        }
    }
}

/// The document with every link element rewritten.
pub open spec fn fix_links(s: Seq<char>) -> Seq<char> {
    fix_links_from(s, 0)
}

/// Finds the end of the link text that starts at `c0`.
fn find_text_end(v: &Vec<char>, c0: usize) -> (r: Option<usize>)
    requires
        c0 <= v.len(),
    ensures
        match r {
            Some(e) => text_end(v@, c0 as int) == Some(e as int) && c0 <= e && e
                + 4 <= v.len(),
            None => text_end(v@, c0 as int) is None,
        },
{
    proof {
        reveal_strlit("</a>");
    }
    let cpat = str_chars("</a>");
    let mut i: usize = c0;
    while 4 <= v.len() - i
        invariant
            c0 <= i <= v.len(),
            cpat@ == "</a>"@,
            cpat@.len() == 4,
            text_end(v@, c0 as int) == text_end(v@, i as int),
        decreases v.len() - i,
    {
        if match_at(v, &cpat, i) {
            return Some(i);
        }
        if v[i] == '\n' {
            return None;
        }
        i = i + 1;
    }
    None
}

/// Reads the link element standing at `i`, if one stands there whole.
fn read_atag(v: &Vec<char>, i: usize) -> (r: Option<(Vec<char>, Vec<char>, Vec<char>, usize)>)
    requires
        i < v.len(),
    ensures
        match r {
            Some(m) => atag_at(v@, i as int) matches Some(sm) && m.0@ == sm.0 && m.1@ == sm.1
                && m.2@ == sm.2 && m.3 == sm.3 && i < m.3 <= v.len(),
            None => atag_at(v@, i as int) is None,
        },
{
    proof {
        reveal_strlit("<a");
        reveal_strlit("href=\"");
        reveal_strlit(">");
        reveal_strlit("\"");
        reveal_strlit("</a>");
    }
    let apat = str_chars("<a");
    let hpat = str_chars("href=\"");
    let gpat = str_chars(">");
    let qpat = str_chars("\"");
    if !match_at(v, &apat, i) {
        return None;
    }
    let j = match find_from(v, &hpat, i + 2) {
        Some(j) => j,
        None => {
            return None;
        },
    };
    let g2 = match find_from(v, &gpat, i + 2) {
        Some(g2) => g2,
        None => {
            return None;
        },
    };
    if g2 < j {
        return None;
    }
    proof {
        lemma_find_at(v@, hpat@, i + 2);
    }
    let q2 = match find_from(v, &qpat, j + 6) {
        Some(q2) => q2,
        None => {
            return None;
        },
    };
    if q2 == j + 6 {
        return None;
    }
    proof {
        lemma_find_at(v@, qpat@, j + 6);
    }
    let t = match find_from(v, &gpat, q2 + 1) {
        Some(t) => t,
        None => {
            return None;
        },
    };
    proof {
        lemma_find_at(v@, gpat@, q2 + 1);
    }
    match find_text_end(v, t + 1) {
        Some(e) => {
            let link = sub_vec(v, i, e + 4);
            let href = sub_vec(v, j + 6, q2);
            let text = sub_vec(v, t + 1, e);
            Some((link, href, text, e + 4))
        }
        None => None,
    }
}

/// Whether the lowered `href` names a media or download file.
fn is_media_exec(low: &Vec<char>) -> (b: bool)
    ensures
        b == is_media_target(low@),
{
    crate::text::ends_with(low, &str_chars(".jpg")) || crate::text::ends_with(
        low,
        &str_chars(".jpeg"),
    ) || crate::text::ends_with(low, &str_chars(".png")) || crate::text::ends_with(
        low,
        &str_chars(".gif"),
    ) || crate::text::ends_with(low, &str_chars(".webp")) || crate::text::ends_with(
        low,
        &str_chars(".svg"),
    ) || crate::text::ends_with(low, &str_chars(".avif")) || crate::text::ends_with(
        low,
        &str_chars(".bmp"),
    ) || crate::text::ends_with(low, &str_chars(".tiff")) || crate::text::ends_with(
        low,
        &str_chars(".tif"),
    ) || crate::text::ends_with(low, &str_chars(".ico")) || crate::text::ends_with(
        low,
        &str_chars(".pdf"),
    ) || crate::text::ends_with(low, &str_chars(".mp4")) || crate::text::ends_with(
        low,
        &str_chars(".mov"),
    ) || crate::text::ends_with(low, &str_chars(".avi")) || crate::text::ends_with(
        low,
        &str_chars(".mkv"),
    ) || crate::text::ends_with(low, &str_chars(".webm")) || crate::text::ends_with(
        low,
        &str_chars(".mp3"),
    ) || crate::text::ends_with(low, &str_chars(".wav")) || crate::text::ends_with(
        low,
        &str_chars(".ogg"),
    ) || crate::text::ends_with(low, &str_chars(".flac")) || crate::text::ends_with(
        low,
        &str_chars(".zip"),
    ) || crate::text::ends_with(low, &str_chars(".tar")) || crate::text::ends_with(
        low,
        &str_chars(".gz"),
    ) || crate::text::ends_with(low, &str_chars(".7z")) || crate::text::ends_with(
        low,
        &str_chars(".rar"),
    ) || crate::text::ends_with(low, &str_chars(".doc")) || crate::text::ends_with(
        low,
        &str_chars(".docx"),
    ) || crate::text::ends_with(low, &str_chars(".xls")) || crate::text::ends_with(
        low,
        &str_chars(".xlsx"),
    ) || crate::text::ends_with(low, &str_chars(".ppt")) || crate::text::ends_with(
        low,
        &str_chars(".pptx"),
    ) || crate::text::ends_with(low, &str_chars(".txt")) || crate::text::ends_with(
        low,
        &str_chars(".csv"),
    ) || crate::text::ends_with(low, &str_chars(".json")) || crate::text::ends_with(
        low,
        &str_chars(".xml"),
    ) || crate::text::ends_with(low, &str_chars(".yaml")) || crate::text::ends_with(
        low,
        &str_chars(".yml"),
    ) || crate::text::ends_with(low, &str_chars(".toml"))
}

/// Builds the canonical target for an internal `href`.
fn canonical_href_exec(href: &Vec<char>) -> (r: Vec<char>)
    ensures
        r@ == canonical_href(href@),
{
    proof {
        reveal_strlit("/");
        reveal_strlit(".md");
        reveal_strlit(".html");
        reveal_strlit("m://m/");
    }
    let mut pre = str_chars("m://m/");
    push_all(&mut pre, href);
    match parse_url(&pre) {
        Some((_scheme, path_raw, frag_raw)) => {
            let t1 = trim_leading_vec(&path_raw, &str_chars("/"));
            let t2 = trim_trailing_vec(&t1, &str_chars(".md"));
            let t3 = trim_trailing_vec(&t2, &str_chars(".html"));
            let path = slugify_chars(&t3);
            let frag = slugify_chars(&frag_raw);
            let mut out: Vec<char> = Vec::new();
            if path.len() > 0 {
                push_all(&mut out, &path);
                push_all(&mut out, &str_chars(".html"));
            }
            proof {
                assert(out@ =~= (if slug_of(trim_trailing(trim_trailing(trim_leading(
                    url_parse_of(pre@).2,
                    "/"@,
                ), ".md"@), ".html"@)).len() > 0 {
                    slug_of(trim_trailing(trim_trailing(trim_leading(url_parse_of(pre@).2, "/"@),
                    ".md"@), ".html"@)) + ".html"@
                } else {
                    Seq::<char>::empty()
                }));
            }
            if frag.len() > 0 {
                push_all(&mut out, &str_chars("#"));
                push_all(&mut out, &frag);
                proof {
                    reveal_strlit("#");
                }
            }
            out
        }
        None => sub_vec(href, 0, href.len()),
    }
}

/// Rewrites one link element.
fn rewrite_link_exec(link: &Vec<char>, href: &Vec<char>, text: &Vec<char>) -> (r: Vec<char>)
    ensures
        r@ == rewrite_link(link@, href@, text@),
{
    proof {
        reveal_strlit("class=\"anchor\"");
        reveal_strlit("data-footnote-ref");
        reveal_strlit("footnote-backref");
        reveal_strlit("#");
        reveal_strlit(".md");
        reveal_strlit(".html");
        reveal_strlit(" > ");
        reveal_strlit("href=\"");
        reveal_strlit("\"");
        reveal_strlit(">");
        reveal_strlit("</a>");
    }
    let low = lower_chars(href);
    if contains_sub(link, &str_chars("class=\"anchor\"")) || contains_sub(
        link,
        &str_chars("data-footnote-ref"),
    ) || contains_sub(link, &str_chars("footnote-backref")) || (link.len() > 0 && link[0] == '/')
        || (href.len() > 0 && href[0] == '.') || is_media_exec(&low) {
        return sub_vec(link, 0, link.len());
    }
    match parse_url(href) {
        Some((scheme, _path, _frag)) => {
            if scheme.len() > 0 {
                return sub_vec(link, 0, link.len());
            }
        }
        None => {}
    }
    let new_href = canonical_href_exec(href);
    let t1 = trim_leading_vec(text, &str_chars("#"));
    let t2 = trim_trailing_vec(&t1, &str_chars(".md"));
    let t3 = trim_trailing_vec(&t2, &str_chars(".html"));
    let new_text = replace_all_vec(&t3, &str_chars("#"), &str_chars(" > "));
    let mut pat1 = str_chars("href=\"");
    push_all(&mut pat1, href);
    push_all(&mut pat1, &str_chars("\""));
    let mut rep1 = str_chars("href=\"");
    push_all(&mut rep1, &new_href);
    push_all(&mut rep1, &str_chars("\""));
    let mut pat2 = str_chars(">");
    push_all(&mut pat2, text);
    push_all(&mut pat2, &str_chars("</a>"));
    let mut rep2 = str_chars(">");
    push_all(&mut rep2, &new_text);
    push_all(&mut rep2, &str_chars("</a>"));
    let step1 = replace_all_vec(link, &pat1, &rep1);
    replace_all_vec(&step1, &pat2, &rep2)
}

/// Rewrites every internal link of a rendered document to the canonical
/// `page.html#fragment` form, leaving anchors, footnotes, media links,
/// absolute paths, relative dot-paths and external URLs as they stand.
pub fn fix_internal_links(html: &str) -> (r: String)
    ensures
        r@ == fix_links(html@),
{
    let v = str_chars(html);
    let mut out: Vec<char> = Vec::new();
    let mut i: usize = 0;
    proof {
        assert(out@ + fix_links_from(v@, 0) =~= fix_links_from(v@, 0));
    }
    while i < v.len()
        invariant
            i <= v.len(),
            v@ == html@,
            fix_links(html@) == out@ + fix_links_from(v@, i as int),
        decreases v.len() - i,
    {
        match read_atag(&v, i) {
            Some((link, href, text, end)) => {
                let piece = rewrite_link_exec(&link, &href, &text);
                let ghost pre = out@;
                push_all(&mut out, &piece);
                proof {
                    assert(pre + (rewrite_link(link@, href@, text@) + fix_links_from(v@, end as int))
                        =~= out@ + fix_links_from(v@, end as int));
                }
                i = end;
            }
            None => {
                let ghost pre = out@;
                out.push(v[i]);
                proof {
                    assert(pre + (seq![v@[i as int]] + fix_links_from(v@, i + 1)) =~= out@
                        + fix_links_from(v@, i + 1));
                }
                i = i + 1;
            }
        }
    }
    chars_string(&out)
}

} // verus!

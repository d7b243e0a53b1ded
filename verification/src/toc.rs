//! Table-of-contents extraction from rendered HTML. Heading elements
//! (`<h1>` to `<h6>`, optionally opening with an anchor link) become one
//! list item each, nested in unordered lists according to heading level.
use crate::outside::{chars_string, str_chars};
use crate::slug::{slug_of, slugify_chars};
use crate::text::{find_at, find_from, lemma_find_at, match_at, occurs_at, push_all, sub_vec};
use vstd::prelude::*;

verus! {

/// A heading-level digit, `'1'` to `'6'`.
pub open spec fn is_h_digit(c: char) -> bool {
    49 <= c as u32 <= 54
}

/// A closing heading tag `</hN>` stands at `e`.
pub open spec fn close_at(s: Seq<char>, e: int) -> bool {
    0 <= e && e + 5 <= s.len() && s[e] == '<' && s[e + 1] == '/' && s[e + 2] == 'h' && is_h_digit(
        s[e + 3],
    ) && s[e + 4] == '>'
}

/// Where the heading title that starts at `c0` ends: the first closing
/// heading tag, provided no line break comes first.
pub open spec fn title_end(s: Seq<char>, c0: int) -> Option<int>
    decreases s.len() - c0,
{
    if c0 < 0 || c0 + 5 > s.len() {
        None
    } else if close_at(s, c0) {
        Some(c0)
    } else if s[c0] == '\n' {
        None
    } else {
        title_end(s, c0 + 1)
    }
}

/// An anchor element `<a ... href="..." ...></a>` standing at `a0`: its
/// `href` value and the position just past the element. The `href` must
/// come before the end of the opening tag and its value must be non-empty.
pub open spec fn anchor_at(s: Seq<char>, a0: int) -> Option<(Seq<char>, int)> {
    if !occurs_at(s, "<a"@, a0) {
        None
    } else {
        match find_at(s, "href=\""@, a0 + 2) {
            None => None,
            Some(j) => match find_at(s, ">"@, a0 + 2) {
                None => None,
                Some(g2) => if g2 < j {
                    None
                } else {
                    match find_at(s, "\""@, j + "href=\""@.len()) {
                        None => None,
                        Some(q2) => if q2 == j + "href=\""@.len() {
                            None
                        } else {
                            match find_at(s, ">"@, q2 + 1) {
                                None => None,
                                Some(t) => if occurs_at(s, "</a>"@, t + 1) {
                                    Some((s.subrange(j + "href=\""@.len(), q2), t + 1 + "</a>"@.len()))
                                } else {
                                    None
                                },
                            }
                        },
                    }
                },
            },
        }
    }
}

/// The heading element standing at `i`, if any: its level, the `href` of
/// its opening anchor where one stands and fits, its title, and the
/// position just past the closing tag. A title never crosses a line break;
/// where an anchor stands but no closing tag follows it on the same line,
/// the element is read without the anchor.
pub open spec fn heading_match_at(s: Seq<char>, i: int) -> Option<
    (int, Option<Seq<char>>, Seq<char>, int),
> {
    if !(0 <= i && i + 3 <= s.len() && s[i] == '<' && s[i + 1] == 'h' && is_h_digit(s[i + 2])) {
        None
    } else {
        match find_at(s, ">"@, i + 3) {
            None => None,
            Some(g) => {
                let level = s[i + 2] as u32 - 48;
                match anchor_at(s, g + 1) {
                    Some(ae) => match title_end(s, ae.1) {
                        Some(e) => Some(
                            (level as int, Some(ae.0), s.subrange(ae.1, e), e + 5),
                        ),
                        None => plain_heading(s, g, level as int),
                    },
                    None => plain_heading(s, g, level as int),
                }
            },
        }
    }
}

/// A heading read without an anchor: the title runs from just past the
/// opening tag to the closing tag.
pub open spec fn plain_heading(s: Seq<char>, g: int, level: int) -> Option<
    (int, Option<Seq<char>>, Seq<char>, int),
> {
    match title_end(s, g + 1) {
        Some(e) => Some((level, None, s.subrange(g + 1, e), e + 5)),
        None => None,
    }
}

/// `n` repetitions of `tag`.
pub open spec fn repeat_tag(n: int, tag: Seq<char>) -> Seq<char>
    decreases n,
{
    if n <= 0 {
        Seq::empty()
    } else {
        tag + repeat_tag(n - 1, tag)
    }
}

proof fn lemma_repeat_snoc(n: int, tag: Seq<char>)
    requires
        n >= 0,
    ensures
        repeat_tag(n + 1, tag) == repeat_tag(n, tag) + tag,
    decreases n,
{
    if n == 0 {
        assert(repeat_tag(1, tag) =~= repeat_tag(0, tag) + tag);
    } else {
        lemma_repeat_snoc(n - 1, tag);
        assert(repeat_tag(n + 1, tag) =~= repeat_tag(n, tag) + tag);
    }
}

/// The list nesting emitted between a heading of level `last` and one of
/// level `level`: lists opened going deeper, closed coming up.
pub open spec fn level_shift(last: int, level: int) -> Seq<char> {
    if level > last {
        repeat_tag(level - last, "<ul>\n"@)
    } else {
        repeat_tag(last - level, "</ul>\n"@)
    }
}

/// One list item: the heading's anchor `href` where it had one, else a
/// slug made from the title.
pub open spec fn li_line(slug: Option<Seq<char>>, title: Seq<char>) -> Seq<char> {
    "<li><a href=\""@ + (match slug {
        Some(h) => h,
        None => "#"@ + slug_of(title),
    }) + "\">"@ + title + "</a></li>\n"@
}

/// The table of contents built from the headings of `s` at or after `i`,
/// with `last` lists currently open.
pub open spec fn toc_from(s: Seq<char>, i: int, last: int) -> Seq<char>
    decreases s.len() - i,
{
    if i < 0 || i >= s.len() {
        repeat_tag(last, "</ul>\n"@)
    } else {
        match heading_match_at(s, i) {
            Some(m) => if i < m.3 <= s.len() {
                level_shift(last, m.0) + li_line(m.1, m.2) + toc_from(s, m.3, m.0)
            } else {
                toc_from(s, i + 1, last)
            },
            None => toc_from(s, i + 1, last),
        }
    }
}

/// The table of contents of a rendered document.
pub open spec fn toc_of(s: Seq<char>) -> Seq<char> {
    toc_from(s, 0, 0)
}

fn is_h_digit_exec(c: char) -> (b: bool)
    ensures
        b == is_h_digit(c),
{
    let u = c as u32;
    49 <= u && u <= 54
}

/// Finds the end of the heading title that starts at `c0`.
fn find_title_end(v: &Vec<char>, c0: usize) -> (r: Option<usize>)
    requires
        c0 <= v.len(),
    ensures
        match r {
            Some(e) => title_end(v@, c0 as int) == Some(e as int) && close_at(v@, e as int)
                && c0 <= e,
            None => title_end(v@, c0 as int) is None,
        },
{
    let mut i: usize = c0;
    while 5 <= v.len() - i
        invariant
            c0 <= i <= v.len(),
            title_end(v@, c0 as int) == title_end(v@, i as int),
        decreases v.len() - i,
    {
        if v[i] == '<' && v[i + 1] == '/' && v[i + 2] == 'h' && is_h_digit_exec(v[i + 3]) && v[i
            + 4] == '>' {
            return Some(i);
        }
        if v[i] == '\n' {
            return None;
        }
        i = i + 1;
    }
    None
}

/// Reads the anchor element standing at `a0`, if one stands there whole.
fn read_anchor(v: &Vec<char>, a0: usize) -> (r: Option<(Vec<char>, usize)>)
    requires
        a0 <= v.len(),
    ensures
        match r {
            Some(p) => anchor_at(v@, a0 as int) matches Some(q) && p.0@ == q.0 && p.1 == q.1
                && a0 < p.1 <= v.len(),
            None => anchor_at(v@, a0 as int) is None,
        },
{
    proof {
        reveal_strlit("<a");
        reveal_strlit("href=\"");
        reveal_strlit(">");
        reveal_strlit("\"");
        reveal_strlit("</a>");
    }
    let apat = str_chars("<a");
    let hpat = str_chars("href=\"");
    let gpat = str_chars(">");
    let qpat = str_chars("\"");
    let cpat = str_chars("</a>");
    if !match_at(v, &apat, a0) {
        return None;
    }
    if a0 + 2 > v.len() {
        proof {
            assert(!occurs_at(v@, "<a"@, a0 as int));
        }
        return None;
    }
    let j = match find_from(v, &hpat, a0 + 2) {
        Some(j) => j,
        None => {
            return None;
        },
    };
    let g2 = match find_from(v, &gpat, a0 + 2) {
        Some(g2) => g2,
        None => {
            return None;
        },
    };
    if g2 < j {
        return None;
    }
    proof {
        lemma_find_at(v@, hpat@, a0 + 2);
    }
    let q2 = match find_from(v, &qpat, j + 6) {
        Some(q2) => q2,
        None => {
            return None;
        },
    };
    if q2 == j + 6 {
        return None;
    }
    proof {
        lemma_find_at(v@, qpat@, j + 6);
    }
    let t = match find_from(v, &gpat, q2 + 1) {
        Some(t) => t,
        None => {
            return None;
        },
    };
    proof {
        lemma_find_at(v@, gpat@, q2 + 1);
    }
    if t + 1 > v.len() {
        return None;
    }
    if !match_at(v, &cpat, t + 1) {
        return None;
    }
    let h = sub_vec(v, j + 6, q2);
    Some((h, t + 5))
}

/// Reads the heading element standing at `i`, if any.
fn read_heading(v: &Vec<char>, i: usize) -> (r: Option<(usize, Option<Vec<char>>, Vec<char>, usize)>)
    requires
        i < v.len(),
    ensures
        match r {
            Some(m) => heading_match_at(v@, i as int) matches Some(sm) && m.0 == sm.0 && (match m
                .1 {
                Some(h) => sm.1 == Some(h@),
                None => sm.1 is None,
            }) && m.2@ == sm.2 && m.3 == sm.3 && i < m.3 <= v.len(),
            None => heading_match_at(v@, i as int) is None,
        },
{
    proof {
        reveal_strlit(">");
    }
    let gpat = str_chars(">");
    if v.len() - i < 3 || !(v[i] == '<' && v[i + 1] == 'h' && is_h_digit_exec(v[i + 2])) {
        return None;
    }
    let level = (v[i + 2] as u32 - 48) as usize;
    let g = match find_from(v, &gpat, i + 3) {
        Some(g) => g,
        None => {
            return None;
        },
    };
    proof {
        lemma_find_at(v@, gpat@, i + 3);
    }
    match read_anchor(v, g + 1) {
        Some((h, aend)) => match find_title_end(v, aend) {
            Some(e) => {
                let title = sub_vec(v, aend, e);
                Some((level, Some(h), title, e + 5))
            }
            None => read_plain(v, i, g, level),
        },
        None => read_plain(v, i, g, level),
    }
}

/// Reads a heading without an anchor: title from just past the opening tag.
fn read_plain(v: &Vec<char>, i: usize, g: usize, level: usize) -> (r: Option<
    (usize, Option<Vec<char>>, Vec<char>, usize),
>)
    requires
        i < g + 1 <= v.len(),
        1 <= level <= 6,
    ensures
        match r {
            Some(m) => plain_heading(v@, g as int, level as int) matches Some(sm) && m.0 == sm.0
                && sm.1 is None && m.1 is None && m.2@ == sm.2 && m.3 == sm.3 && i < m.3 <= v.len(),
            None => plain_heading(v@, g as int, level as int) is None,
        },
{
    match find_title_end(v, g + 1) {
        Some(e) => {
            let title = sub_vec(v, g + 1, e);
            Some((level, None, title, e + 5))
        }
        None => None,
    }
}

/// Appends `n` repetitions of `tag` onto `out`.
fn push_repeat(out: &mut Vec<char>, tag: &Vec<char>, n: usize)
    ensures
        final(out)@ == old(out)@ + repeat_tag(n as int, tag@),
{
    let mut k: usize = 0;
    proof {
        assert(old(out)@ + repeat_tag(0, tag@) =~= old(out)@);
    }
    while k < n
        invariant
            k <= n,
            out@ == old(out)@ + repeat_tag(k as int, tag@),
        decreases n - k,
    {
        push_all(out, tag);
        proof {
            lemma_repeat_snoc(k as int, tag@);
            assert(old(out)@ + (repeat_tag(k as int, tag@) + tag@) =~= (old(out)@ + repeat_tag(
                k as int,
                tag@,
            )) + tag@);
        }
        k = k + 1;
    }
}

/// Derives a table of contents from the headings of rendered HTML: one
/// `<li>` per heading, `<ul>` nesting following the heading levels, all
/// lists closed at the end; empty when there is no heading.
#[verifier::rlimit(60)]
pub fn get_table_of_contents_from_html(html: &str) -> (r: String)
    ensures
        r@ == toc_of(html@),
{
    proof {
        reveal_strlit("<ul>\n");
        reveal_strlit("</ul>\n");
        reveal_strlit("<li><a href=\"");
        reveal_strlit("\">");
        reveal_strlit("</a></li>\n");
        reveal_strlit("#");
    }
    let v = str_chars(html);
    let opener = str_chars("<ul>\n");
    let closer = str_chars("</ul>\n");
    let li_open = str_chars("<li><a href=\"");
    let li_mid = str_chars("\">");
    let li_close = str_chars("</a></li>\n");
    let mut out: Vec<char> = Vec::new();
    let mut i: usize = 0;
    let mut last: usize = 0;
    proof {
        assert(out@ + toc_from(v@, 0, 0) =~= toc_from(v@, 0, 0));
    }
    while i < v.len()
        invariant
            i <= v.len(),
            v@ == html@,
            opener@ == "<ul>\n"@,
            closer@ == "</ul>\n"@,
            li_open@ == "<li><a href=\""@,
            li_mid@ == "\">"@,
            li_close@ == "</a></li>\n"@,
            toc_of(html@) == out@ + toc_from(v@, i as int, last as int),
        decreases v.len() - i,
    {
        match read_heading(&v, i) {
            Some((level, slug, title, end)) => {
                let ghost pre = out@;
                if level > last {
                    push_repeat(&mut out, &opener, level - last);
                } else {
                    push_repeat(&mut out, &closer, last - level);
                }
                proof {
                    assert(out@ == pre + level_shift(last as int, level as int));
                }
                push_all(&mut out, &li_open);
                match &slug {
                    Some(h) => {
                        push_all(&mut out, h);
                    }
                    None => {
                        out.push('#');
                        let sl = slugify_chars(&title);
                        push_all(&mut out, &sl);
                        proof {
                            assert(pre + level_shift(last as int, level as int) + li_open@ + (
                            seq!['#'] + slug_of(title@)) =~= out@);
                        }
                    }
                }
                let ghost slug_spec: Seq<char> = match slug {
                    Some(h) => h@,
                    None => "#"@ + slug_of(title@),
                };
                proof {
                    reveal_strlit("#");
                    assert("#"@ =~= seq!['#']);
                    assert(out@ == pre + level_shift(last as int, level as int) + li_open@
                        + slug_spec);
                }
                push_all(&mut out, &li_mid);
                push_all(&mut out, &title);
                push_all(&mut out, &li_close);
                proof {
                    assert(out@ =~= pre + (level_shift(last as int, level as int) + li_line(
                        heading_match_at(v@, i as int)->Some_0.1,
                        title@,
                    )));
                }
                last = level;
                i = end;
            }
            None => {
                i = i + 1;
            }
        }
    }
    push_repeat(&mut out, &closer, last);
    proof {
        assert(out@ =~= toc_of(html@));
    }
    chars_string(&out)
}

} // verus!

//! Extraction of internal links from rendered HTML: every `href` attribute
//! value that names an `.html` page (optionally with a `#heading` part) and
//! is not an external link yields one entry.
use crate::outside::{chars_string, str_chars};
use crate::text::{
    find_at, find_from, is_prefix, is_suffix, lemma_find_at, match_at, occurs_at, starts_with,
    sub_vec, trim_leading, trim_leading_vec,
};
use vstd::prelude::*;

verus! {

/// The largest index `j <= i` at which `p` occurs in `s`, if any.
pub open spec fn last_at(s: Seq<char>, p: Seq<char>, i: int) -> Option<int>
    decreases i + 1,
{
    if i < 0 {
        None
    } else if occurs_at(s, p, i) {
        Some(i)
    } else {
        last_at(s, p, i - 1)
    }
}

/// The largest index `j <= from` at which `p` occurs in `v`, if any.
pub fn rfind_upto(v: &Vec<char>, p: &Vec<char>, from: usize) -> (r: Option<usize>)
    requires
        from < v.len(),
    ensures
        match r {
            Some(j) => j <= from && occurs_at(v@, p@, j as int) && last_at(v@, p@, from as int)
                == Some(j as int),
            None => last_at(v@, p@, from as int) is None,
        },
{
    let mut i: usize = from;
    loop
        invariant
            i <= from < v.len(),
            last_at(v@, p@, from as int) == last_at(v@, p@, i as int),
        decreases i,
    {
        if match_at(v, p, i) {
            return Some(i);
        }
        if i == 0 {
            proof {
                reveal_with_fuel(last_at, 2);
            }
            return None;
        }
        i = i - 1;
    }
}

/// How the quote-free attribute value `c` splits under the internal-link
/// pattern: the page part before a final `.html`, and the heading part
/// (`#...`, possibly absent), chosen so that the page part is as long as
/// possible; `None` where `c` does not fit the pattern.
pub open spec fn link_content_split(c: Seq<char>) -> Option<(Seq<char>, Seq<char>)> {
    if c.len() > ".html"@.len() && is_suffix(".html"@, c) {
        Some((c.take(c.len() - ".html"@.len()), Seq::<char>::empty()))
    } else {
        match last_at(c, ".html#"@, c.len() - ".html#"@.len() - 1) {
            Some(j) => if j >= 1 {
                Some((c.take(j), c.skip(j + ".html"@.len())))
            } else {
                None
            },
            None => None,
        }
    }
}

/// The internal links found in `s` from position `i` on: at each `href="`
/// the value runs to the next quote; a value fitting the internal-link
/// pattern whose page part does not start with `http` yields the page part
/// (leading `./` repetitions dropped) joined with the heading part.
pub open spec fn links_from(s: Seq<char>, i: int) -> Seq<Seq<char>>
    decreases s.len() - i,
{
    if i < 0 || i >= s.len() || i + "href=\""@.len() > s.len() {
        Seq::empty()
    } else if occurs_at(s, "href=\""@, i) {
        match find_at(s, "\""@, i + "href=\""@.len()) {
            Some(q) => if i + "href=\""@.len() <= q && q < s.len() {
                match link_content_split(s.subrange(i + "href=\""@.len(), q)) {
                    Some(xh) => {
                        let entry = trim_leading(xh.0, "./"@) + xh.1;
                        if is_prefix("http"@, xh.0) {
                            links_from(s, q + 1)
                        } else {
                            seq![entry] + links_from(s, q + 1)
                        }
                    },
                    None => links_from(s, i + 1),
                }
            } else {
                links_from(s, i + 1)
            },
            None => links_from(s, i + 1),
        }
    } else {
        links_from(s, i + 1)
    }
}

/// Splits an attribute value under the internal-link pattern.
fn split_content(c: &Vec<char>) -> (r: Option<(Vec<char>, Vec<char>)>)
    ensures
        match r {
            Some(p) => link_content_split(c@) matches Some(q) && p.0@ == q.0 && p.1@ == q.1,
            None => link_content_split(c@) is None,
        },
{
    proof {
        reveal_strlit(".html");
        reveal_strlit(".html#");
    }
    let html_pat = str_chars(".html");
    let hash_pat = str_chars(".html#");
    if c.len() > html_pat.len() && crate::text::ends_with(c, &html_pat) {
        let x = sub_vec(c, 0, c.len() - html_pat.len());
        let h: Vec<char> = Vec::new();
        proof {
            assert(h@ =~= Seq::<char>::empty());
            assert(c@.subrange(0, c@.len() - html_pat@.len()) =~= c@.take(
                c@.len() - ".html"@.len(),
            ));
        }
        Some((x, h))
    } else {
        if c.len() < hash_pat.len() + 1 {
            return None;
        }
        match rfind_upto(c, &hash_pat, c.len() - hash_pat.len() - 1) {
            Some(j) => if j >= 1 {
                proof {
                    assert(c@.subrange(0, j as int) =~= c@.take(j as int));
                    assert(c@.subrange(j + html_pat@.len(), c@.len() as int) =~= c@.skip(
                        j + ".html"@.len(),
                    ));
                }
                Some((sub_vec(c, 0, j), sub_vec(c, j + html_pat.len(), c.len())))
            } else {
                None
            },
            None => None,
        }
    }
}

/// Extracts from rendered HTML all internal links that point to an `.html`
/// page, each as `page` or `page#heading` with any leading `./` dropped;
/// `None` when there are none.
pub fn get_links_to(html: &str) -> (r: Option<Vec<String>>)
    ensures
        ({
            let ls = links_from(html@, 0);
            match r {
                Some(v) => ls.len() > 0 && v@.len() == ls.len() && forall|k: int|
                    0 <= k < ls.len() ==> v@[k]@ == ls[k],
                None => ls.len() == 0,
            }
        }),
{
    proof {
        reveal_strlit("./");
        reveal_strlit("\"");
        reveal_strlit("href=\"");
    }
    let v = str_chars(html);
    let hpat = str_chars("href=\"");
    let qpat = str_chars("\"");
    let dotslash = str_chars("./");
    let mut result: Vec<String> = Vec::new();
    let ghost mut done: Seq<Seq<char>> = Seq::empty();
    let mut i: usize = 0;
    proof {
        assert(done + links_from(v@, 0) =~= links_from(v@, 0));
    }
    while hpat.len() <= v.len() - i
        invariant
            i <= v.len(),
            hpat@ == "href=\""@,
            hpat@.len() == 6,
            qpat@ == "\""@,
            qpat@.len() == 1,
            dotslash@ == "./"@,
            dotslash@.len() == 2,
            v@ == html@,
            done.len() == result@.len(),
            forall|k: int| 0 <= k < done.len() ==> result@[k]@ == done[k],
            links_from(html@, 0) == done + links_from(v@, i as int),
        decreases v.len() - i,
    {
        if match_at(&v, &hpat, i) {
            proof {
                lemma_find_at(v@, qpat@, i + hpat@.len());
            }
            match find_from(&v, &qpat, i + hpat.len()) {
                Some(q) => {
                    let c = sub_vec(&v, i + hpat.len(), q);
                    match split_content(&c) {
                        Some((x, h)) => {
                            if starts_with(&x, &str_chars("http")) {
                            } else {
                                let mut entry = trim_leading_vec(&x, &dotslash);
                                crate::text::push_all(&mut entry, &h);
                                let ghost e = entry@;
                                result.push(chars_string(&entry));
                                proof {
                                    assert((done + (seq![e] + links_from(v@, q + 1))) =~= ((done
                                        + seq![e]) + links_from(v@, q + 1)));
                                    done = done + seq![e];
                                }
                            }
                            i = q + 1;
                        }
                        None => {
                            i = i + 1;
                        }
                    }
                }
                None => {
                    i = i + 1;
                }
            }
        } else {
            i = i + 1;
        }
    }
    proof {
        assert(links_from(v@, i as int) =~= Seq::<Seq<char>>::empty());
        assert(done + links_from(v@, i as int) =~= done);
    }
    if result.len() == 0 {
        None
    } else {
        Some(result)
    }
}

} // verus!

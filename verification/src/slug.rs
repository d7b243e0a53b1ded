//! Slugs for heading anchors and link paths: ASCII letters are lowered,
//! digits kept, every other character becomes a hyphen; hyphen runs are
//! collapsed and hyphens at the ends dropped.
use crate::outside::{chars_string, str_chars};
use crate::text::{trim_leading, trim_leading_vec, trim_trailing, trim_trailing_vec};
use vstd::prelude::*;

verus! {

/// How a single character appears in a slug: ASCII lowercase letters and
/// digits stand, ASCII uppercase letters are lowered, anything else is a
/// hyphen.
pub open spec fn slug_char(c: char) -> char {
    if (97 <= c as u32 && c as u32 <= 122) || (48 <= c as u32 && c as u32 <= 57) {
        c
    } else if 65 <= c as u32 && c as u32 <= 90 {
        ((c as u32 + 32) as u8) as char
    } else {
        '-'
    }
}

/// Runs of hyphens shortened to a single hyphen.
pub open spec fn collapse_dashes(s: Seq<char>) -> Seq<char>
    decreases s.len(),
{
    if s.len() == 0 {
        s
    } else if s.len() >= 2 && s[0] == '-' && s[1] == '-' {
        collapse_dashes(s.drop_first())
    } else {
        seq![s[0]] + collapse_dashes(s.drop_first())
    }
}

/// The slug of a text: characters mapped by `slug_char`, hyphen runs
/// collapsed, hyphens at both ends removed.
pub open spec fn slug_of(s: Seq<char>) -> Seq<char> {
    trim_trailing(trim_leading(collapse_dashes(s.map_values(|c: char| slug_char(c))), "-"@), "-"@)
}

fn slug_char_exec(c: char) -> (r: char)
    ensures
        r == slug_char(c),
{
    let u = c as u32;
    if (97 <= u && u <= 122) || (48 <= u && u <= 57) {
        c
    } else if 65 <= u && u <= 90 {
        ((u + 32) as u8) as char
    } else {
        '-'
    }
}

/// The slug of `v`, over character vectors.
pub fn slugify_chars(v: &Vec<char>) -> (r: Vec<char>)
    ensures
        r@ == slug_of(v@),
{
    let mut mapped: Vec<char> = Vec::new();
    let mut i: usize = 0;
    while i < v.len()
        invariant
            i <= v.len(),
            mapped@.len() == i,
            forall|k: int| 0 <= k < i ==> mapped@[k] == slug_char(v@[k]),
        decreases v.len() - i,
    {
        mapped.push(slug_char_exec(v[i]));
        i = i + 1;
    }
    proof {
        assert(mapped@ =~= v@.map_values(|c: char| slug_char(c)));
    }
    let mut out: Vec<char> = Vec::new();
    let mut j: usize = 0;
    proof {
        assert(mapped@.skip(0) =~= mapped@);
    }
    while j < mapped.len()
        invariant
            j <= mapped.len(),
            collapse_dashes(mapped@) == out@ + collapse_dashes(mapped@.skip(j as int)),
        decreases mapped.len() - j,
    {
        proof {
            assert(mapped@.skip(j as int).drop_first() =~= mapped@.skip(j + 1));
        }
        if j + 1 < mapped.len() && mapped[j] == '-' && mapped[j + 1] == '-' {
        } else {
            let ghost pre = out@;
            out.push(mapped[j]);
            proof {
                assert(out@ + collapse_dashes(mapped@.skip(j + 1)) =~= pre + (seq![
                    mapped@[j as int],
                ] + collapse_dashes(mapped@.skip(j + 1))));
            }
        }
        j = j + 1;
    }
    proof {
        reveal_strlit("-");
    }
    let dash = str_chars("-");
    let t = trim_leading_vec(&out, &dash);
    trim_trailing_vec(&t, &dash)
}

/// The slug of a text.
pub fn slugify(text: &str) -> (r: String)
    ensures
        r@ == slug_of(text@),
{
    let v = str_chars(text);
    let s = slugify_chars(&v);
    chars_string(&s)
}

} // verus!

//! Content-type classification.
//!
//! A served file is classified by its extension: exactly `html`
//! (case-sensitive) is served as `text/html`, everything else — another
//! extension or none at all — as `text/plain`.

use crate::request::str_chars;
use vstd::prelude::*;

verus! {

/// The server's two-way classification of content, driving the
/// `Content-Type` header (`text/html` or `text/plain`).
#[derive(Clone, Copy, PartialEq, Eq, Structural, Debug)]
pub enum ContentTag {
    Html,
    Plain,
}

/// The greatest index of `c` in `s`, or `-1` when `s` does not contain it.
pub open spec fn last_pos(s: Seq<char>, c: char) -> int
    decreases s.len(),
{
    if s.len() == 0 {
        -1
    } else if s[s.len() - 1] == c {
        s.len() - 1
    } else {
        last_pos(s.drop_last(), c)
    }
}

/// The file extension of `path`: what follows the last `.`, provided that
/// dot lies inside the final path component and is not its first
/// character. A name without such a dot has no extension.
pub open spec fn ext_of(path: Seq<char>) -> Option<Seq<char>> {
    let d = last_pos(path, '.');
    if d > last_pos(path, '/') + 1 {
        Some(path.subrange(d + 1, path.len() as int))
    } else {
        None
    }
}

/// The `html` extension.
pub open spec fn html_ext() -> Seq<char> {
    seq!['h', 't', 'm', 'l']
}

/// The content tag of a file path: `Html` exactly when the extension is
/// `html`, else `Plain`.
pub open spec fn tag_of(path: Seq<char>) -> ContentTag {
    if ext_of(path) == Some(html_ext()) {
        ContentTag::Html
    } else {
        ContentTag::Plain
    }
}

/// The greatest index of `c` in `v`, if any.
fn find_last(v: &Vec<char>, c: char) -> (r: Option<usize>)
    ensures
        match r {
            Some(i) => i < v.len() && last_pos(v@, c) == i as int,
            None => last_pos(v@, c) == -1,
        },
{
    let mut k = v.len();
    proof {
        assert(v@.take(v.len() as int) =~= v@);
    }
    while k > 0
        invariant
            k <= v.len(),
            last_pos(v@, c) == last_pos(v@.take(k as int), c),
        decreases k,
    {
        k = k - 1;
        if v[k] == c {
            proof {
                assert(v@.take(k + 1)[k as int] == v@[k as int]);
            }
            return Some(k);
        }
        proof {
            assert(v@.take(k + 1).drop_last() =~= v@.take(k as int));
            assert(v@.take(k + 1)[k as int] == v@[k as int]);
        }
    }
    proof {
        assert(v@.take(0).len() == 0);
    }
    None
}

/// Classifies a file path for the `Content-Type` header.
pub fn content_tag(path: &str) -> (t: ContentTag)
    ensures
        t == tag_of(path@),
{
    let v = str_chars(path);
    let n = v.len();
    let dot = find_last(&v, '.');
    let slash = find_last(&v, '/');
    let d: usize = match dot {
        None => {
            return ContentTag::Plain;
        },
        Some(d) => d,
    };
    let dot_in_name: bool = match slash {
        None => d >= 1,
        Some(s) => d > s && d - s >= 2,
    };
    if !dot_in_name {
        return ContentTag::Plain;
    }
    if n - d == 5 && v[d + 1] == 'h' && v[d + 2] == 't' && v[d + 3] == 'm' && v[d + 4] == 'l' {
        proof {
            assert(path@.subrange(d + 1, n as int) =~= html_ext());
        }
        ContentTag::Html
    } else {
        proof {
            let ext = path@.subrange(d + 1, n as int);
            if ext == html_ext() {
                assert(ext.len() == 4);
                assert(ext[0] == 'h' && ext[1] == 't' && ext[2] == 'm' && ext[3] == 'l');
                assert(v@[d + 1] == 'h' && v@[d + 2] == 't' && v@[d + 3] == 'm' && v@[d + 4]
                    == 'l');
            }
        }
        ContentTag::Plain
    }
}

} // verus!

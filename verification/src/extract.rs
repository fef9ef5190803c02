//! Streaming fragment extractor: pulls every well-formed sub-document
//! rooted at a named tag out of a larger XML document in one forward
//! pass, tracking the nesting depth of same-named tags so that an
//! inner occurrence does not terminate a fragment early. Each captured
//! slice is re-wrapped with a synthetic root element of the tag name.
use vstd::prelude::*;

use crate::strutil::{chars_of, match_at, string_of};
use vstd::slice::slice_subrange;

verus! {

/// Whether a start tag of `tag` opens at position `i` of `s`: a `<`,
/// the tag name, and then either `>` or a space beginning attributes.
pub open spec fn is_open_at(s: Seq<char>, tag: Seq<char>, i: int) -> bool {
    &&& 0 <= i
    &&& i + tag.len() + 2 <= s.len()
    &&& s[i] == '<'
    &&& s.subrange(i + 1, i + 1 + tag.len()) == tag
    &&& (s[i + 1 + tag.len()] == '>' || s[i + 1 + tag.len()] == ' ')
}

/// Whether the end tag of `tag` stands at position `i` of `s`.
pub open spec fn is_close_at(s: Seq<char>, tag: Seq<char>, i: int) -> bool {
    &&& 0 <= i
    &&& i + tag.len() + 3 <= s.len()
    &&& s[i] == '<'
    &&& s[i + 1] == '/'
    &&& s.subrange(i + 2, i + 2 + tag.len()) == tag
    &&& s[i + 2 + tag.len()] == '>'
}

/// `content` re-wrapped with a synthetic root element named `tag`.
pub open spec fn wrap(tag: Seq<char>, content: Seq<char>) -> Seq<char> {
    "<"@ + tag + ">"@ + content + "</"@ + tag + ">"@
}

/// The fragments that the forward pass yields from state `(i, intag,
/// depth, cs)` on: `intag` while scanning a start tag's attribute
/// region, `depth` open same-named tags, `cs` where the current
/// capture began. `None` when the document is malformed with respect
/// to `tag`: a stray end tag at depth zero, or an unterminated tag or
/// capture at the end of input.
pub open spec fn scan_frags(
    s: Seq<char>,
    tag: Seq<char>,
    i: int,
    intag: bool,
    depth: nat,
    cs: int,
) -> Option<Seq<Seq<char>>>
    decreases s.len() - i,
    when 0 <= i <= s.len() && tag.len() > 0
{
    if i >= s.len() {
        if !intag && depth == 0 {
            Some(Seq::empty())
        } else {
            None
        }
    } else if intag {
        if s[i] == '>' {
            if depth == 1 {
                scan_frags(s, tag, i + 1, false, depth, i + 1)
            } else {
                scan_frags(s, tag, i + 1, false, depth, cs)
            }
        } else {
            scan_frags(s, tag, i + 1, true, depth, cs)
        }
    } else if depth == 0 {
        if is_open_at(s, tag, i) {
            scan_frags(s, tag, i + 1 + tag.len(), true, 1, cs)
        } else if is_close_at(s, tag, i) {
            None
        } else {
            scan_frags(s, tag, i + 1, false, 0, cs)
        }
    } else {
        if is_close_at(s, tag, i) {
            if depth == 1 {
                match scan_frags(s, tag, i + tag.len() + 3, false, 0, cs) {
                    None => None,
                    Some(rest) => Some(seq![wrap(tag, s.subrange(cs, i))] + rest),
                }
            } else {
                scan_frags(s, tag, i + tag.len() + 3, false, (depth - 1) as nat, cs)
            }
        } else if is_open_at(s, tag, i) {
            scan_frags(s, tag, i + 1 + tag.len(), true, depth + 1, cs)
        } else {
            scan_frags(s, tag, i + 1, false, depth, cs)
        }
    }
}

/// The fragment sequence extracted from `s` for `tag`, or `None` when
/// `s` is malformed with respect to `tag`.
pub open spec fn fragments_of(s: Seq<char>, tag: Seq<char>) -> Option<Seq<Seq<char>>> {
    scan_frags(s, tag, 0, false, 0, 0)
}

/// `pre` prepended to a scan result that may have failed.
pub open spec fn compose(pre: Seq<Seq<char>>, rest: Option<Seq<Seq<char>>>) -> Option<
    Seq<Seq<char>>,
> {
    match rest {
        None => None,
        Some(r) => Some(pre + r),
    }
}

/// Whether a start tag of `tag` opens at position `i` of `v`.
pub fn open_tag_at(v: &Vec<char>, tag: &Vec<char>, i: usize) -> (b: bool)
    ensures
        b == is_open_at(v@, tag@, i as int),
{
    let n: usize = v.len();
    let tlen: usize = tag.len();
    if i >= n {
        return false;
    }
    let avail: usize = n - i;
    if avail < 2 || avail - 2 < tlen {
        return false;
    }
    if v[i] != '<' {
        return false;
    }
    if !match_at(v, tag, i + 1) {
        return false;
    }
    let c = v[i + 1 + tlen];
    c == '>' || c == ' '
}

/// Whether the end tag of `tag` stands at position `i` of `v`.
pub fn close_tag_at(v: &Vec<char>, tag: &Vec<char>, i: usize) -> (b: bool)
    ensures
        b == is_close_at(v@, tag@, i as int),
{
    let n: usize = v.len();
    let tlen: usize = tag.len();
    if i >= n {
        return false;
    }
    let avail: usize = n - i;
    if avail < 3 || avail - 3 < tlen {
        return false;
    }
    if v[i] != '<' || v[i + 1] != '/' {
        return false;
    }
    if !match_at(v, tag, i + 2) {
        return false;
    }
    v[i + 2 + tlen] == '>'
}

/// Extracts every fragment rooted at `tag` from `content`, re-wrapped
/// as `<tag>…</tag>`, in document order; `None` when the document is
/// malformed with respect to `tag`.
pub fn extract_fragments(content: &str, tag: &str) -> (r: Option<Vec<String>>)
    requires
        tag@.len() > 0,
    ensures
        match r {
            Some(v) => fragments_of(content@, tag@) == Some(v.deep_view()),
            None => fragments_of(content@, tag@) is None,
        },
{
    let v = chars_of(content);
    let t = chars_of(tag);
    let n: usize = v.len();
    let tlen: usize = t.len();
    let mut out: Vec<String> = Vec::new();
    let mut i: usize = 0;
    let mut intag: bool = false;
    let mut depth: usize = 0;
    let mut cs: usize = 0;
    proof {
        assert(out.deep_view() =~= Seq::<Seq<char>>::empty());
        assert(compose(out.deep_view(), scan_frags(v@, t@, 0, false, 0, 0)) == fragments_of(
            content@,
            tag@,
        ));
    }
    while i < n
        invariant
            n == v@.len(),
            tlen == t@.len(),
            tlen > 0,
            v@ == content@,
            t@ == tag@,
            i <= n,
            depth <= i,
            cs <= i,
            fragments_of(content@, tag@) == compose(
                out.deep_view(),
                scan_frags(v@, t@, i as int, intag, depth as nat, cs as int),
            ),
        decreases n - i,
    {
        if intag {
            if v[i] == '>' {
                if depth == 1 {
                    cs = i + 1;
                }
                intag = false;
            }
            i += 1;
        } else if depth == 0 {
            if open_tag_at(&v, &t, i) {
                intag = true;
                depth = 1;
                i = i + 1 + tlen;
            } else if close_tag_at(&v, &t, i) {
                return None;
            } else {
                i += 1;
            }
        } else {
            if close_tag_at(&v, &t, i) {
                if depth == 1 {
                    let ghost pre = out.deep_view();
                    let mut frag = String::from_str("<");
                    frag.append(tag);
                    frag.append(">");
                    let body = string_of(slice_subrange(v.as_slice(), cs, i));
                    frag.append(body.as_str());
                    frag.append("</");
                    frag.append(tag);
                    frag.append(">");
                    proof {
                        assert(frag@ =~= wrap(t@, v@.subrange(cs as int, i as int)));
                    }
                    out.push(frag);
                    proof {
                        assert(out.deep_view() =~= pre.push(
                            wrap(t@, v@.subrange(cs as int, i as int)),
                        ));
                        if scan_frags(v@, t@, i + tlen + 3, false, 0, cs as int) is Some {
                            let rest = scan_frags(
                                v@,
                                t@,
                                i + tlen + 3,
                                false,
                                0,
                                cs as int,
                            )->Some_0;
                            assert(pre + (seq![
                                wrap(t@, v@.subrange(cs as int, i as int)),
                            ] + rest) =~= out.deep_view() + rest);
                        }
                    }
                    depth = 0;
                    i = i + tlen + 3;
                } else {
                    depth -= 1;
                    i = i + tlen + 3;
                }
            } else if open_tag_at(&v, &t, i) {
                intag = true;
                depth += 1;
                i = i + 1 + tlen;
            } else {
                i += 1;
            }
        }
    }
    if !intag && depth == 0 {
        proof {
            assert(out.deep_view() + Seq::<Seq<char>>::empty() =~= out.deep_view());
        }
        Some(out)
    } else {
        None
    }
}

} // verus!

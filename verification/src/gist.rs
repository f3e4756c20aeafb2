//! The gist URL normalizer.
//!
//! The hosting service exposes several equivalent URL shapes for one snippet;
//! only the raw-content form yields fetchable plain bytes.  The normalizer
//! strips a leading scheme, accepts exactly two hosts, and rewrites the two
//! accepted path shapes into the one canonical raw-content URL.

use vstd::prelude::*;

use crate::errors::SynthError;
use crate::text::{lemma_split_sep_len, prepend_first, split_sep, str_eq, str_prefix_eq};
use vstd::string::{StrSliceExecFns, StringExecFns};

verus! {

/// The reference with a leading `https://` or `http://` removed.
pub open spec fn strip_scheme(g: Seq<char>) -> Seq<char> {
    if g.len() >= 8 && g.subrange(0, 8) == "https://"@ {
        g.skip(8)
    } else if g.len() >= 7 && g.subrange(0, 7) == "http://"@ {
        g.skip(7)
    } else {
        g
    }
}

/// The path part of a scheme-less reference after an accepted gist host, or
/// `None` when the reference names no accepted host.
pub open spec fn gist_tail(g: Seq<char>) -> Option<Seq<char>> {
    if g.len() >= 16 && g.subrange(0, 16) == "gist.github.com/"@ {
        Some(g.skip(16))
    } else if g.len() >= 27 && g.subrange(0, 27) == "gist.githubusercontent.com/"@ {
        Some(g.skip(27))
    } else {
        None
    }
}

/// True when the reference names an accepted gist host.
pub open spec fn gist_domain_ok(g: Seq<char>) -> bool {
    gist_tail(strip_scheme(g)) is Some
}

/// The canonical raw-content URL of a gist reference: `owner/hash` and
/// `owner/hash/raw/file` are the accepted path shapes, tried in that order;
/// `None` when the domain is wrong or no shape matches.
pub open spec fn normalize_gist(g: Seq<char>) -> Option<Seq<char>> {
    match gist_tail(strip_scheme(g)) {
        None => None,
        Some(rest) => {
            let segs = split_sep(rest, '/');
            if segs.len() == 2 {
                Some(
                    "https://gist.githubusercontent.com/"@ + segs[0] + "/"@ + segs[1] + "/raw"@,
                )
            } else if segs.len() == 4 && segs[2] == "raw"@ {
                Some(
                    "https://gist.githubusercontent.com/"@ + segs[0] + "/"@ + segs[1] + "/raw/"@
                        + segs[3],
                )
            } else {
                None
            }
        },
    }
}

/// Splits a string at every occurrence of the separator character.
fn str_split_char(s: &str, sep: char) -> (r: Vec<String>)
    ensures
        r@.map_values(|x: String| x@) == split_sep(s@, sep),
{
    let n = s.unicode_len();
    let mut done: Vec<String> = Vec::new();
    let mut start: usize = 0;
    let mut i: usize = 0;
    proof {
        assert(s@.skip(0) =~= s@);
        assert(s@.subrange(0, 0) =~= Seq::<char>::empty());
    }
    while i < n
        invariant
            start <= i <= n,
            n == s@.len(),
            split_sep(s@, sep) =~= done@.map_values(|x: String| x@) + prepend_first(
                s@.subrange(start as int, i as int),
                split_sep(s@.skip(i as int), sep),
            ),
        decreases n - i,
    {
        let ghost tail = s@.skip(i as int);
        let ghost cur = s@.subrange(start as int, i as int);
        proof {
            assert(tail.len() > 0 && tail[0] == s@[i as int]);
            assert(tail.drop_first() =~= s@.skip(i + 1));
            lemma_split_sep_len(s@.skip(i + 1), sep);
        }
        let c = s.get_char(i);
        if c == sep {
            let ghost old_done = done@;
            let piece = s.substring_char(start, i).to_owned();
            done.push(piece);
            start = i + 1;
            proof {
                let segs = split_sep(s@.skip(i + 1), sep);
                assert(split_sep(tail, sep) == seq![Seq::<char>::empty()] + segs);
                assert(prepend_first(cur, seq![Seq::<char>::empty()] + segs) =~= seq![cur] + segs);
                assert(cur + Seq::<char>::empty() =~= cur);
                assert(piece@ == cur);
                assert(done@.map_values(|x: String| x@) =~= old_done.map_values(
                    |x: String| x@,
                ).push(cur));
                assert(s@.subrange(start as int, (i + 1) as int) =~= Seq::<char>::empty());
                assert(prepend_first(s@.subrange(start as int, (i + 1) as int), segs) =~= segs);
            }
        } else {
            proof {
                let segs = split_sep(s@.skip(i + 1), sep);
                assert(split_sep(tail, sep) == seq![seq![s@[i as int]] + segs[0]]
                    + segs.drop_first());
                assert(prepend_first(cur, split_sep(tail, sep)) =~= seq![cur + (seq![s@[i as int]]
                    + segs[0])] + segs.drop_first());
                assert(cur + (seq![s@[i as int]] + segs[0]) =~= s@.subrange(
                    start as int,
                    (i + 1) as int,
                ) + segs[0]);
                assert(prepend_first(s@.subrange(start as int, (i + 1) as int), segs) =~= seq![
                    s@.subrange(start as int, (i + 1) as int) + segs[0]] + segs.drop_first());
            }
        }
        i += 1;
    }
    proof {
        assert(s@.skip(i as int) =~= Seq::<char>::empty());
        assert(split_sep(Seq::<char>::empty(), sep) == seq![Seq::<char>::empty()]);
        let cur = s@.subrange(start as int, i as int);
        assert(prepend_first(cur, seq![Seq::<char>::empty()]) =~= seq![cur]);
        assert(cur + Seq::<char>::empty() =~= cur);
    }
    let ghost old_done = done@;
    let piece = s.substring_char(start, i).to_owned();
    done.push(piece);
    proof {
        assert(done@.map_values(|x: String| x@) =~= old_done.map_values(|x: String| x@).push(
            piece@,
        ));
    }
    done
}

/// Rewrites a gist reference into the canonical raw-content URL, exactly as
/// `normalize_gist` describes; any other reference is a `GistFormat` error.
pub fn normalize_gist_url(g: &str) -> (r: Result<String, SynthError>)
    ensures
        r is Ok <==> normalize_gist(g@) is Some,
        r matches Ok(u) ==> normalize_gist(g@) == Some(u@),
        r matches Err(e) ==> e is GistFormat,
{
    proof {
        reveal_strlit("https://");
        reveal_strlit("http://");
        reveal_strlit("gist.github.com/");
        reveal_strlit("gist.githubusercontent.com/");
    }
    let n = g.unicode_len();
    let after_scheme: &str = if str_prefix_eq(g, "https://") {
        g.substring_char(8, n)
    } else if str_prefix_eq(g, "http://") {
        g.substring_char(7, n)
    } else {
        g
    };
    proof {
        assert(after_scheme@ == strip_scheme(g@));
    }
    let m = after_scheme.unicode_len();
    let rest: &str = if str_prefix_eq(after_scheme, "gist.github.com/") {
        after_scheme.substring_char(16, m)
    } else if str_prefix_eq(after_scheme, "gist.githubusercontent.com/") {
        after_scheme.substring_char(27, m)
    } else {
        return Err(SynthError::GistFormat(String::from_str("unknown domain")));
    };
    proof {
        assert(gist_tail(strip_scheme(g@)) == Some(rest@));
    }
    let segs = str_split_char(rest, '/');
    let ghost gsegs = split_sep(rest@, '/');
    if segs.len() == 2 {
        let mut url = String::from_str("https://gist.githubusercontent.com/");
        url.append(segs[0].as_str());
        url.append("/");
        url.append(segs[1].as_str());
        url.append("/raw");
        proof {
            assert(url@ =~= "https://gist.githubusercontent.com/"@ + gsegs[0] + "/"@ + gsegs[1]
                + "/raw"@);
        }
        Ok(url)
    } else if segs.len() == 4 && str_eq(segs[2].as_str(), "raw") {
        let mut url = String::from_str("https://gist.githubusercontent.com/");
        url.append(segs[0].as_str());
        url.append("/");
        url.append(segs[1].as_str());
        url.append("/raw/");
        url.append(segs[3].as_str());
        proof {
            assert(url@ =~= "https://gist.githubusercontent.com/"@ + gsegs[0] + "/"@ + gsegs[1]
                + "/raw/"@ + gsegs[3]);
        }
        Ok(url)
    } else {
        Err(SynthError::GistFormat(String::from_str("unrecognized reference format")))
    }
}

} // verus!

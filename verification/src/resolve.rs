//! Module-specifier resolution.
//!
//! The loader recognizes `file://…` and `https://…` specifiers, a reserved
//! internal namespace rooted at `file://yasumu_internal/`, and the short
//! alias prefix `yasumu:` which is rewritten to the internal form before
//! resolution. Absolute specifiers of the two URL schemes are normalized:
//! dot segments leave the path, an empty path becomes the root, and an
//! `https://` reference without an authority is rejected. Relative
//! references (`/…`, `./…`, `../…`) resolve against the referrer by path
//! joining with dot-segment removal.

use vstd::prelude::*;
use crate::strutil::{find_char, lemma_find_char_bounds, rfind_char, str_concat,
    str_find_char_from, str_prefix_to, str_rfind_char, str_starts_with, str_suffix_from,
    views_of};

verus! {

/// Why a specifier failed to resolve.
#[derive(Debug, Clone, PartialEq, Eq, Structural)]
pub enum ResolutionError {
    /// The specifier is neither absolute nor a supported relative form.
    ImportPrefixMissing,
    /// A relative specifier was given, but the referrer is not an
    /// absolute specifier it could resolve against.
    InvalidBaseUrl,
    /// The specifier carries a known scheme but is not a well-formed
    /// absolute specifier (an `https://` reference with no authority).
    InvalidUrl,
}

/// The segments of `s`, split on `/`. A separator at either end or two
/// in a row yield empty segments.
pub open spec fn split_slash(s: Seq<char>) -> Seq<Seq<char>>
    decreases s.len(),
{
    match find_char(s, '/') {
        None => seq![s],
        Some(i) => if 0 <= i < s.len() {
            seq![s.take(i)] + split_slash(s.skip(i + 1))
        } else {
            seq![s]
        },
    }
}

/// One step of dot-segment removal: `.` is dropped, `..` pops the last
/// segment kept so far (or is dropped at the root), anything else is kept.
pub open spec fn normalize_step(acc: Seq<Seq<char>>, seg: Seq<char>) -> Seq<Seq<char>> {
    if seg == "."@ {
        acc
    } else if seg == ".."@ {
        if acc.len() > 0 {
            acc.drop_last()
        } else {
            acc
        }
    } else {
        acc.push(seg)
    }
}

/// The segments left after dot-segment removal, processed left to right.
pub open spec fn normalize_segs(segs: Seq<Seq<char>>) -> Seq<Seq<char>>
    decreases segs.len(),
{
    if segs.len() == 0 {
        Seq::empty()
    } else {
        normalize_step(normalize_segs(segs.drop_last()), segs.last())
    }
}

/// The segments joined back with `/` between them.
pub open spec fn join_slash(segs: Seq<Seq<char>>) -> Seq<char>
    decreases segs.len(),
{
    if segs.len() == 0 {
        Seq::empty()
    } else if segs.len() == 1 {
        segs[0]
    } else {
        join_slash(segs.drop_last()) + "/"@ + segs.last()
    }
}

/// Whether `c` may appear in a scheme name.
pub open spec fn is_scheme_char(c: char) -> bool {
    'a' <= c <= 'z'
}

/// Whether `s` begins with a scheme name followed by `:`.
pub open spec fn has_scheme(s: Seq<char>) -> bool {
    match find_char(s, ':') {
        Some(i) => i >= 1 && (forall|j: int| 0 <= j < i ==> is_scheme_char(s[j])),
        None => false,
    }
}

/// Whether `s` is one of the supported relative reference forms.
pub open spec fn is_relative_form(s: Seq<char>) -> bool {
    "/"@.is_prefix_of(s) || "./"@.is_prefix_of(s) || "../"@.is_prefix_of(s)
}

/// Whether `s` is an absolute specifier of one of the grammar's two
/// URL schemes; such specifiers are normalized, and serve as bases for
/// relative resolution.
pub open spec fn is_known_absolute(s: Seq<char>) -> bool {
    "file://"@.is_prefix_of(s) || "https://"@.is_prefix_of(s)
}

/// The length of the scheme marker of an absolute referrer.
pub open spec fn scheme_marker_len(s: Seq<char>) -> int {
    if "file://"@.is_prefix_of(s) {
        7
    } else {
        8
    }
}

/// Where the origin (scheme and authority) of an absolute referrer ends:
/// at the first `/` after the scheme marker, or at the end.
pub open spec fn origin_end(s: Seq<char>) -> int {
    match find_char(s.skip(scheme_marker_len(s)), '/') {
        Some(i) => scheme_marker_len(s) + i,
        None => s.len() as int,
    }
}

/// The origin (scheme and authority) of an absolute referrer.
pub open spec fn origin_of(s: Seq<char>) -> Seq<char> {
    s.take(origin_end(s))
}

/// The path of an absolute referrer: everything from the first `/` after
/// the scheme marker on, or empty.
pub open spec fn path_of(s: Seq<char>) -> Seq<char> {
    s.skip(origin_end(s))
}

/// The directory of a path: everything up to and including the last `/`,
/// or the root when the path has none.
pub open spec fn dir_of(p: Seq<char>) -> Seq<char> {
    match rfind_char(p, '/') {
        Some(i) => p.take(i + 1),
        None => "/"@,
    }
}

/// An absolute path (one starting with `/`) with its dot segments removed.
pub open spec fn normalized_abs_path(p: Seq<char>) -> Seq<char> {
    "/"@ + join_slash(normalize_segs(split_slash(p.skip(1))))
}

/// A relative specifier resolved against an absolute referrer.
pub open spec fn resolve_relative_spec(sp: Seq<char>, rf: Seq<char>) -> Seq<char> {
    let combined = if "/"@.is_prefix_of(sp) {
        sp
    } else {
        dir_of(path_of(rf)) + sp
    };
    origin_of(rf) + normalized_abs_path(combined)
}

/// An absolute `file://` or `https://` specifier, normalized: the
/// path's dot segments are removed, an empty path becomes the root, and
/// an `https://` specifier without an authority is rejected, as
/// standard resolution rejects it.
pub open spec fn normalize_absolute_spec(s: Seq<char>) -> Result<Seq<char>, ResolutionError> {
    if "https://"@.is_prefix_of(s) && origin_end(s) == scheme_marker_len(s) {
        Err(ResolutionError::InvalidUrl)
    } else {
        let path = path_of(s);
        let body = if path.len() == 0 {
            Seq::<char>::empty()
        } else {
            path.skip(1)
        };
        Ok(origin_of(s) + "/"@ + join_slash(normalize_segs(split_slash(body))))
    }
}

/// What `resolve` returns for a specifier and referrer: the alias prefix
/// `yasumu:` is rewritten to the internal namespace and normalized;
/// other `file://` and `https://` specifiers are normalized; specifiers
/// with a scheme outside the grammar pass through for the loader to
/// reject; relative forms resolve against the referrer; anything else
/// is malformed.
pub open spec fn resolve_spec(sp: Seq<char>, rf: Seq<char>) -> Result<Seq<char>, ResolutionError> {
    if "yasumu:"@.is_prefix_of(sp) {
        normalize_absolute_spec("file://yasumu_internal/"@ + sp)
    } else if is_known_absolute(sp) {
        normalize_absolute_spec(sp)
    } else if has_scheme(sp) {
        Ok(sp)
    } else if is_relative_form(sp) {
        if is_known_absolute(rf) {
            Ok(resolve_relative_spec(sp, rf))
        } else {
            Err(ResolutionError::InvalidBaseUrl)
        }
    } else {
        Err(ResolutionError::ImportPrefixMissing)
    }
}

/// Every split has at least one segment.
pub proof fn lemma_split_nonempty(s: Seq<char>)
    ensures
        split_slash(s).len() >= 1,
{
    match find_char(s, '/') {
        None => {},
        Some(i) => {},
    }
}

/// Joining after a leading segment prepends it and a separator.
pub proof fn lemma_join_cons(seg: Seq<char>, rest: Seq<Seq<char>>)
    requires
        rest.len() >= 1,
    ensures
        join_slash(seq![seg] + rest) == seg + "/"@ + join_slash(rest),
    decreases rest.len(),
{
    let whole = seq![seg] + rest;
    assert(whole.len() == rest.len() + 1);
    if rest.len() == 1 {
        assert(whole.drop_last() =~= seq![seg]);
        assert(whole.last() == rest[0]);
        assert(join_slash(whole) == join_slash(seq![seg]) + "/"@ + rest[0]);
        assert(join_slash(seq![seg]) == seg);
        assert(join_slash(rest) == rest[0]);
    } else {
        lemma_join_cons(seg, rest.drop_last());
        assert(whole.drop_last() =~= seq![seg] + rest.drop_last());
        assert(whole.last() == rest.last());
        assert(join_slash(whole) == join_slash(seq![seg] + rest.drop_last()) + "/"@
            + rest.last());
        assert(join_slash(whole) == seg + "/"@ + join_slash(rest.drop_last()) + "/"@
            + rest.last());
        assert(join_slash(rest) == join_slash(rest.drop_last()) + "/"@ + rest.last());
        assert(seg + "/"@ + join_slash(rest.drop_last()) + "/"@ + rest.last() =~= seg + "/"@ + (
        join_slash(rest.drop_last()) + "/"@ + rest.last()));
    }
}

/// Splitting on `/` and rejoining with `/` is the identity.
pub proof fn lemma_join_split(s: Seq<char>)
    ensures
        join_slash(split_slash(s)) == s,
    decreases s.len(),
{
    reveal_strlit("/");
    lemma_find_char_bounds(s, '/');
    match find_char(s, '/') {
        None => {},
        Some(i) => {
            let rest = split_slash(s.skip(i + 1));
            lemma_split_nonempty(s.skip(i + 1));
            lemma_join_cons(s.take(i), rest);
            lemma_join_split(s.skip(i + 1));
            assert(s.take(i) + "/"@ + s.skip(i + 1) =~= s);
        },
    }
}

/// Segments that are not dot segments normalize to themselves.
pub proof fn lemma_normalize_plain(segs: Seq<Seq<char>>)
    requires
        forall|i: int| 0 <= i < segs.len() ==> segs[i] != "."@ && segs[i] != ".."@,
    ensures
        normalize_segs(segs) == segs,
    decreases segs.len(),
{
    if segs.len() > 0 {
        assert forall|i: int|
            0 <= i < segs.drop_last().len() implies segs.drop_last()[i] != "."@
            && segs.drop_last()[i] != ".."@ by {
            assert(segs.drop_last()[i] == segs[i]);
        }
        lemma_normalize_plain(segs.drop_last());
        assert(segs[segs.len() - 1] != "."@ && segs[segs.len() - 1] != ".."@);
        assert(segs.drop_last().push(segs.last()) =~= segs);
    }
}

/// Splits `s` on `/`.
pub fn split_path(s: &str) -> (r: Vec<String>)
    ensures
        views_of(r@) == split_slash(s@),
{
    let s_len: usize = s.unicode_len();
    let mut segs: Vec<String> = Vec::new();
    let mut p: usize = 0;
    proof {
        assert(views_of(segs@) =~= Seq::<Seq<char>>::empty());
        assert(s@.skip(0) =~= s@);
    }
    loop
        invariant
            p <= s_len,
            s_len == s@.len(),
            split_slash(s@) =~= views_of(segs@) + split_slash(s@.skip(p as int)),
        decreases s_len - p,
    {
        match str_find_char_from(s, '/', p) {
            Some(j) => {
                let seg = s.substring_char(p, j).to_owned();
                proof {
                    let t = s@.skip(p as int);
                    assert(find_char(t, '/') == Some(j - p));
                    assert(t.take(j - p) =~= s@.subrange(p as int, j as int));
                    assert(t.skip(j - p + 1) =~= s@.skip(j + 1));
                    assert(views_of(segs@.push(seg)) =~= views_of(segs@).push(seg@));
                    assert(split_slash(s@) =~= views_of(segs@.push(seg)) + split_slash(
                        s@.skip(j + 1),
                    ));
                }
                segs.push(seg);
                p = j + 1;
            },
            None => {
                let seg = s.substring_char(p, s_len).to_owned();
                proof {
                    let t = s@.skip(p as int);
                    assert(find_char(t, '/') is None);
                    assert(split_slash(t) == seq![t]);
                    assert(t =~= s@.subrange(p as int, s_len as int));
                    assert(views_of(segs@.push(seg)) =~= views_of(segs@).push(seg@));
                    assert(split_slash(s@) =~= views_of(segs@.push(seg)));
                }
                segs.push(seg);
                return segs;
            },
        }
    }
}

/// Removes dot segments.
pub fn normalize_path_segments(segs: &Vec<String>) -> (r: Vec<String>)
    ensures
        views_of(r@) == normalize_segs(views_of(segs@)),
{
    let n = segs.len();
    let mut acc: Vec<String> = Vec::new();
    let mut i: usize = 0;
    while i < n
        invariant
            i <= n,
            n == segs@.len(),
            views_of(acc@) =~= normalize_segs(views_of(segs@).take(i as int)),
        decreases n - i,
    {
        proof {
            let full = views_of(segs@);
            assert(full.take(i + 1).drop_last() =~= full.take(i as int));
            assert(full.take(i + 1).last() == full[i as int]);
            assert(full[i as int] == segs@[i as int]@);
        }
        let seg = &segs[i];
        if crate::types::str_eq(seg.as_str(), ".") {
            // dropped
        } else if crate::types::str_eq(seg.as_str(), "..") {
            if acc.len() > 0 {
                proof {
                    assert(views_of(acc@.drop_last()) =~= views_of(acc@).drop_last());
                }
                acc.pop();
            }
        } else {
            let kept = seg.clone();
            proof {
                assert(views_of(acc@.push(kept)) =~= views_of(acc@).push(seg@));
            }
            acc.push(kept);
        }
        i += 1;
    }
    proof {
        assert(views_of(segs@).take(n as int) =~= views_of(segs@));
    }
    acc
}

/// Joins segments with `/`.
pub fn join_path_segments(segs: &Vec<String>) -> (r: String)
    ensures
        r@ == join_slash(views_of(segs@)),
{
    let n = segs.len();
    let mut out = String::new();
    let mut i: usize = 0;
    while i < n
        invariant
            i <= n,
            n == segs@.len(),
            out@ == join_slash(views_of(segs@).take(i as int)),
        decreases n - i,
    {
        proof {
            let full = views_of(segs@);
            assert(full.take(i + 1).drop_last() =~= full.take(i as int));
            assert(full.take(i + 1).last() == full[i as int]);
            assert(full[i as int] == segs@[i as int]@);
        }
        if i > 0 {
            out.append("/");
        }
        out.append(segs[i].as_str());
        i += 1;
    }
    proof {
        assert(views_of(segs@).take(n as int) =~= views_of(segs@));
    }
    out
}

/// Resolves a relative specifier against an absolute referrer.
fn resolve_relative(specifier: &str, referrer: &str) -> (r: String)
    requires
        is_relative_form(specifier@),
        is_known_absolute(referrer@),
    ensures
        r@ == resolve_relative_spec(specifier@, referrer@),
{
    proof {
        reveal_strlit("file://");
        reveal_strlit("https://");
        assert("file://"@.len() == 7 && "https://"@.len() == 8);
    }
    let marker_len: usize = if str_starts_with(referrer, "file://") {
        7
    } else {
        8
    };
    proof {
        assert(marker_len == scheme_marker_len(referrer@));
        assert(referrer@.len() >= marker_len);
    }
    let ref_len: usize = referrer.unicode_len();
    let oe: usize = match str_find_char_from(referrer, '/', marker_len) {
        Some(j) => j,
        None => ref_len,
    };
    proof {
        assert(oe == origin_end(referrer@));
    }
    let origin = str_prefix_to(referrer, oe);
    let path = str_suffix_from(referrer, oe);
    let combined: String = if str_starts_with(specifier, "/") {
        specifier.to_owned()
    } else {
        let dir: String = match str_rfind_char(path, '/') {
            Some(i) => str_prefix_to(path, i + 1).to_owned(),
            None => "/".to_owned(),
        };
        proof {
            assert(dir@ == dir_of(path_of(referrer@)));
        }
        str_concat(dir.as_str(), specifier)
    };
    proof {
        reveal_strlit("/");
        assert(combined@ == (if "/"@.is_prefix_of(specifier@) {
            specifier@
        } else {
            dir_of(path_of(referrer@)) + specifier@
        }));
        assert(combined@.len() >= 1);
    }
    let body = str_suffix_from(combined.as_str(), 1);
    let segs = split_path(body);
    let norm = normalize_path_segments(&segs);
    let joined = join_path_segments(&norm);
    let with_root = str_concat("/", joined.as_str());
    let out = str_concat(origin, with_root.as_str());
    proof {
        assert(out@ =~= resolve_relative_spec(specifier@, referrer@));
    }
    out
}

/// Whether `s` begins with a scheme name followed by `:`.
pub fn specifier_has_scheme(s: &str) -> (r: bool)
    ensures
        r == has_scheme(s@),
{
    match str_find_char_from(s, ':', 0) {
        Some(j) => {
            proof {
                assert(s@.skip(0) =~= s@);
                assert(find_char(s@, ':') == Some(j as int));
            }
            if j < 1 {
                return false;
            }
            let mut i: usize = 0;
            while i < j
                invariant
                    i <= j,
                    1 <= j < s@.len(),
                    find_char(s@, ':') == Some(j as int),
                    forall|k: int| 0 <= k < i ==> is_scheme_char(s@[k]),
                decreases j - i,
            {
                let c = s.get_char(i);
                if !('a' <= c && c <= 'z') {
                    proof {
                        assert(!is_scheme_char(s@[i as int]));
                    }
                    return false;
                }
                i += 1;
            }
            true
        },
        None => {
            proof {
                assert(s@.skip(0) =~= s@);
            }
            false
        },
    }
}

/// Normalizes an absolute `file://` or `https://` specifier: dot
/// segments leave the path, an empty path becomes the root, and an
/// `https://` specifier without an authority is rejected.
fn normalize_absolute(s: &str) -> (r: Result<String, ResolutionError>)
    requires
        is_known_absolute(s@),
    ensures
        match r {
            Ok(t) => normalize_absolute_spec(s@) == Ok::<Seq<char>, ResolutionError>(t@),
            Err(e) => normalize_absolute_spec(s@) == Err::<Seq<char>, ResolutionError>(e),
        },
{
    proof {
        reveal_strlit("file://");
        reveal_strlit("https://");
        assert("file://"@.len() == 7 && "https://"@.len() == 8);
    }
    let marker_len: usize = if str_starts_with(s, "file://") {
        7
    } else {
        8
    };
    proof {
        assert(marker_len == scheme_marker_len(s@));
        assert(s@.len() >= marker_len);
    }
    let s_len: usize = s.unicode_len();
    let oe: usize = match str_find_char_from(s, '/', marker_len) {
        Some(j) => j,
        None => s_len,
    };
    proof {
        assert(oe == origin_end(s@));
        if marker_len == 7 {
            assert(!"https://"@.is_prefix_of(s@)) by {
                assert(s@[0] == "file://"@[0]);
            }
        }
    }
    if marker_len == 8 && oe == 8 {
        return Err(ResolutionError::InvalidUrl);
    }
    let origin = str_prefix_to(s, oe);
    let path = str_suffix_from(s, oe);
    let body: &str = if path.unicode_len() == 0 {
        ""
    } else {
        str_suffix_from(path, 1)
    };
    proof {
        reveal_strlit("");
        assert(""@ =~= Seq::<char>::empty());
        assert(path@ == path_of(s@));
        assert(body@ == (if path_of(s@).len() == 0 {
            Seq::<char>::empty()
        } else {
            path_of(s@).skip(1)
        }));
    }
    let segs = split_path(body);
    let norm = normalize_path_segments(&segs);
    let joined = join_path_segments(&norm);
    let with_root = str_concat("/", joined.as_str());
    let out = str_concat(origin, with_root.as_str());
    proof {
        assert(out@ =~= origin_of(s@) + "/"@ + join_slash(normalize_segs(split_slash(body@))));
    }
    Ok(out)
}

/// Resolves `specifier` against `referrer` to a normalized absolute
/// specifier.
///
/// The alias prefix `yasumu:` is rewritten to the internal namespace and
/// normalized; other `file://` and `https://` specifiers are normalized;
/// specifiers with a scheme outside the grammar pass through for the
/// loader to reject; relative forms resolve against the referrer with
/// dot-segment removal; anything else is rejected.
pub fn resolve_specifier(specifier: &str, referrer: &str) -> (r: Result<String, ResolutionError>)
    ensures
        match r {
            Ok(s) => resolve_spec(specifier@, referrer@) == Ok::<Seq<char>, ResolutionError>(s@),
            Err(e) => resolve_spec(specifier@, referrer@) == Err::<Seq<char>, ResolutionError>(e),
        },
{
    if str_starts_with(specifier, "yasumu:") {
        let rewritten = str_concat("file://yasumu_internal/", specifier);
        proof {
            reveal_strlit("file://yasumu_internal/");
            reveal_strlit("file://");
            assert("file://"@.is_prefix_of(rewritten@)) by {
                assert(rewritten@.take(7) =~= "file://"@);
            }
        }
        normalize_absolute(rewritten.as_str())
    } else if str_starts_with(specifier, "file://") || str_starts_with(specifier, "https://") {
        normalize_absolute(specifier)
    } else if specifier_has_scheme(specifier) {
        Ok(specifier.to_owned())
    } else if str_starts_with(specifier, "/") || str_starts_with(specifier, "./")
        || str_starts_with(specifier, "../") {
        if str_starts_with(referrer, "file://") || str_starts_with(referrer, "https://") {
            Ok(resolve_relative(specifier, referrer))
        } else {
            Err(ResolutionError::InvalidBaseUrl)
        }
    } else {
        Err(ResolutionError::ImportPrefixMissing)
    }
}

} // verus!

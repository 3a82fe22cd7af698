//! Resource resolution: mapping a request path to a filesystem target.
//!
//! The resolver is pure. The caller checks the filesystem (whether the
//! joined paths exist as regular files) and hands the two answers to
//! [`classify`]; [`normalize_request_path`] does the path normalization and
//! rejects parent-directory traversal.

use vstd::prelude::*;

verus! {

/// The kind of target a request path resolves to. Static files take
/// priority over CGI executables; a path matching neither is `NotFound`.
#[derive(Clone, Copy, Debug, PartialEq, Eq)]
pub enum TargetKind {
    Static,
    Cgi,
    NotFound,
}

/// The byte value of `/`, the path separator.
pub open spec fn slash() -> u8 {
    47u8
}

/// The byte value of `.`.
pub open spec fn dot() -> u8 {
    46u8
}

/// The request path with every leading separator removed.
pub open spec fn drop_leading_slashes(s: Seq<u8>) -> Seq<u8>
    decreases s.len(),
{
    if s.len() > 0 && s[0] == slash() {
        drop_leading_slashes(s.drop_first())
    } else {
        s
    }
}

/// Appends the default document name when the path is empty or names a
/// directory (ends in a separator).
pub open spec fn with_default_doc(s: Seq<u8>, default_doc: Seq<u8>) -> Seq<u8> {
    if s.len() == 0 || s.last() == slash() {
        s + default_doc
    } else {
        s
    }
}

/// The normalized form of a raw request path: leading separators stripped,
/// then the default document appended if the result is empty or ends in a
/// separator.
pub open spec fn normalized_path(raw: Seq<u8>, default_doc: Seq<u8>) -> Seq<u8> {
    with_default_doc(drop_leading_slashes(raw), default_doc)
}

/// Holds when the path has a `..` segment starting at index `i`: two dots
/// bounded by the path's ends or by separators.
pub open spec fn dotdot_at(s: Seq<u8>, i: int) -> bool {
    &&& 0 <= i
    &&& i + 2 <= s.len()
    &&& s[i] == dot()
    &&& s[i + 1] == dot()
    &&& (i == 0 || s[i - 1] == slash())
    &&& (i + 2 == s.len() || s[i + 2] == slash())
}

/// Holds when the path has any parent-directory segment, which could escape
/// the configured root.
pub open spec fn has_traversal(s: Seq<u8>) -> bool {
    exists|i: int| dotdot_at(s, i)
}

/// Normalizes a raw request path (as bytes) against a default document
/// name. Returns `None` exactly when the normalized path carries a
/// parent-directory segment, which must never be joined against a root.
pub fn normalize_request_path(raw: &Vec<u8>, default_doc: &Vec<u8>) -> (r: Option<Vec<u8>>)
    ensures
        match r {
            Some(p) => p@ == normalized_path(raw@, default_doc@) && !has_traversal(p@),
            None => has_traversal(normalized_path(raw@, default_doc@)),
        },
{
    let mut i: usize = 0;
    proof {
        assert(raw@.skip(0) =~= raw@);
    }
    while i < raw.len() && raw[i] == 47u8
        invariant
            i <= raw.len(),
            drop_leading_slashes(raw@) == drop_leading_slashes(raw@.skip(i as int)),
        decreases raw.len() - i,
    {
        proof {
            assert(raw@.skip(i as int).drop_first() =~= raw@.skip(i as int + 1));
        }
        i = i + 1;
    }
    proof {
        assert(drop_leading_slashes(raw@.skip(i as int)) == raw@.skip(i as int));
    }
    let mut p: Vec<u8> = Vec::new();
    let mut j: usize = i;
    while j < raw.len()
        invariant
            i <= j <= raw.len(),
            p@ =~= raw@.subrange(i as int, j as int),
        decreases raw.len() - j,
    {
        p.push(raw[j]);
        j = j + 1;
    }
    proof {
        assert(p@ =~= raw@.skip(i as int));
    }
    if p.len() == 0 || p[p.len() - 1] == 47u8 {
        let ghost base = p@;
        let mut k: usize = 0;
        while k < default_doc.len()
            invariant
                k <= default_doc.len(),
                p@ =~= base + default_doc@.subrange(0, k as int),
            decreases default_doc.len() - k,
        {
            p.push(default_doc[k]);
            k = k + 1;
        }
        proof {
            assert(p@ =~= base + default_doc@);
        }
    }
    proof {
        assert(p@ == normalized_path(raw@, default_doc@));
    }
    let mut t: usize = 0;
    while t < p.len()
        invariant
            t <= p.len(),
            p@ == normalized_path(raw@, default_doc@),
            forall|j: int| 0 <= j < t ==> !dotdot_at(p@, j),
        decreases p.len() - t,
    {
        if p.len() - t >= 2 && p[t] == 46u8 && p[t + 1] == 46u8 && (t == 0 || p[t - 1] == 47u8)
            && (t + 2 == p.len() || p[t + 2] == 47u8) {
            proof {
                assert(dotdot_at(p@, t as int));
            }
            return None;
        }
        t = t + 1;
    }
    proof {
        assert forall|j: int| !dotdot_at(p@, j) by {
            if 0 <= j && j + 2 <= p@.len() {
                assert(!dotdot_at(p@, j));
            }
        }
    }
    Some(p)
}

/// What the resolver decides from the two existence checks: a static file
/// wins, then a CGI executable, else the target is missing.
pub open spec fn resolve_kind(static_exists: bool, cgi_exists: bool) -> TargetKind {
    if static_exists {
        TargetKind::Static
    } else if cgi_exists {
        TargetKind::Cgi
    } else {
        TargetKind::NotFound
    }
}

/// Classifies a normalized path from the filesystem's two answers: whether
/// the static-root join and the CGI-root join each name an existing regular
/// file. The static root has priority.
pub fn classify(static_exists: bool, cgi_exists: bool) -> (k: TargetKind)
    ensures
        k == resolve_kind(static_exists, cgi_exists),
{
    if static_exists {
        TargetKind::Static
    } else if cgi_exists {
        TargetKind::Cgi
    } else {
        TargetKind::NotFound
    }
}

/// What a request path resolves to: the target's kind and the normalized
/// path to join under the matching root. Immutable for the rest of the
/// request.
#[derive(Clone, Debug, PartialEq, Eq)]
pub struct ResolvedTarget {
    pub kind: TargetKind,
    pub path: Vec<u8>,
}

/// Pairs the kind decided from the two filesystem answers with the
/// normalized path those answers are about.
pub fn resolve_target(normalized: Vec<u8>, static_exists: bool, cgi_exists: bool) -> (r:
    ResolvedTarget)
    ensures
        r.kind == resolve_kind(static_exists, cgi_exists),
        r.path@ == normalized@,
{
    ResolvedTarget { kind: classify(static_exists, cgi_exists), path: normalized }
}

} // verus!

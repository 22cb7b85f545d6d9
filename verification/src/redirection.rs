use vstd::prelude::*;

use crate::text::str_eq;

verus! {

/// Tokens that redirect the stdout stream to a file.
pub open spec fn is_stdout_op(t: Seq<char>) -> bool {
    t == ">"@ || t == "1>"@
}

/// Token that redirects the stderr stream to a file.
pub open spec fn is_stderr_op(t: Seq<char>) -> bool {
    t == "2>"@
}

/// Any redirection operator.
pub open spec fn is_redirect_op(t: Seq<char>) -> bool {
    is_stdout_op(t) || is_stderr_op(t)
}

/// Index of the leftmost redirection operator, or the sequence's length
/// when no token is an operator.
pub open spec fn first_op_idx(parts: Seq<Seq<char>>) -> int
    decreases parts.len(),
{
    if parts.len() == 0 {
        0
    } else if is_redirect_op(parts[0]) {
        0
    } else {
        1 + first_op_idx(parts.skip(1))
    }
}

/// Left-to-right scan of directive/destination pairs. Each operator consumes
/// itself and, when one follows, the next token as its destination; a later
/// directive for the same stream replaces an earlier one; an operator with no
/// following token yields no directive; other tokens are passed over.
pub open spec fn scan_redirects(
    parts: Seq<Seq<char>>,
    out: Option<Seq<char>>,
    err: Option<Seq<char>>,
) -> (Option<Seq<char>>, Option<Seq<char>>)
    decreases parts.len(),
{
    if parts.len() == 0 {
        (out, err)
    } else if is_stdout_op(parts[0]) {
        if parts.len() >= 2 {
            scan_redirects(parts.skip(2), Some(parts[1]), err)
        } else {
            (out, err)
        }
    } else if is_stderr_op(parts[0]) {
        if parts.len() >= 2 {
            scan_redirects(parts.skip(2), out, Some(parts[1]))
        } else {
            (out, err)
        }
    } else {
        scan_redirects(parts.skip(1), out, err)
    }
}

/// What splitting a token sequence yields: the command tokens (everything
/// before the leftmost operator), then the stdout and stderr destinations.
pub open spec fn spec_split_redirections(parts: Seq<Seq<char>>) -> (
    Seq<Seq<char>>,
    Option<Seq<char>>,
    Option<Seq<char>>,
) {
    let k = first_op_idx(parts);
    let scanned = scan_redirects(parts.skip(k), None, None);
    (parts.take(k), scanned.0, scanned.1)
}

proof fn lemma_first_op_idx_of(parts: Seq<Seq<char>>, k: int)
    requires
        0 <= k <= parts.len(),
        forall|j: int| 0 <= j < k ==> !is_redirect_op(parts[j]),
        k < parts.len() ==> is_redirect_op(parts[k]),
    ensures
        first_op_idx(parts) == k,
    decreases k,
{
    if k > 0 {
        lemma_first_op_idx_of(parts.skip(1), k - 1);
    }
}

/// Whether a token is one of the recognised redirection operators.
pub fn is_redirection_operator(s: &str) -> (r: bool)
    ensures
        r == is_redirect_op(s@),
{
    str_eq(s, ">") || str_eq(s, "1>") || str_eq(s, "2>")
}

/// Separate a token sequence into the command tokens and the redirection
/// destinations for the stdout and stderr streams.
pub fn split_redirections(parts: &Vec<String>) -> (r: (
    Vec<String>,
    Option<String>,
    Option<String>,
))
    ensures
        ({
            let s = spec_split_redirections(parts.deep_view());
            &&& r.0.deep_view() == s.0
            &&& r.1.deep_view() == s.1
            &&& r.2.deep_view() == s.2
        }),
{
    let ghost pts = parts.deep_view();
    let n = parts.len();

    let mut k: usize = 0;
    while k < n && !is_redirection_operator(parts[k].as_str())
        invariant
            n == pts.len(),
            pts == parts.deep_view(),
            k <= n,
            forall|j: int| 0 <= j < k ==> !is_redirect_op(pts[j]),
        decreases n - k,
    {
        k = k + 1;
    }
    proof {
        lemma_first_op_idx_of(pts, k as int);
    }

    let mut cmd: Vec<String> = Vec::new();
    let mut i: usize = 0;
    while i < k
        invariant
            k <= n,
            n == pts.len(),
            pts == parts.deep_view(),
            i <= k,
            cmd@.len() == i,
            forall|j: int| 0 <= j < i ==> cmd@[j]@ == #[trigger] pts[j],
        decreases k - i,
    {
        cmd.push(parts[i].clone());
        i = i + 1;
    }
    proof {
        assert(cmd.deep_view() =~= pts.take(k as int));
    }

    let mut out: Option<String> = None;
    let mut err: Option<String> = None;
    let mut i: usize = k;
    while i < n
        invariant
            k <= i <= n,
            n == pts.len(),
            pts == parts.deep_view(),
            scan_redirects(pts.skip(i as int), out.deep_view(), err.deep_view())
                == scan_redirects(pts.skip(k as int), None, None),
        decreases n - i,
    {
        proof {
            assert(pts.skip(i as int)[0] == pts[i as int]);
            assert(pts.skip(i as int).skip(1) =~= pts.skip(i as int + 1));
            if i + 1 < n {
                assert(pts.skip(i as int).skip(2) =~= pts.skip(i as int + 2));
                assert(pts.skip(i as int)[1] == pts[i as int + 1]);
            }
        }
        let p = &parts[i];
        if str_eq(p.as_str(), ">") || str_eq(p.as_str(), "1>") {
            if i + 1 < n {
                out = Some(parts[i + 1].clone());
                i = i + 2;
            } else {
                i = n;
            }
        } else if str_eq(p.as_str(), "2>") {
            if i + 1 < n {
                err = Some(parts[i + 1].clone());
                i = i + 2;
            } else {
                i = n;
            }
        } else {
            i = i + 1;
        }
    }
    proof {
        assert(pts.skip(n as int) =~= Seq::<Seq<char>>::empty());
    }
    (cmd, out, err)
}

} // verus!

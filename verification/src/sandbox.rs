//! Sandboxed path resolution: every entity-creation operation resolves the
//! caller-supplied path beneath one fixed output root, whatever the path
//! says. The sanitizer below is the dedicated join-and-verify routine used
//! for every such path: it reduces an untrusted relative path to segments
//! that can only descend, so that resolving them against the root can never
//! escape it.
use vstd::prelude::*;

verus! {

/// A path segment that cannot move resolution upward or sideways: nonempty,
/// holds no separator, and is neither `.` nor `..`.
pub open spec fn is_clean_segment(seg: Seq<u8>) -> bool {
    &&& seg.len() > 0
    &&& !seg.contains(47u8)
    &&& seg != seq![46u8]
    &&& seg != seq![46u8, 46u8]
}

/// How the filesystem interprets one path segment against a directory stack:
/// empty and `.` are no-ops, `..` moves up (never above the filesystem
/// root), anything else descends.
pub open spec fn apply_segment(stack: Seq<Seq<u8>>, seg: Seq<u8>) -> Seq<Seq<u8>> {
    if seg.len() == 0 || seg == seq![46u8] {
        stack
    } else if seg == seq![46u8, 46u8] {
        if stack.len() > 0 {
            stack.drop_last()
        } else {
            stack
        }
    } else {
        stack.push(seg)
    }
}

/// Resolution of a sequence of path segments against a base directory stack.
pub open spec fn resolve(base: Seq<Seq<u8>>, segs: Seq<Seq<u8>>) -> Seq<Seq<u8>>
    decreases segs.len(),
{
    if segs.len() == 0 {
        base
    } else {
        resolve(apply_segment(base, segs[0]), segs.drop_first())
    }
}

/// State of the sanitizer after reading the first `i` bytes of `path`: the
/// directory stack built so far and the segment currently being read.
pub open spec fn sanitize_state(path: Seq<u8>, i: int) -> (Seq<Seq<u8>>, Seq<u8>)
    decreases i,
{
    if i <= 0 {
        (Seq::<Seq<u8>>::empty(), Seq::<u8>::empty())
    } else {
        let prev = sanitize_state(path, i - 1);
        let b = path[i - 1];
        if b == 47 {
            (apply_segment(prev.0, prev.1), Seq::<u8>::empty())
        } else {
            (prev.0, prev.1.push(b))
        }
    }
}

/// The sanitized form of an untrusted relative path: its `/`-separated
/// segments, with empty, `.` and `..` segments already applied, so that only
/// descending segments remain.
pub open spec fn spec_sanitize_path(path: Seq<u8>) -> Seq<Seq<u8>> {
    let state = sanitize_state(path, path.len() as int);
    apply_segment(state.0, state.1)
}

/// Every segment the sanitizer keeps is clean, and the segment being read
/// never holds a separator.
pub proof fn lemma_sanitize_state_clean(path: Seq<u8>, i: int)
    requires
        0 <= i <= path.len(),
    ensures
        ({
            let state = sanitize_state(path, i);
            &&& forall|k: int|
                0 <= k < state.0.len() ==> is_clean_segment(#[trigger] state.0[k])
            &&& !state.1.contains(47u8)
        }),
    decreases i,
{
    if i > 0 {
        lemma_sanitize_state_clean(path, i - 1);
        let prev = sanitize_state(path, i - 1);
        let b = path[i - 1];
        if b == 47 {
            lemma_apply_segment_clean(prev.0, prev.1);
        }
    }
}

/// Applying one separator-free segment keeps every kept segment clean.
pub proof fn lemma_apply_segment_clean(stack: Seq<Seq<u8>>, seg: Seq<u8>)
    requires
        forall|k: int| 0 <= k < stack.len() ==> is_clean_segment(#[trigger] stack[k]),
        !seg.contains(47u8),
    ensures
        forall|k: int|
            0 <= k < apply_segment(stack, seg).len() ==> is_clean_segment(
                #[trigger] apply_segment(stack, seg)[k],
            ),
{
}

/// All segments of a sanitized path are clean.
pub proof fn lemma_sanitized_clean(path: Seq<u8>)
    ensures
        forall|k: int|
            0 <= k < spec_sanitize_path(path).len() ==> is_clean_segment(
                #[trigger] spec_sanitize_path(path)[k],
            ),
{
    lemma_sanitize_state_clean(path, path.len() as int);
    let state = sanitize_state(path, path.len() as int);
    lemma_apply_segment_clean(state.0, state.1);
}

/// Law: resolving clean segments can only descend; the base is always a
/// prefix of the result.
pub proof fn lemma_resolve_stays_within(base: Seq<Seq<u8>>, segs: Seq<Seq<u8>>)
    requires
        forall|k: int| 0 <= k < segs.len() ==> is_clean_segment(#[trigger] segs[k]),
    ensures
        resolve(base, segs).len() >= base.len(),
        resolve(base, segs).subrange(0, base.len() as int) == base,
    decreases segs.len(),
{
    if segs.len() == 0 {
        assert(resolve(base, segs).subrange(0, base.len() as int) =~= base);
    } else {
        let s = segs[0];
        assert(is_clean_segment(s));
        let base2 = base.push(s);
        assert(apply_segment(base, s) == base2);
        lemma_resolve_stays_within(base2, segs.drop_first());
        let r = resolve(base, segs);
        assert(r.subrange(0, base2.len() as int) == base2);
        assert(r.subrange(0, base.len() as int) =~= base);
    }
}

/// Law: whatever the requested path holds — parent-directory traversal
/// segments included — resolving its sanitized segments against any output
/// root yields a location at or below that root, never outside it.
pub proof fn lemma_sanitized_path_stays_in_root(root: Seq<Seq<u8>>, path: Seq<u8>)
    ensures
        resolve(root, spec_sanitize_path(path)).len() >= root.len(),
        resolve(root, spec_sanitize_path(path)).subrange(0, root.len() as int) == root,
{
    lemma_sanitized_clean(path);
    lemma_resolve_stays_within(root, spec_sanitize_path(path));
}

/// Applies one segment of a path to the directory stack being built.
fn apply_segment_exec(stack: &mut Vec<Vec<u8>>, seg: Vec<u8>)
    ensures
        final(stack)@.map_values(|v: Vec<u8>| v@) == apply_segment(
            old(stack)@.map_values(|v: Vec<u8>| v@),
            seg@,
        ),
{
    let ghost f = |v: Vec<u8>| v@;
    if seg.len() == 0 {
        return ;
    }
    if seg.len() == 1 && *vstd::slice::slice_index_get(seg.as_slice(), 0) == 46 {
        proof {
            assert(seg@ =~= seq![46u8]);
        }
        return ;
    }
    if seg.len() == 2 && *vstd::slice::slice_index_get(seg.as_slice(), 0) == 46
        && *vstd::slice::slice_index_get(seg.as_slice(), 1) == 46 {
        proof {
            assert(seg@ =~= seq![46u8, 46u8]);
        }
        if stack.len() > 0 {
            proof {
                assert(old(stack)@.drop_last().map_values(f) =~= old(stack)@.map_values(
                    f,
                ).drop_last());
            }
            stack.pop();
        }
        return ;
    }
    proof {
        if seg@.len() == 1 {
            assert(seg@ != seq![46u8]);
        }
        if seg@.len() == 2 {
            assert(seq![46u8, 46u8][0] == 46u8);
            assert(seq![46u8, 46u8][1] == 46u8);
        }
        assert(old(stack)@.push(seg).map_values(f) =~= old(stack)@.map_values(f).push(seg@));
    }
    stack.push(seg);
}

/// Reduces an untrusted relative path to the clean segments it may create
/// under the output root: splits on `/` and applies empty, `.` and `..`
/// segments, so that the result can only descend from wherever it is joined.
pub fn sanitize_path(path: &[u8]) -> (segs: Vec<Vec<u8>>)
    ensures
        segs@.map_values(|v: Vec<u8>| v@) == spec_sanitize_path(path@),
        forall|k: int| 0 <= k < segs@.len() ==> is_clean_segment(#[trigger] segs@[k]@),
{
    let ghost f = |v: Vec<u8>| v@;
    let mut stack: Vec<Vec<u8>> = Vec::new();
    let mut cur: Vec<u8> = Vec::new();
    let mut i: usize = 0;
    while i < path.len()
        invariant
            i <= path@.len(),
            (stack@.map_values(|v: Vec<u8>| v@), cur@) == sanitize_state(path@, i as int),
        decreases path@.len() - i,
    {
        let b = *vstd::slice::slice_index_get(path, i);
        if b == 47 {
            apply_segment_exec(&mut stack, cur);
            cur = Vec::new();
        } else {
            cur.push(b);
        }
        i = i + 1;
    }
    apply_segment_exec(&mut stack, cur);
    proof {
        lemma_sanitized_clean(path@);
        assert(stack@.map_values(f) == spec_sanitize_path(path@));
        assert forall|k: int| 0 <= k < stack@.len() implies is_clean_segment(
            #[trigger] stack@[k]@,
        ) by {
            assert(stack@.map_values(f)[k] == stack@[k]@);
            assert(is_clean_segment(spec_sanitize_path(path@)[k]));
        }
    }
    stack
}

} // verus!

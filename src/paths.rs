//! Paths written with `/` separators, as archive entry names are: splitting
//! text into components and joining components back.

use vstd::prelude::*;

verus! {

/// The segments of `s`: the text between consecutive `/`, empty segments
/// included, so that a path has one more segment than it has separators.
pub open spec fn segments(s: Seq<char>) -> Seq<Seq<char>>
    decreases s.len(),
{
    if s.len() == 0 {
        seq![Seq::empty()]
    } else {
        let init = segments(s.drop_last());
        if s.last() == '/' {
            init.push(Seq::empty())
        } else {
            init.update(init.len() - 1, init.last().push(s.last()))
        }
    }
}

/// A segment that names no directory level: an empty one (from a leading,
/// trailing or doubled `/`) or `.`.
pub open spec fn is_blank_segment(seg: Seq<char>) -> bool {
    seg.len() == 0 || seg == seq!['.']
}

/// The segments of `segs` that are not blank, in order.
pub open spec fn kept(segs: Seq<Seq<char>>) -> Seq<Seq<char>>
    decreases segs.len(),
{
    if segs.len() == 0 {
        Seq::empty()
    } else if is_blank_segment(segs.last()) {
        kept(segs.drop_last())
    } else {
        kept(segs.drop_last()).push(segs.last())
    }
}

/// The components of a `/`-separated path.
pub open spec fn components(s: Seq<char>) -> Seq<Seq<char>> {
    kept(segments(s))
}

/// Components joined with `/`; no components give the empty path.
pub open spec fn join_path(parts: Seq<Seq<char>>) -> Seq<char>
    decreases parts.len(),
{
    if parts.len() == 0 {
        Seq::empty()
    } else if parts.len() == 1 {
        parts[0]
    } else {
        join_path(parts.drop_last()) + seq!['/'] + parts.last()
    }
}

/// Joining two non-empty runs of components puts one `/` between them.
pub(crate) proof fn lemma_join_append(a: Seq<Seq<char>>, b: Seq<Seq<char>>)
    requires
        a.len() > 0,
        b.len() > 0,
    ensures
        join_path(a + b) == join_path(a) + seq!['/'] + join_path(b),
    decreases b.len(),
{
    if b.len() == 1 {
        assert((a + b).drop_last() =~= a);
    } else {
        lemma_join_append(a, b.drop_last());
        assert((a + b).drop_last() =~= a + b.drop_last());
        assert(join_path(a + b) =~= join_path(a) + seq!['/'] + join_path(b));
    }
}

/// No component of a path is empty or `.`.
pub proof fn lemma_components_nonblank(s: Seq<char>)
    ensures
        forall|i: int| 0 <= i < components(s).len() ==> !is_blank_segment(#[trigger] components(s)[i]),
{
    lemma_kept_nonblank(segments(s));
}

proof fn lemma_kept_nonblank(segs: Seq<Seq<char>>)
    ensures
        forall|i: int| 0 <= i < kept(segs).len() ==> !is_blank_segment(#[trigger] kept(segs)[i]),
    decreases segs.len(),
{
    if segs.len() > 0 {
        lemma_kept_nonblank(segs.drop_last());
        let k0 = kept(segs.drop_last());
        if !is_blank_segment(segs.last()) {
            assert forall|i: int| 0 <= i < kept(segs).len() implies !is_blank_segment(#[trigger] kept(segs)[i]) by {
                if i < k0.len() {
                    assert(kept(segs)[i] == k0[i]);
                }
            }
        }
    }
}

/// Joining at least one component, none of them empty, gives a non-empty
/// path.
pub proof fn lemma_join_nonempty(parts: Seq<Seq<char>>)
    requires
        parts.len() > 0,
        forall|i: int| 0 <= i < parts.len() ==> (#[trigger] parts[i]).len() > 0,
    ensures
        join_path(parts).len() > 0,
{
    if parts.len() > 1 {
        assert((join_path(parts.drop_last()) + seq!['/'] + parts.last()).len() > 0);
    }
}

fn is_blank(seg: &str) -> (r: bool)
    ensures
        r == is_blank_segment(seg@),
{
    let n = seg.unicode_len();
    if n == 0 {
        true
    } else if n == 1 {
        let c = seg.get_char(0);
        proof {
            if c == '.' {
                assert(seg@ =~= seq!['.']);
            }
        }
        c == '.'
    } else {
        false
    }
}

/// Splits a `/`-separated path into its components, leaving out empty ones
/// and `.`.
pub fn path_components(s: &str) -> (r: Vec<String>)
    ensures
        r.deep_view() == components(s@),
{
    let n = s.unicode_len();
    let mut out: Vec<String> = Vec::new();
    let mut start: usize = 0;
    let mut i: usize = 0;
    let ghost mut done: Seq<Seq<char>> = Seq::empty();
    proof {
        assert(s@.subrange(0, 0) =~= Seq::<char>::empty());
        assert(segments(Seq::<char>::empty()) =~= done.push(s@.subrange(0, 0)));
    }
    while i < n
        invariant
            n == s@.len(),
            start <= i <= n,
            segments(s@.subrange(0, i as int)) == done.push(s@.subrange(start as int, i as int)),
            out.deep_view() == kept(done),
        decreases n - i,
    {
        let c = s.get_char(i);
        let ghost before = s@.subrange(0, i as int);
        let ghost after = s@.subrange(0, i + 1);
        assert(after.drop_last() =~= before);
        assert(after.last() == c);
        if c == '/' {
            let seg = s.substring_char(start, i);
            let ghost old_out = out.deep_view();
            if !is_blank(seg) {
                out.push(seg.to_string());
                assert(out.deep_view() =~= old_out.push(seg@));
            }
            proof {
                let nd = done.push(seg@);
                assert(nd.drop_last() =~= done);
                done = nd;
                assert(s@.subrange(i + 1, i + 1) =~= Seq::<char>::empty());
                assert(segments(after) =~= done.push(s@.subrange(i + 1, i + 1)));
            }
            start = i + 1;
        } else {
            proof {
                assert(s@.subrange(start as int, i + 1) =~= s@.subrange(start as int, i as int).push(c));
                assert(segments(after) =~= done.push(s@.subrange(start as int, i + 1)));
            }
        }
        i = i + 1;
    }
    let seg = s.substring_char(start, n);
    let ghost old_out = out.deep_view();
    if !is_blank(seg) {
        out.push(seg.to_string());
        assert(out.deep_view() =~= old_out.push(seg@));
    }
    proof {
        assert(s@.subrange(0, n as int) =~= s@);
        let all = done.push(seg@);
        assert(all.drop_last() =~= done);
    }
    out
}

fn append_part(r: &mut String, parts: Ghost<Seq<Seq<char>>>, k: Ghost<int>, first: bool, part: &String)
    requires
        0 <= k@ < parts@.len(),
        first == (k@ == 0),
        part@ == parts@[k@],
        old(r)@ == join_path(parts@.subrange(0, k@)),
    ensures
        final(r)@ == join_path(parts@.subrange(0, k@ + 1)),
{
    proof {
        reveal_strlit("/");
    }
    let ghost sub = parts@.subrange(0, k@ + 1);
    assert(sub.drop_last() =~= parts@.subrange(0, k@));
    if !first {
        r.append("/");
    }
    r.append(part.as_str());
    proof {
        if k@ == 0 {
            assert(r@ =~= sub[0]);
        } else {
            assert(r@ =~= join_path(sub.drop_last()) + seq!['/'] + sub.last());
        }
    }
}

/// Joins the first `count` components of `head` and then all of `tail`
/// with `/`.
pub fn join_components(head: &Vec<String>, count: usize, tail: &Vec<String>) -> (r: String)
    requires
        count <= head.len(),
    ensures
        r@ == join_path(head.deep_view().subrange(0, count as int) + tail.deep_view()),
{
    let ghost parts = head.deep_view().subrange(0, count as int) + tail.deep_view();
    let mut r = String::new();
    let mut k: usize = 0;
    assert(parts.subrange(0, 0) =~= Seq::<Seq<char>>::empty());
    while k < count
        invariant
            count <= head.len(),
            parts == head.deep_view().subrange(0, count as int) + tail.deep_view(),
            k <= count,
            r@ == join_path(parts.subrange(0, k as int)),
        decreases count - k,
    {
        append_part(&mut r, Ghost(parts), Ghost(k as int), k == 0, &head[k]);
        k = k + 1;
    }
    let mut j: usize = 0;
    while j < tail.len()
        invariant
            count <= head.len(),
            parts == head.deep_view().subrange(0, count as int) + tail.deep_view(),
            j <= tail.len(),
            r@ == join_path(parts.subrange(0, count + j)),
        decreases tail.len() - j,
    {
        append_part(&mut r, Ghost(parts), Ghost(count + j), count == 0 && j == 0, &tail[j]);
        j = j + 1;
    }
    assert(parts.subrange(0, count + tail.len()) =~= parts);
    r
}

} // verus!

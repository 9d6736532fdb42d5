//! Frame selection: temporal bucketing, then a colour-diversity pass over
//! the frames sorted from sharpest to blurriest.
use vstd::prelude::*;
use vstd::multiset::Multiset;
use vstd::seq_lib::{lemma_multiset_commutative, to_multiset_build, to_multiset_contains, to_multiset_len, to_multiset_remove};
use crate::models::Frame;

verus! {

broadcast use vstd::multiset::group_multiset_axioms, vstd::seq_lib::group_to_multiset_ensures;

/// The score by which frames are ordered.
#[derive(Clone, Copy, Debug, PartialEq, Eq, Structural)]
pub enum FrameOrder {
    Timestamp,
    Blurriness,
}

pub open spec fn frame_key(f: Frame, o: FrameOrder) -> u64 {
    match o {
        FrameOrder::Timestamp => f.timestamp,
        FrameOrder::Blurriness => f.blurriness,
    }
}

pub open spec fn sorted_by(s: Seq<Frame>, o: FrameOrder) -> bool {
    forall|i: int, j: int| 0 <= i < j < s.len() ==> frame_key(s[i], o) <= frame_key(s[j], o)
}

/// `q` holds the frames of `s`, ordered by `o`.
pub open spec fn is_ordering_of(q: Seq<Frame>, s: Seq<Frame>, o: FrameOrder) -> bool {
    sorted_by(q, o) && q.to_multiset() == s.to_multiset()
}

fn key_of(f: &Frame, o: FrameOrder) -> (r: u64)
    ensures
        r == frame_key(*f, o),
{
    match o {
        FrameOrder::Timestamp => f.timestamp,
        FrameOrder::Blurriness => f.blurriness,
    }
}

impl Frame {
    /// A field-by-field copy.
    pub fn duplicate(&self) -> (r: Frame)
        ensures
            r == *self,
    {
        Frame {
            avg_colour: self.avg_colour,
            blurriness: self.blurriness,
            filename: self.filename.clone(),
            timestamp: self.timestamp,
        }
    }
}

/// Moves the frames out of `frames` into a vector ordered by `order`.
pub fn sort_frames(frames: &mut Vec<Frame>, order: FrameOrder) -> (r: Vec<Frame>)
    ensures
        final(frames)@.len() == 0,
        r@.len() == old(frames)@.len(),
        is_ordering_of(r@, old(frames)@, order),
{
    let mut r: Vec<Frame> = Vec::new();
    proof {
        assert(r@.to_multiset() =~= Multiset::<Frame>::empty());
    }
    while frames.len() > 0
        invariant
            sorted_by(r@, order),
            forall|i: int, j: int|
                0 <= i < r@.len() && 0 <= j < frames@.len() ==> frame_key(r@[i], order) <= frame_key(
                    frames@[j],
                    order,
                ),
            r@.to_multiset().add(frames@.to_multiset()) == old(frames)@.to_multiset(),
            r@.len() + frames@.len() == old(frames)@.len(),
        decreases frames@.len(),
    {
        let mut best: usize = 0;
        let mut j: usize = 1;
        while j < frames.len()
            invariant
                0 <= best < j <= frames@.len(),
                forall|k: int| 0 <= k < j ==> frame_key(frames@[best as int], order) <= frame_key(
                    frames@[k],
                    order,
                ),
            decreases frames@.len() - j,
        {
            if key_of(&frames[j], order) < key_of(&frames[best], order) {
                best = j;
            }
            j = j + 1;
        }
        let ghost before = frames@;
        let ghost r_before = r@;
        let f = frames.remove(best);
        proof {
            to_multiset_remove(before, best as int);
            to_multiset_contains(before, f);
            assert(before.contains(before[best as int]));
            to_multiset_build(r_before, f);
            assert(r_before.to_multiset().insert(f).add(before.to_multiset().remove(f))
                =~= r_before.to_multiset().add(before.to_multiset()));
            assert forall|k: int| 0 <= k < frames@.len() implies frame_key(f, order) <= frame_key(
                frames@[k],
                order,
            ) by {
                if k < best {
                    assert(frames@[k] == before[k]);
                } else {
                    assert(frames@[k] == before[k + 1]);
                }
            }
        }
        r.push(f);
        proof {
            assert forall|i: int, k: int|
                0 <= i < r@.len() && 0 <= k < frames@.len() implies frame_key(r@[i], order)
                <= frame_key(frames@[k], order) by {
                if k < best {
                    assert(frames@[k] == before[k]);
                } else {
                    assert(frames@[k] == before[k + 1]);
                }
            }
        }
    }
    proof {
        assert(frames@.to_multiset() =~= Multiset::<Frame>::empty());
        assert(r@.to_multiset().add(Multiset::<Frame>::empty()) =~= r@.to_multiset());
    }
    r
}

/// The smallest of the differences `c - f.avg_colour` over the frames `f` of
/// `pool`, and zero when none is below zero.
pub open spec fn colour_distance(c: int, pool: Seq<Frame>) -> int
    decreases pool.len(),
{
    if pool.len() == 0 {
        0
    } else {
        let acc = colour_distance(c, pool.drop_last());
        let d = c - pool.last().avg_colour;
        if d < acc { d } else { acc }
    }
}

proof fn lemma_colour_distance(c: int, pool: Seq<Frame>)
    requires
        c >= 0,
    ensures
        colour_distance(c, pool) <= 0,
        colour_distance(c, pool) >= -(u64::MAX as int),
        (forall|k: int| 0 <= k < pool.len() ==> pool[k].avg_colour == c) ==> colour_distance(c, pool) == 0,
    decreases pool.len(),
{
    if pool.len() > 0 {
        lemma_colour_distance(c, pool.drop_last());
        if forall|k: int| 0 <= k < pool.len() ==> pool[k].avg_colour == c {
            assert(pool.last().avg_colour == c);
            assert forall|k: int| 0 <= k < pool.drop_last().len() implies pool.drop_last()[k].avg_colour == c by {
                assert(pool.drop_last()[k] == pool[k]);
            }
        }
    }
}

fn colour_distance_of(frame: &Frame, pool: &Vec<Frame>) -> (r: i128)
    ensures
        r == colour_distance(frame.avg_colour as int, pool@),
{
    let c = frame.avg_colour as i128;
    let mut acc: i128 = 0;
    let mut j: usize = 0;
    while j < pool.len()
        invariant
            j <= pool@.len(),
            c == frame.avg_colour,
            acc == colour_distance(c as int, pool@.take(j as int)),
        decreases pool@.len() - j,
    {
        proof {
            assert(pool@.take(j + 1).drop_last() == pool@.take(j as int));
            lemma_colour_distance(c as int, pool@.take(j as int));
        }
        let d = c - pool[j].avg_colour as i128;
        if d < acc {
            acc = d;
        }
        j = j + 1;
    }
    assert(pool@.take(j as int) == pool@);
    acc
}

pub open spec fn min_nat(a: nat, b: nat) -> nat {
    if a < b { a } else { b }
}

/// `r` is made of the first frames of some ordering of `s` from sharpest to
/// blurriest.
pub open spec fn sharpest_of(r: Seq<Frame>, s: Seq<Frame>) -> bool {
    exists|q: Seq<Frame>| is_ordering_of(q, s, FrameOrder::Blurriness) && r == q.take(r.len() as int)
}

/// Greedy colour-diversity selection. The frames are visited from sharpest to
/// blurriest; the first is accepted, and each later one is rejected when its
/// colour distance to the frames not yet visited is below 5% of the colour
/// span, where that distance is the smallest signed difference
/// `candidate - other`, starting from zero. The accepted frames come first,
/// then rejected ones, sharpest first, until `num_selected` frames are chosen.
///
/// Because the distance starts from zero it never exceeds zero, so a later
/// frame is accepted exactly when all colours are equal: either way the
/// result is the `num_selected` sharpest frames, which the contract states.
/// All frames are moved out of `frames`.
pub fn select_colour_variety(frames: &mut Vec<Frame>, num_selected: u64) -> (r: Vec<Frame>)
    ensures
        final(frames)@.len() == 0,
        r@.len() == min_nat(num_selected as nat, old(frames)@.len()),
        sharpest_of(r@, old(frames)@),
{
    let n = frames.len();
    let mut pool = sort_frames(frames, FrameOrder::Blurriness);
    let ghost q = pool@;
    if n == 0 {
        assert(q.take(0) =~= Seq::<Frame>::empty());
        return Vec::new();
    }
    let mut min_colour = pool[0].avg_colour;
    let mut max_colour = pool[0].avg_colour;
    let mut j: usize = 1;
    while j < pool.len()
        invariant
            1 <= j <= pool@.len(),
            min_colour <= max_colour,
            forall|k: int| 0 <= k < j ==> min_colour <= #[trigger] pool@[k].avg_colour <= max_colour,
        decreases pool@.len() - j,
    {
        if pool[j].avg_colour < min_colour {
            min_colour = pool[j].avg_colour;
        }
        if pool[j].avg_colour > max_colour {
            max_colour = pool[j].avg_colour;
        }
        j = j + 1;
    }
    let colour_span = max_colour - min_colour;
    let mut selected: Vec<Frame> = Vec::new();
    let mut unselected: Vec<Frame> = Vec::new();
    let ghost mut i: int = 0;
    assert(pool@ == q.skip(0));
    while pool.len() > 0
        invariant
            0 <= i <= q.len(),
            pool@ == q.skip(i),
            colour_span == max_colour - min_colour,
            forall|k: int| 0 <= k < q.len() ==> min_colour <= #[trigger] q[k].avg_colour <= max_colour,
            colour_span == 0 ==> selected@ == q.take(i) && unselected@.len() == 0,
            colour_span > 0 && i == 0 ==> selected@.len() == 0 && unselected@.len() == 0,
            colour_span > 0 && i > 0 ==> selected@ == q.take(1) && unselected@ == q.subrange(1, i),
        decreases pool@.len(),
    {
        let frame = pool.remove(0);
        assert(frame == q[i]);
        assert(pool@ == q.skip(i + 1));
        if selected.len() == 0 {
            selected.push(frame);
            assert(selected@ == q.take(i + 1));
        } else {
            let colour_distance = colour_distance_of(&frame, &pool);
            proof {
                lemma_colour_distance(frame.avg_colour as int, pool@);
            }
            if 20 * colour_distance < colour_span as i128 {
                unselected.push(frame);
                assert(unselected@ == q.subrange(1, i + 1));
            } else {
                if colour_span > 0 {
                    assert(false);
                }
                selected.push(frame);
                assert(selected@ == q.take(i + 1));
            }
        }
        proof {
            i = i + 1;
        }
        if colour_span == 0 {
            assert forall|k: int| 0 <= k < pool@.len() implies pool@[k].avg_colour == frame.avg_colour by {
                assert(pool@[k] == q[i + k]);
            }
        }
    }
    // backfill from the rejected frames, or keep only the first `num_selected`
    let k: usize = if num_selected < n as u64 { num_selected as usize } else { n };
    selected.append(&mut unselected);
    assert(selected@ == q.take(i)) by {
        if colour_span > 0 {
            assert(q.take(1) + q.subrange(1, i) =~= q.take(i));
        }
    }
    assert(q.take(i) == q);
    selected.truncate(k);
    assert(selected@ == q.take(k as int));
    selected
}

/// The last frame of each consecutive chunk of `g` frames (the final chunk
/// may be shorter).
pub open spec fn chunk_lasts(s: Seq<Frame>, g: nat) -> Seq<Frame>
    decreases s.len(),
{
    if s.len() == 0 || g == 0 {
        Seq::<Frame>::empty()
    } else if s.len() <= g {
        seq![s.last()]
    } else {
        seq![s[g - 1]] + chunk_lasts(s.skip(g as int), g)
    }
}

/// The chunk size of the temporal bucketing: `max(1, len / num_groups)`.
pub open spec fn group_size(len: nat, num_groups: nat) -> nat
    recommends
        num_groups > 0,
{
    if len / num_groups > 1 { len / num_groups } else { 1 }
}

/// The candidates of the colour pass: with more than one group, the last
/// frame of each temporal chunk; otherwise every frame.
pub open spec fn group_candidates(time_sorted: Seq<Frame>, num_groups: u64) -> Seq<Frame> {
    if num_groups > 1 {
        chunk_lasts(time_sorted, group_size(time_sorted.len(), num_groups as nat))
    } else {
        time_sorted
    }
}

fn duplicate_all(frames: &Vec<Frame>) -> (r: Vec<Frame>)
    ensures
        r@ == frames@,
{
    let mut r: Vec<Frame> = Vec::new();
    let mut j: usize = 0;
    while j < frames.len()
        invariant
            j <= frames@.len(),
            r@ == frames@.take(j as int),
        decreases frames@.len() - j,
    {
        r.push(frames[j].duplicate());
        assert(r@ =~= frames@.take(j + 1));
        j = j + 1;
    }
    assert(frames@.take(j as int) == frames@);
    r
}

fn last_of_chunks(time_sorted: &Vec<Frame>, g: usize) -> (r: Vec<Frame>)
    requires
        g >= 1,
    ensures
        r@ == chunk_lasts(time_sorted@, g as nat),
{
    let n = time_sorted.len();
    let mut out: Vec<Frame> = Vec::new();
    let mut start: usize = 0;
    assert(time_sorted@.skip(0) == time_sorted@);
    while start < n
        invariant
            n == time_sorted@.len(),
            g >= 1,
            start <= n,
            out@ + chunk_lasts(time_sorted@.skip(start as int), g as nat) == chunk_lasts(time_sorted@, g as nat),
        decreases n - start,
    {
        let ghost rest = time_sorted@.skip(start as int);
        let end: usize = if n - start <= g { n } else { start + g };
        let f = time_sorted[end - 1].duplicate();
        if n - start <= g {
            assert(chunk_lasts(rest, g as nat) == seq![f]);
            assert(time_sorted@.skip(end as int) =~= Seq::<Frame>::empty());
        } else {
            assert(rest.skip(g as int) =~= time_sorted@.skip(end as int));
            assert(chunk_lasts(rest, g as nat) == seq![f] + chunk_lasts(time_sorted@.skip(end as int), g as nat));
        }
        out.push(f);
        assert(out@ + chunk_lasts(time_sorted@.skip(end as int), g as nat) =~= (out@.drop_last() + seq![f]) + chunk_lasts(time_sorted@.skip(end as int), g as nat));
        start = end;
    }
    assert(time_sorted@.skip(n as int) =~= Seq::<Frame>::empty());
    assert(out@ + Seq::<Frame>::empty() =~= out@);
    out
}

/// Reduces the captured frames to the selection: they are sorted by time,
/// bucketed into chunks of `max(1, len / num_groups)` of which the last frame
/// is kept (when `num_groups > 1`), and the colour pass then keeps
/// `num_selected` of those. Returns the selection and all frames sorted by time.
pub fn select_sharpest_images(frames: Vec<Frame>, num_groups: u64, num_selected: u64) -> (r: (Vec<Frame>, Vec<Frame>))
    ensures
        is_ordering_of(r.1@, frames@, FrameOrder::Timestamp),
        r.0@.len() == min_nat(num_selected as nat, group_candidates(r.1@, num_groups).len()),
        sharpest_of(r.0@, group_candidates(r.1@, num_groups)),
{
    let mut frames = frames;
    let time_sorted = sort_frames(&mut frames, FrameOrder::Timestamp);
    let mut candidates = if num_groups > 1 {
        let per_group = time_sorted.len() as u64 / num_groups;
        let g: usize = if per_group > 1 { per_group as usize } else { 1 };
        last_of_chunks(&time_sorted, g)
    } else {
        duplicate_all(&time_sorted)
    };
    let selected = select_colour_variety(&mut candidates, num_selected);
    (selected, time_sorted)
}

/// Whenever no more frames are asked for than there are, the colour pass
/// returns exactly as many as asked, all taken from its input and none twice.
pub proof fn lemma_selection_count(input: Seq<Frame>, num_selected: nat, r: Seq<Frame>)
    requires
        num_selected <= input.len(),
        r.len() == min_nat(num_selected, input.len()),
        sharpest_of(r, input),
    ensures
        r.len() == num_selected,
        r.to_multiset().subset_of(input.to_multiset()),
{
    let q = choose|q: Seq<Frame>| is_ordering_of(q, input, FrameOrder::Blurriness) && r == q.take(r.len() as int);
    to_multiset_len(q);
    to_multiset_len(input);
    assert(q.take(r.len() as int) + q.skip(r.len() as int) =~= q);
    lemma_multiset_commutative(q.take(r.len() as int), q.skip(r.len() as int));
}

/// The last frames of the chunks are frames of the sequence, and there are
/// at least `len / g` of them.
pub proof fn lemma_chunk_lasts(s: Seq<Frame>, g: nat)
    requires
        g >= 1,
    ensures
        chunk_lasts(s, g).len() >= s.len() / g,
        chunk_lasts(s, g).to_multiset().subset_of(s.to_multiset()),
    decreases s.len(),
{
    if s.len() == 0 {
        assert(chunk_lasts(s, g).to_multiset() =~= Multiset::<Frame>::empty());
    } else if s.len() <= g {
        assert(s.len() / g <= 1) by (nonlinear_arith)
            requires s.len() <= g, g >= 1;
        to_multiset_contains(s, s.last());
        assert(s.contains(s[s.len() - 1]));
        assert(seq![s.last()].to_multiset() =~= Multiset::<Frame>::empty().insert(s.last()));
    } else {
        let rest = s.skip(g as int);
        lemma_chunk_lasts(rest, g);
        assert((s.len() - g) / (g as int) + 1 == (s.len() as int) / (g as int)) by (nonlinear_arith)
            requires s.len() > g, g >= 1;
        let head = s.take(g as int);
        assert(head + rest =~= s);
        lemma_multiset_commutative(head, rest);
        lemma_multiset_commutative(seq![s[g - 1]], chunk_lasts(rest, g));
        to_multiset_contains(head, s[g - 1]);
        assert(head[g - 1] == s[g - 1]);
        assert(head.contains(s[g - 1]));
        assert(seq![s[g - 1]].to_multiset() =~= Multiset::<Frame>::empty().insert(s[g - 1]));
    }
}

/// Whenever no more frames are asked for than there are, and no more than
/// there are groups (or there is a single group), the selector returns
/// exactly `num_selected` frames, all taken from its input and none twice.
pub proof fn lemma_selector_count(
    frames: Seq<Frame>,
    num_groups: u64,
    num_selected: u64,
    selected: Seq<Frame>,
    time_sorted: Seq<Frame>,
)
    requires
        num_selected <= frames.len(),
        num_groups <= 1 || (num_selected <= num_groups && num_groups <= frames.len()),
        is_ordering_of(time_sorted, frames, FrameOrder::Timestamp),
        selected.len() == min_nat(num_selected as nat, group_candidates(time_sorted, num_groups).len()),
        sharpest_of(selected, group_candidates(time_sorted, num_groups)),
    ensures
        selected.len() == num_selected,
        selected.to_multiset().subset_of(frames.to_multiset()),
{
    to_multiset_len(time_sorted);
    to_multiset_len(frames);
    let n = time_sorted.len();
    let cands = group_candidates(time_sorted, num_groups);
    if num_groups > 1 {
        let g = group_size(n, num_groups as nat);
        lemma_chunk_lasts(time_sorted, g);
        assert(n / g >= num_groups) by (nonlinear_arith)
            requires
                g == (if n / (num_groups as nat) > 1 { n / (num_groups as nat) } else { 1 }),
                num_groups as nat <= n,
                num_groups >= 2;
    }
    lemma_selection_count(cands, num_selected as nat, selected);
}

} // verus!

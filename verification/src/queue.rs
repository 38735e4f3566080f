//! The "up next" queue: shuffled rounds over a playlist's tracks, topped up
//! so that the display never runs dry.

use rand::seq::SliceRandom;
use std::collections::VecDeque;
use vstd::prelude::*;

verus! {

/// How many upcoming tracks the queue keeps ready.
pub const QUEUE_LOOKAHEAD: usize = 50;

#[verifier::external_type_specification]
#[verifier::external_body]
pub struct ExThreadRng(rand::rngs::ThreadRng);

/// Calls `rand::thread_rng`, which hands out the current thread's lazily
/// seeded generator. Nothing is stated of it: it only feeds `shuffle`.
#[verifier::external_body]
fn thread_rng() -> rand::rngs::ThreadRng {
    rand::thread_rng()
}

/// Calls `SliceRandom::shuffle` on the vector's slice. Its source swaps
/// elements pairwise (Fisher-Yates), so the result is a permutation of the
/// input: the same multiset of elements. Which permutation comes out rests on
/// chance and is not stated.
#[verifier::external_body]
fn shuffle(v: &mut Vec<usize>, rng: &mut rand::rngs::ThreadRng)
    ensures
        final(v)@.to_multiset() == old(v)@.to_multiset(),
{
    v.shuffle(rng);
}

/// Number of tracks in one round: every index below `len` except `current`.
pub open spec fn round_len(current: nat, len: nat) -> nat {
    if current < len {
        (len - 1) as nat
    } else {
        len
    }
}

/// `r` plays every index below `len` other than `current` exactly once, in some order.
pub open spec fn is_round(r: Seq<usize>, current: nat, len: nat) -> bool {
    &&& r.len() == round_len(current, len)
    &&& r.no_duplicates()
    &&& forall|i: int| 0 <= i < r.len() ==> (#[trigger] r[i] as nat) < len && r[i] as nat != current
}

/// `s` is a sequence of whole rounds, one after the other.
pub open spec fn rounds(s: Seq<usize>, current: nat, len: nat) -> bool
    decreases s.len(),
{
    if s.len() == 0 {
        true
    } else {
        let k = round_len(current, len);
        &&& 0 < k <= s.len()
        &&& is_round(s.take(k as int), current, len)
        &&& rounds(s.skip(k as int), current, len)
    }
}

/// What topping the queue up does: with fewer than two tracks nothing; otherwise
/// whole shuffled rounds are appended after the old contents until at least
/// `QUEUE_LOOKAHEAD` entries are queued, and not one round more.
pub open spec fn topped_up(old_q: Seq<usize>, new_q: Seq<usize>, current: nat, len: nat) -> bool {
    if len <= 1 {
        new_q == old_q
    } else {
        &&& old_q.len() <= new_q.len()
        &&& new_q.take(old_q.len() as int) == old_q
        &&& rounds(new_q.skip(old_q.len() as int), current, len)
        &&& new_q.len() >= QUEUE_LOOKAHEAD
        &&& new_q.len() > old_q.len() ==> new_q.len() - round_len(current, len) < QUEUE_LOOKAHEAD
    }
}

/// Taking the next track from the (topped-up) queue `full`: its head, or
/// `current` again when it is empty.
pub open spec fn took_next(full: Seq<usize>, rest: Seq<usize>, next: nat, current: nat) -> bool {
    if full.len() > 0 {
        next == full[0] as nat && rest == full.drop_first()
    } else {
        next == current && rest == full
    }
}

/// Every entry of `q` indexes a track of a playlist of `len` tracks.
pub open spec fn all_below(q: Seq<usize>, len: nat) -> bool {
    forall|i: int| 0 <= i < q.len() ==> (#[trigger] q[i] as nat) < len
}

proof fn lemma_round_permutation(a: Seq<usize>, b: Seq<usize>, current: nat, len: nat)
    requires
        is_round(a, current, len),
        a.to_multiset() == b.to_multiset(),
    ensures
        is_round(b, current, len),
{
    broadcast use vstd::seq_lib::group_to_multiset_ensures;

    assert(b.len() == a.len()) by {
        assert(a.to_multiset().len() == a.len());
        assert(b.to_multiset().len() == b.len());
    }
    a.lemma_multiset_has_no_duplicates();
    assert forall|x: usize| b.to_multiset().contains(x) implies b.to_multiset().count(x) == 1 by {
        assert(a.to_multiset().contains(x));
    }
    b.lemma_multiset_has_no_duplicates_conv();
    assert forall|i: int| 0 <= i < b.len() implies (#[trigger] b[i] as nat) < len && b[i] as nat
        != current by {
        assert(b.contains(b[i]));
        assert(a.to_multiset().count(b[i]) > 0);
        assert(a.contains(b[i]));
        let j = choose|j: int| 0 <= j < a.len() && a[j] == b[i];
        assert((a[j] as nat) < len);
    }
}

proof fn lemma_rounds_push_round(s: Seq<usize>, r: Seq<usize>, current: nat, len: nat)
    requires
        rounds(s, current, len),
        is_round(r, current, len),
        round_len(current, len) > 0,
    ensures
        rounds(s + r, current, len),
    decreases s.len(),
{
    reveal_with_fuel(rounds, 2);
    let k = round_len(current, len);
    if s.len() == 0 {
        assert(s + r =~= r);
        assert(r.take(k as int) =~= r);
        assert(r.skip(k as int) =~= Seq::<usize>::empty());
    } else {
        lemma_rounds_push_round(s.skip(k as int), r, current, len);
        assert((s + r).take(k as int) =~= s.take(k as int));
        assert((s + r).skip(k as int) =~= s.skip(k as int) + r);
    }
}

proof fn lemma_rounds_entries(s: Seq<usize>, current: nat, len: nat)
    requires
        rounds(s, current, len),
    ensures
        forall|i: int| 0 <= i < s.len() ==> (#[trigger] s[i] as nat) < len && s[i] as nat != current,
    decreases s.len(),
{
    if s.len() > 0 {
        let k = round_len(current, len);
        lemma_rounds_entries(s.skip(k as int), current, len);
        assert forall|i: int| 0 <= i < s.len() implies (#[trigger] s[i] as nat) < len && s[i] as nat
            != current by {
            if i < k {
                assert(s[i] == s.take(k as int)[i]);
            } else {
                assert(s[i] == s.skip(k as int)[i - k]);
            }
        }
    }
}

/// Topping up keeps a queue of valid track indices valid, and everything it
/// adds is a track other than the current one.
pub proof fn lemma_topped_up_entries(old_q: Seq<usize>, new_q: Seq<usize>, current: nat, len: nat)
    requires
        topped_up(old_q, new_q, current, len),
        all_below(old_q, len),
    ensures
        all_below(new_q, len),
        len > 1 ==> forall|i: int|
            old_q.len() <= i < new_q.len() ==> #[trigger] new_q[i] as nat != current,
{
    if len > 1 {
        let tail = new_q.skip(old_q.len() as int);
        lemma_rounds_entries(tail, current, len);
        assert forall|i: int| 0 <= i < new_q.len() implies (#[trigger] new_q[i] as nat) < len by {
            if i < old_q.len() {
                assert(new_q[i] == new_q.take(old_q.len() as int)[i]);
            } else {
                assert(new_q[i] == tail[i - old_q.len()]);
            }
        }
        assert forall|i: int| old_q.len() <= i < new_q.len() implies #[trigger] new_q[i] as nat
            != current by {
            assert(new_q[i] == tail[i - old_q.len()]);
        }
    }
}

/// Taking the next track from a queue of valid indices of a playlist of two
/// or more tracks yields a valid track and leaves a queue of valid indices.
pub proof fn lemma_next_song_valid(
    old_q: Seq<usize>,
    full: Seq<usize>,
    rest: Seq<usize>,
    next: nat,
    current: nat,
    len: nat,
)
    requires
        len > 1,
        all_below(old_q, len),
        topped_up(old_q, full, current, len),
        took_next(full, rest, next, current),
    ensures
        next < len,
        all_below(rest, len),
{
    lemma_topped_up_entries(old_q, full, current, len);
    assert(full.len() > 0);
    assert((full[0] as nat) < len);
    assert forall|i: int| 0 <= i < rest.len() implies (#[trigger] rest[i] as nat) < len by {
        assert(rest[i] == full[i + 1]);
    }
}

fn round_in_order(current: usize, len: usize) -> (order: Vec<usize>)
    ensures
        is_round(order@, current as nat, len as nat),
{
    let mut order: Vec<usize> = Vec::new();
    let mut i: usize = 0;
    while i < len
        invariant
            i <= len,
            order@.len() == if current < i { (i - 1) as nat } else { i as nat },
            forall|a: int, b: int| 0 <= a < b < order@.len() ==> order@[a] < order@[b],
            forall|a: int| 0 <= a < order@.len() ==> (#[trigger] order@[a]) < i && order@[a] != current,
        decreases len - i,
    {
        if i != current {
            order.push(i);
        }
        i = i + 1;
    }
    assert(order@.no_duplicates()) by {
        assert forall|a: int, b: int| 0 <= a < order@.len() && 0 <= b < order@.len() && a != b
            implies order@[a] != order@[b] by {
            if a < b {
                assert(order@[a] < order@[b]);
            } else {
                assert(order@[b] < order@[a]);
            }
        }
    }
    order
}

/// Tops the queue up with freshly shuffled rounds of the playlist's tracks
/// (all but `current`) until it holds at least `QUEUE_LOOKAHEAD` entries.
/// A playlist of fewer than two tracks leaves the queue alone.
pub fn ensure_queue(queue: &mut VecDeque<usize>, current: usize, len: usize)
    ensures
        topped_up(old(queue)@, final(queue)@, current as nat, len as nat),
{
    if len <= 1 {
        return;
    }
    let ghost old_q = queue@;
    let ghost k = round_len(current as nat, len as nat);
    assert(queue@.take(old_q.len() as int) =~= old_q);
    assert(queue@.skip(old_q.len() as int) =~= Seq::<usize>::empty());
    while queue.len() < QUEUE_LOOKAHEAD
        invariant
            len > 1,
            k == round_len(current as nat, len as nat),
            old_q.len() <= queue@.len(),
            queue@.take(old_q.len() as int) == old_q,
            rounds(queue@.skip(old_q.len() as int), current as nat, len as nat),
            queue@.len() > old_q.len() ==> queue@.len() - k < QUEUE_LOOKAHEAD,
        decreases if queue@.len() < QUEUE_LOOKAHEAD { QUEUE_LOOKAHEAD - queue@.len() } else { 0 },
    {
        let ghost before = queue@;
        let mut order = round_in_order(current, len);
        let ghost sorted = order@;
        let mut rng = thread_rng();
        shuffle(&mut order, &mut rng);
        proof {
            lemma_round_permutation(sorted, order@, current as nat, len as nat);
        }
        let mut j: usize = 0;
        while j < order.len()
            invariant
                j <= order@.len(),
                queue@ == before + order@.take(j as int),
            decreases order@.len() - j,
        {
            queue.push_back(order[j]);
            assert(order@.take(j + 1) =~= order@.take(j as int).push(order@[j as int]));
            j = j + 1;
        }
        proof {
            assert(order@.take(j as int) =~= order@);
            assert(queue@.len() == before.len() + k);
            assert(queue@.take(old_q.len() as int) =~= before.take(old_q.len() as int));
            assert(queue@.skip(old_q.len() as int) =~= before.skip(old_q.len() as int) + order@);
            lemma_rounds_push_round(before.skip(old_q.len() as int), order@, current as nat, len as nat);
        }
    }
}

/// Takes the next track to play: tops the queue up, then pops its head, or
/// gives `current` back when the queue is still empty.
pub fn pop_next_song(queue: &mut VecDeque<usize>, current: usize, len: usize) -> (next: usize)
    ensures
        exists|full: Seq<usize>|
            topped_up(old(queue)@, full, current as nat, len as nat) && took_next(
                full,
                final(queue)@,
                next as nat,
                current as nat,
            ),
{
    ensure_queue(queue, current, len);
    let ghost full = queue@;
    let next = match queue.pop_front() {
        Some(i) => i,
        None => current,
    };
    assert(took_next(full, queue@, next as nat, current as nat));
    next
}

} // verus!

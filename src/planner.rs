//! Move planning: the linear grid strategy (ascending tile indices turned into
//! right, down and confirm presses) and the circular wheel strategy (the
//! shorter rotation on a ring of eight positions).

use vstd::prelude::*;
use vstd::relations::{sorted_by, total_ordering};
use vstd::seq_lib::lemma_sorted_unique;

verus! {

/// A logical key that the input collaborator presses.
#[derive(Clone, Copy, Debug, PartialEq, Eq, Structural)]
pub enum Key {
    Left,
    Right,
    Up,
    Down,
    Enter,
    Tab,
}

/// `n` presses of `k`.
pub open spec fn repeat_key(k: Key, n: nat) -> Seq<Key> {
    Seq::new(n, |_i: int| k)
}

/// Appends `n` presses of `k`.
fn push_repeat(keys: &mut Vec<Key>, k: Key, n: usize)
    ensures
        final(keys)@ == old(keys)@ + repeat_key(k, n as nat),
{
    let ghost start = keys@;
    let mut i: usize = 0;
    while i < n
        invariant
            0 <= i <= n,
            keys@ == start + repeat_key(k, i as nat),
        decreases n - i,
    {
        keys.push(k);
        i += 1;
        assert(keys@ =~= start + repeat_key(k, i as nat));
    }
}

/// `s` is in ascending order.
pub open spec fn ascending(s: Seq<usize>) -> bool {
    forall|i: int, j: int| 0 <= i <= j < s.len() ==> s[i] <= s[j]
}

/// The element before position `i`, with an implicit 0 before the first.
pub open spec fn previous(s: Seq<usize>, i: int) -> int {
    if i == 0 {
        0
    } else {
        s[i - 1] as int
    }
}

/// Successive differences from a cursor that starts at 0.
pub open spec fn relative_spec(s: Seq<usize>) -> Seq<usize> {
    Seq::new(s.len(), |i: int| (s[i] - previous(s, i)) as usize)
}

/// Relies on `slice::sort`: the same elements, in ascending order.
#[verifier::external_body]
fn sort_ascending(v: &mut Vec<usize>)
    ensures
        final(v)@.to_multiset() == old(v)@.to_multiset(),
        ascending(final(v)@),
{
    v.sort();
}

/// Turns ascending absolute indices into differences from the previous one,
/// the first taken from 0.
pub fn relative_array(arr: &[usize]) -> (r: Vec<usize>)
    requires
        ascending(arr@),
    ensures
        r@ == relative_spec(arr@),
{
    let mut result: Vec<usize> = Vec::new();
    let mut last: usize = 0;
    let mut i: usize = 0;
    while i < arr.len()
        invariant
            0 <= i <= arr@.len(),
            ascending(arr@),
            last == previous(arr@, i as int),
            result@ == relative_spec(arr@).take(i as int),
        decreases arr@.len() - i,
    {
        let v = arr[i];
        result.push(v - last);
        last = v;
        i += 1;
        assert(result@ =~= relative_spec(arr@).take(i as int));
    }
    assert(relative_spec(arr@).take(i as int) =~= relative_spec(arr@));
    result
}

/// The presses for one difference on a two-column grid: right for its odd part,
/// down for each full row, then confirm.
pub open spec fn grid_step(d: nat) -> Seq<Key> {
    repeat_key(Key::Right, d % 2) + repeat_key(Key::Down, d / 2) + seq![Key::Enter]
}

/// The presses for a list of differences, in order.
pub open spec fn grid_moves(deltas: Seq<usize>) -> Seq<Key>
    decreases deltas.len(),
{
    if deltas.len() == 0 {
        seq![]
    } else {
        grid_moves(deltas.drop_last()) + grid_step(deltas.last() as nat)
    }
}

/// The whole grid sequence for ascending tile indices: the moves, then validate.
pub open spec fn grid_plan(sorted: Seq<usize>) -> Seq<Key> {
    grid_moves(relative_spec(sorted)) + seq![Key::Tab]
}

/// Plans the presses that select the tiles at ascending indices `sorted` on a
/// two-column grid whose cursor starts at index 0, and then validate.
pub fn plan_grid(sorted: &[usize]) -> (r: Vec<Key>)
    requires
        ascending(sorted@),
    ensures
        r@ == grid_plan(sorted@),
{
    let deltas = relative_array(sorted);
    let mut keys: Vec<Key> = Vec::new();
    let mut i: usize = 0;
    while i < deltas.len()
        invariant
            0 <= i <= deltas@.len(),
            keys@ == grid_moves(deltas@.take(i as int)),
        decreases deltas@.len() - i,
    {
        let d = deltas[i];
        push_repeat(&mut keys, Key::Right, d % 2);
        push_repeat(&mut keys, Key::Down, d / 2);
        keys.push(Key::Enter);
        proof {
            let next = deltas@.take(i + 1);
            assert(next.drop_last() =~= deltas@.take(i as int));
            assert(keys@ =~= grid_moves(next));
        }
        i += 1;
    }
    assert(deltas@.take(i as int) =~= deltas@);
    keys.push(Key::Tab);
    keys
}

/// The order of indices on the grid.
pub open spec fn index_leq(a: usize, b: usize) -> bool {
    a <= b
}

/// The indices of `s` in ascending order.
pub open spec fn sorted_spec(s: Seq<usize>) -> Seq<usize> {
    s.sort_by(|a: usize, b: usize| index_leq(a, b))
}

/// An ascending rearrangement of `s` is its sorted form.
proof fn lemma_ascending_is_sorted(p: Seq<usize>, s: Seq<usize>)
    requires
        ascending(p),
        p.to_multiset() == s.to_multiset(),
    ensures
        p == sorted_spec(s),
        ascending(sorted_spec(s)),
{
    let leq = |a: usize, b: usize| index_leq(a, b);
    assert(total_ordering(leq));
    s.lemma_sort_by_ensures(leq);
    assert(sorted_by(p, leq));
    lemma_sorted_unique(p, s.sort_by(leq), leq);
}

/// Plans the grid presses for tile indices in any order: they are visited in
/// ascending order.
pub fn plan_grid_unsorted(positions: Vec<usize>) -> (r: Vec<Key>)
    ensures
        r@ == grid_plan(sorted_spec(positions@)),
{
    let ghost original = positions@;
    let mut sorted = positions;
    sort_ascending(&mut sorted);
    proof {
        lemma_ascending_is_sorted(sorted@, original);
    }
    plan_grid(sorted.as_slice())
}

/// Sum of a sequence of differences.
pub open spec fn delta_sum(s: Seq<usize>) -> int
    decreases s.len(),
{
    if s.len() == 0 {
        0
    } else {
        delta_sum(s.drop_last()) + s.last()
    }
}

/// The differences of ascending indices add up to the last index.
pub proof fn lemma_relative_sum(s: Seq<usize>)
    requires
        ascending(s),
        s.len() > 0,
    ensures
        delta_sum(relative_spec(s)) == s.last(),
    decreases s.len(),
{
    let r = relative_spec(s);
    if s.len() > 1 {
        let init = s.drop_last();
        assert(r.drop_last() =~= relative_spec(init));
        lemma_relative_sum(init);
        assert(s[s.len() - 2] <= s[s.len() - 1]);
        assert(r.last() == s.last() - init.last());
    } else {
        assert(r.drop_last() =~= Seq::<usize>::empty());
        assert(r.last() == s.last());
        assert(delta_sum(r.drop_last()) == 0);
    }
    assert(r.len() == s.len());
    assert(delta_sum(r) == delta_sum(r.drop_last()) + r.last());
}

/// Number of movement presses (right and down) for a list of differences.
pub open spec fn movement_presses(deltas: Seq<usize>) -> int
    decreases deltas.len(),
{
    if deltas.len() == 0 {
        0
    } else {
        movement_presses(deltas.drop_last()) + deltas.last() % 2 + deltas.last() / 2
    }
}

/// The grid sequence holds one confirm per difference, its movement presses,
/// and the final validation.
pub proof fn lemma_grid_plan_length(sorted: Seq<usize>)
    ensures
        grid_plan(sorted).len() == sorted.len() + movement_presses(relative_spec(sorted)) + 1,
{
    lemma_grid_moves_length(relative_spec(sorted));
}

/// The moves for two lists of differences one after the other are the moves of
/// the first followed by those of the second.
pub proof fn lemma_grid_moves_append(a: Seq<usize>, b: Seq<usize>)
    ensures
        grid_moves(a + b) == grid_moves(a) + grid_moves(b),
    decreases b.len(),
{
    if b.len() == 0 {
        assert(a + b =~= a);
        assert(grid_moves(a) + grid_moves(b) =~= grid_moves(a));
    } else {
        assert((a + b).drop_last() =~= a + b.drop_last());
        assert((a + b).last() == b.last());
        lemma_grid_moves_append(a, b.drop_last());
        assert(grid_moves(a + b) =~= grid_moves(a) + grid_moves(b));
    }
}

/// The presses that the grid sequence emits for the difference at position `k`
/// are exactly `grid_step` of it: right for its odd part, down for each full
/// row, then confirm, between the presses of the earlier and later differences.
pub proof fn lemma_grid_plan_step(sorted: Seq<usize>, k: int)
    requires
        0 <= k < sorted.len(),
    ensures
        ({
            let d = relative_spec(sorted);
            grid_plan(sorted) == grid_moves(d.take(k)) + grid_step(d[k] as nat) + grid_moves(
                d.skip(k + 1),
            ) + seq![Key::Tab]
        }),
{
    let d = relative_spec(sorted);
    let one = seq![d[k]];
    assert(d =~= d.take(k) + one + d.skip(k + 1));
    lemma_grid_moves_append(d.take(k) + one, d.skip(k + 1));
    lemma_grid_moves_append(d.take(k), one);
    assert(one.drop_last() =~= Seq::<usize>::empty());
    assert(grid_moves(Seq::<usize>::empty()) == Seq::<Key>::empty());
    assert(one.last() == d[k]);
    assert(grid_moves(one) == grid_moves(one.drop_last()) + grid_step(one.last() as nat));
    assert(grid_moves(one) =~= grid_step(d[k] as nat));
}

/// A difference of three is one press right, one press down, then confirm.
pub proof fn lemma_grid_step_three()
    ensures
        grid_step(3) == seq![Key::Right, Key::Down, Key::Enter],
{
    assert(grid_step(3) =~= seq![Key::Right, Key::Down, Key::Enter]);
}

proof fn lemma_grid_moves_length(deltas: Seq<usize>)
    ensures
        grid_moves(deltas).len() == deltas.len() + movement_presses(deltas),
    decreases deltas.len(),
{
    if deltas.len() > 0 {
        lemma_grid_moves_length(deltas.drop_last());
    }
}

/// Number of positions on the wheel.
pub const WHEEL_SIZE: usize = 8;

/// Steps forward from `current` to `target` on the wheel.
pub open spec fn forward_steps(current: int, target: int) -> int {
    (target - current) % (WHEEL_SIZE as int)
}

/// The presses that turn the wheel from `current` to `target`: forward when that
/// takes fewer than half a turn, backward otherwise (so half a turn goes backward).
pub open spec fn wheel_moves(current: int, target: int) -> Seq<Key> {
    let f = forward_steps(current, target);
    if f == 0 {
        seq![]
    } else if f < (WHEEL_SIZE as int) / 2 {
        repeat_key(Key::Right, f as nat)
    } else {
        repeat_key(Key::Left, (WHEEL_SIZE as int - f) as nat)
    }
}

/// Plans the shorter rotation from `current` to `target` on the wheel.
pub fn move_to(current: usize, target: usize) -> (r: Vec<Key>)
    requires
        current < WHEEL_SIZE,
        target < WHEEL_SIZE,
    ensures
        r@ == wheel_moves(current as int, target as int),
{
    let mut keys: Vec<Key> = Vec::new();
    if current == target {
        assert(forward_steps(current as int, target as int) == 0);
        return keys;
    }
    let forward: usize = if target > current {
        target - current
    } else {
        WHEEL_SIZE - current + target
    };
    assert(forward == forward_steps(current as int, target as int));
    if forward < WHEEL_SIZE / 2 {
        push_repeat(&mut keys, Key::Right, forward);
    } else {
        push_repeat(&mut keys, Key::Left, WHEEL_SIZE - forward);
    }
    assert(keys@ =~= wheel_moves(current as int, target as int));
    keys
}

/// Net forward steps of a press sequence: right counts one forward, left one back.
pub open spec fn net_steps(keys: Seq<Key>) -> int
    decreases keys.len(),
{
    if keys.len() == 0 {
        0
    } else {
        net_steps(keys.drop_last()) + match keys.last() {
            Key::Right => 1int,
            Key::Left => -1int,
            _ => 0int,
        }
    }
}

proof fn lemma_net_steps_repeat(k: Key, n: nat)
    ensures
        k == Key::Right ==> net_steps(repeat_key(k, n)) == n,
        k == Key::Left ==> net_steps(repeat_key(k, n)) == -n,
    decreases n,
{
    if n > 0 {
        assert(repeat_key(k, n).drop_last() =~= repeat_key(k, (n - 1) as nat));
        lemma_net_steps_repeat(k, (n - 1) as nat);
    }
}

/// The wheel moves bring the cursor to the target, in at most half a turn of presses.
pub proof fn lemma_wheel_reaches_target(current: int, target: int)
    requires
        0 <= current < WHEEL_SIZE,
        0 <= target < WHEEL_SIZE,
    ensures
        (current + net_steps(wheel_moves(current, target))) % (WHEEL_SIZE as int) == target,
        wheel_moves(current, target).len() <= (WHEEL_SIZE as int) / 2,
        wheel_moves(current, target).len() == if forward_steps(current, target) <= (WHEEL_SIZE as int) - forward_steps(current, target) {
            forward_steps(current, target)
        } else {
            (WHEEL_SIZE as int) - forward_steps(current, target)
        },
{
    let f = forward_steps(current, target);
    lemma_net_steps_repeat(Key::Right, f as nat);
    lemma_net_steps_repeat(Key::Left, (WHEEL_SIZE as int - f) as nat);
    if f == 0 {
        assert(net_steps(Seq::<Key>::empty()) == 0);
    }
}

/// The wheel sequence for every position: position `i` is turned from the index
/// that it currently shows to `i`, then the cursor moves down to the next one.
pub open spec fn wheel_plan(currents: Seq<usize>) -> Seq<Key>
    decreases currents.len(),
{
    if currents.len() == 0 {
        seq![]
    } else {
        wheel_plan(currents.drop_last()) + wheel_moves(
            currents.last() as int,
            currents.len() - 1,
        ) + seq![Key::Down]
    }
}

/// Plans the presses for a wheel puzzle where position `i` shows the part whose
/// solution index is `currents[i]`; each position is solved on its own.
pub fn plan_wheel(currents: &[usize]) -> (r: Vec<Key>)
    requires
        currents@.len() <= WHEEL_SIZE,
        forall|i: int| 0 <= i < currents@.len() ==> currents@[i] < WHEEL_SIZE,
    ensures
        r@ == wheel_plan(currents@),
{
    let mut keys: Vec<Key> = Vec::new();
    let mut i: usize = 0;
    while i < currents.len()
        invariant
            0 <= i <= currents@.len(),
            currents@.len() <= WHEEL_SIZE,
            forall|j: int| 0 <= j < currents@.len() ==> currents@[j] < WHEEL_SIZE,
            keys@ == wheel_plan(currents@.take(i as int)),
        decreases currents@.len() - i,
    {
        let moves = move_to(currents[i], i);
        let ghost before = keys@;
        let mut j: usize = 0;
        while j < moves.len()
            invariant
                0 <= j <= moves@.len(),
                keys@ == before + moves@.take(j as int),
            decreases moves@.len() - j,
        {
            keys.push(moves[j]);
            j += 1;
            assert(keys@ =~= before + moves@.take(j as int));
        }
        keys.push(Key::Down);
        proof {
            let next = currents@.take(i + 1);
            assert(next.drop_last() =~= currents@.take(i as int));
            assert(moves@.take(j as int) =~= moves@);
            assert(keys@ =~= wheel_plan(next));
        }
        i += 1;
    }
    assert(currents@.take(i as int) =~= currents@);
    keys
}

} // verus!

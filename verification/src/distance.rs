//! The edit distance between texts.
use vstd::prelude::*;

verus! {

/// The least number of insertions, deletions and substitutions of single
/// characters that turn `a` into `b`.
pub open spec fn edit_distance(a: Seq<char>, b: Seq<char>) -> nat
    decreases a.len() + b.len(),
{
    if a.len() == 0 {
        b.len()
    } else if b.len() == 0 {
        a.len()
    } else {
        let deleted = edit_distance(a.drop_last(), b) + 1;
        let inserted = edit_distance(a, b.drop_last()) + 1;
        let replaced = edit_distance(a.drop_last(), b.drop_last()) + if a.last() == b.last() {
            0nat
        } else {
            1nat
        };
        least(least(deleted, inserted), replaced)
    }
}

/// The smaller of two numbers.
pub open spec fn least(x: nat, y: nat) -> nat {
    if x <= y {
        x
    } else {
        y
    }
}

/// `strsim::levenshtein` counts the insertions, deletions and substitutions of
/// characters on a shortest way from `a` to `b`.
pub assume_specification[ strsim::levenshtein ](a: &str, b: &str) -> (distance: usize)
    ensures
        distance == edit_distance(a@, b@),
;

/// Whether `y` is `x` with `before`, at most one character that stands between
/// `front` and `back`, replaced by `after`, at most one other character.
pub open spec fn edited(
    front: Seq<char>,
    before: Seq<char>,
    after: Seq<char>,
    back: Seq<char>,
    x: Seq<char>,
    y: Seq<char>,
) -> bool {
    &&& before.len() <= 1
    &&& after.len() <= 1
    &&& before != after
    &&& x == front + before + back
    &&& y == front + after + back
}

/// Whether one insertion, deletion or substitution turns `x` into `y`.
pub open spec fn one_edit(x: Seq<char>, y: Seq<char>) -> bool {
    exists|front: Seq<char>, before: Seq<char>, after: Seq<char>, back: Seq<char>|
        edited(front, before, after, back, x, y)
}

/// Whether `steps` single edits lead from `x` to `y`.
pub open spec fn reachable(x: Seq<char>, y: Seq<char>, steps: nat) -> bool
    decreases steps,
{
    if steps == 0 {
        x == y
    } else {
        exists|mid: Seq<char>| #[trigger]
            one_edit(x, mid) && reachable(mid, y, (steps - 1) as nat)
    }
}

/// The edit distance is the least number of single edits that lead from one text
/// to the other.
pub proof fn law_distance_is_least(a: Seq<char>, b: Seq<char>)
    ensures
        reachable(a, b, edit_distance(a, b)),
        forall|steps: nat| #[trigger] reachable(a, b, steps) ==> edit_distance(a, b) <= steps,
{
    lemma_distance_reachable(a, b);
    assert forall|steps: nat| #[trigger] reachable(a, b, steps) implies edit_distance(a, b)
        <= steps by {
        lemma_distance_bounds_steps(a, b, steps);
    }
}

/// One edit leads no further away than one.
pub proof fn law_one_edit(x: Seq<char>, y: Seq<char>)
    requires
        one_edit(x, y),
    ensures
        edit_distance(x, y) <= 1,
{
    lemma_reachable_then(x, x, y, 0);
    law_distance_is_least(x, y);
}

/// Two texts are at distance zero exactly when they are the same.
pub proof fn law_distance_zero(a: Seq<char>, b: Seq<char>)
    ensures
        edit_distance(a, b) == 0 <==> a == b,
{
    law_distance_is_least(a, b);
    if a == b {
        assert(reachable(a, b, 0));
    }
}

/// The distance is the same in both directions.
pub proof fn law_distance_symmetric(a: Seq<char>, b: Seq<char>)
    ensures
        edit_distance(a, b) == edit_distance(b, a),
    decreases a.len() + b.len(),
{
    if a.len() > 0 && b.len() > 0 {
        law_distance_symmetric(a.drop_last(), b);
        law_distance_symmetric(a, b.drop_last());
        law_distance_symmetric(a.drop_last(), b.drop_last());
    }
}

/// One more character at the end of either text changes the distance by at most
/// one.
proof fn lemma_last_character(a: Seq<char>, c: char, b: Seq<char>)
    ensures
        edit_distance(a.push(c), b) <= edit_distance(a, b) + 1,
        edit_distance(a, b) <= edit_distance(a.push(c), b) + 1,
        edit_distance(a, b.push(c)) <= edit_distance(a, b) + 1,
    decreases b.len(),
{
    assert(a.push(c).drop_last() =~= a);
    assert(b.push(c).drop_last() =~= b);
    if b.len() > 0 {
        let shorter = b.drop_last();
        lemma_last_character(a, c, shorter);
        lemma_last_character_of_second(a, shorter, b.last());
        assert(shorter.push(b.last()) =~= b);
    }
}

proof fn lemma_last_character_of_second(a: Seq<char>, b: Seq<char>, c: char)
    ensures
        edit_distance(a, b.push(c)) <= edit_distance(a, b) + 1,
{
    assert(b.push(c).drop_last() =~= b);
}

/// A single edit of the first text changes the distance by at most one.
proof fn lemma_edit_changes_by_one(
    front: Seq<char>,
    before: Seq<char>,
    after: Seq<char>,
    back: Seq<char>,
    b: Seq<char>,
)
    requires
        before.len() <= 1,
        after.len() <= 1,
    ensures
        edit_distance(front + before + back, b) <= edit_distance(front + after + back, b) + 1,
    decreases back.len(), b.len(),
{
    let x = front + before + back;
    let y = front + after + back;
    if back.len() == 0 {
        assert(x =~= front + before);
        assert(y =~= front + after);
        if before.len() == 1 && after.len() == 1 {
            assert(x =~= front.push(before[0]));
            assert(y =~= front.push(after[0]));
            assert(x.drop_last() =~= front);
            assert(y.drop_last() =~= front);
            if b.len() > 0 {
                lemma_edit_changes_by_one(front, before, after, back, b.drop_last());
            }
        } else if before.len() == 1 {
            assert(x =~= front.push(before[0]));
            assert(y =~= front);
            lemma_last_character(front, before[0], b);
        } else if after.len() == 1 {
            assert(x =~= front);
            assert(y =~= front.push(after[0]));
            lemma_last_character(front, after[0], b);
        } else {
            assert(x =~= y);
        }
    } else {
        let shorter = back.drop_last();
        assert(x.drop_last() =~= front + before + shorter);
        assert(y.drop_last() =~= front + after + shorter);
        assert(x.last() == back.last());
        assert(y.last() == back.last());
        if b.len() > 0 {
            lemma_edit_changes_by_one(front, before, after, shorter, b);
            lemma_edit_changes_by_one(front, before, after, back, b.drop_last());
            lemma_edit_changes_by_one(front, before, after, shorter, b.drop_last());
        }
    }
}

proof fn lemma_distance_bounds_steps(a: Seq<char>, b: Seq<char>, steps: nat)
    requires
        reachable(a, b, steps),
    ensures
        edit_distance(a, b) <= steps,
    decreases steps,
{
    if steps == 0 {
        lemma_distance_to_itself(a);
    } else {
        let mid = choose|mid: Seq<char>| #[trigger]
            one_edit(a, mid) && reachable(mid, b, (steps - 1) as nat);
        lemma_distance_bounds_steps(mid, b, (steps - 1) as nat);
        let (front, before, after, back) = choose|
            front: Seq<char>,
            before: Seq<char>,
            after: Seq<char>,
            back: Seq<char>,
        |
            edited(front, before, after, back, a, mid);
        lemma_edit_changes_by_one(front, before, after, back, b);
    }
}

proof fn lemma_distance_to_itself(a: Seq<char>)
    ensures
        edit_distance(a, a) == 0,
    decreases a.len(),
{
    if a.len() > 0 {
        lemma_distance_to_itself(a.drop_last());
    }
}

/// Editing ahead of a common last character is an edit of the longer text.
proof fn lemma_reachable_push(x: Seq<char>, y: Seq<char>, steps: nat, c: char)
    requires
        reachable(x, y, steps),
    ensures
        reachable(x.push(c), y.push(c), steps),
    decreases steps,
{
    if steps > 0 {
        let mid = choose|mid: Seq<char>| #[trigger]
            one_edit(x, mid) && reachable(mid, y, (steps - 1) as nat);
        lemma_reachable_push(mid, y, (steps - 1) as nat, c);
        let (front, before, after, back) = choose|
            front: Seq<char>,
            before: Seq<char>,
            after: Seq<char>,
            back: Seq<char>,
        |
            edited(front, before, after, back, x, mid);
        assert(x.push(c) =~= front + before + back.push(c));
        assert(mid.push(c) =~= front + after + back.push(c));
        assert(edited(front, before, after, back.push(c), x.push(c), mid.push(c)));
        assert(one_edit(x.push(c), mid.push(c)));
    }
}

/// One more edit at the end of the way.
proof fn lemma_reachable_then(x: Seq<char>, y: Seq<char>, z: Seq<char>, steps: nat)
    requires
        reachable(x, y, steps),
        one_edit(y, z),
    ensures
        reachable(x, z, steps + 1),
    decreases steps,
{
    if steps == 0 {
        assert(reachable(z, z, 0));
        assert(one_edit(x, z));
    } else {
        let mid = choose|mid: Seq<char>| #[trigger]
            one_edit(x, mid) && reachable(mid, y, (steps - 1) as nat);
        lemma_reachable_then(mid, y, z, (steps - 1) as nat);
        assert(one_edit(x, mid) && reachable(mid, z, steps));
    }
}

proof fn lemma_distance_reachable(a: Seq<char>, b: Seq<char>)
    ensures
        reachable(a, b, edit_distance(a, b)),
    decreases a.len() + b.len(),
{
    let none = Seq::<char>::empty();
    if a.len() == 0 {
        if b.len() == 0 {
            assert(a =~= b);
        } else {
            lemma_distance_reachable(a, b.drop_last());
            assert(edited(b.drop_last(), none, seq![b.last()], none, b.drop_last(), b)) by {
                assert(b.drop_last() =~= b.drop_last() + none + none);
                assert(b =~= b.drop_last() + seq![b.last()] + none);
                assert(none.len() != seq![b.last()].len());
            }
            lemma_reachable_then(a, b.drop_last(), b, (b.len() - 1) as nat);
        }
    } else {
        let shorter = a.drop_last();
        assert(one_edit(a, shorter)) by {
            assert(shorter =~= shorter + none + none);
            assert(a =~= shorter + seq![a.last()] + none);
            assert(none.len() != seq![a.last()].len());
            assert(edited(shorter, seq![a.last()], none, none, a, shorter));
        }
        lemma_distance_reachable(shorter, b);
        if b.len() == 0 {
            assert(edit_distance(shorter, b) == a.len() - 1);
        } else {
            let target = b.drop_last();
            lemma_distance_reachable(a, target);
            lemma_distance_reachable(shorter, target);
            let d = edit_distance(a, b);
            if d == edit_distance(shorter, b) + 1 {
            } else if d == edit_distance(a, target) + 1 {
                assert(edited(target, none, seq![b.last()], none, target, b)) by {
                    assert(target =~= target + none + none);
                    assert(b =~= target + seq![b.last()] + none);
                    assert(none.len() != seq![b.last()].len());
                }
                lemma_reachable_then(a, target, b, edit_distance(a, target));
            } else {
                lemma_reachable_push(shorter, target, edit_distance(shorter, target), a.last());
                assert(shorter.push(a.last()) =~= a);
                if a.last() == b.last() {
                    assert(target.push(a.last()) =~= b);
                } else {
                    let near = target.push(a.last());
                    assert(edited(target, seq![a.last()], seq![b.last()], none, near, b)) by {
                        assert(near =~= target + seq![a.last()] + none);
                        assert(b =~= target + seq![b.last()] + none);
                        assert(seq![a.last()][0] != seq![b.last()][0]);
                    }
                    lemma_reachable_then(a, near, b, edit_distance(shorter, target));
                }
            }
        }
    }
}

} // verus!

//! Random choice.

use vstd::prelude::*;

verus! {

/// `rand::random::<usize>()`: a number drawn by the thread's generator;
/// nothing is promised of it.
#[verifier::external_body]
fn random_usize() -> usize {
    rand::random::<usize>()
}

/// The element of `v` that the draw `draw` picks: the one at `draw` modulo
/// the length.
pub fn element_for_draw<T>(v: &[T], draw: usize) -> (e: &T)
    requires
        v@.len() > 0,
    ensures
        *e == v@[draw as int % v@.len() as int],
{
    &v[draw % v.len()]
}

/// Every element of `v` is the pick of some draw, so a draw that ranges over
/// all numbers can give any element.
pub proof fn lemma_every_element_drawable<T>(v: Seq<T>, i: int)
    requires
        0 <= i < v.len(),
        v.len() <= usize::MAX,
    ensures
        exists|draw: usize| #[trigger] v[draw as int % v.len() as int] == v[i],
{
    let d = i as usize;
    assert(d as int == i);
    assert(i % (v.len() as int) == i) by (nonlinear_arith)
        requires
            0 <= i < v.len(),
    ;
    assert(d as int % v.len() as int == i);
    assert(v[d as int % v.len() as int] == v[i]);
}

/// Draws that differ by a multiple of the length pick the same element, and
/// consecutive draws pick consecutive elements, wrapping at the end.
pub proof fn lemma_draw_picks_in_turn<T>(v: Seq<T>, draw: int)
    requires
        v.len() > 0,
        draw >= 0,
    ensures
        (draw + v.len()) % (v.len() as int) == draw % (v.len() as int),
        (draw + 1) % (v.len() as int) == if draw % (v.len() as int) + 1 == v.len() {
            0
        } else {
            draw % (v.len() as int) + 1
        },
{
    let n = v.len() as int;
    assert((draw + n) % n == draw % n) by (nonlinear_arith)
        requires
            n > 0,
            draw >= 0,
    ;
    assert((draw + 1) % n == if draw % n + 1 == n {
        0
    } else {
        draw % n + 1
    }) by (nonlinear_arith)
        requires
            n > 0,
            draw >= 0,
    ;
}

/// Returns a random element of `v`, which must not be empty.
pub fn rand_element<T>(v: &[T]) -> (e: &T)
    requires
        v@.len() > 0,
    ensures
        exists|i: int| 0 <= i < v@.len() && *e == v@[i],
        v@.len() == 1 ==> *e == v@[0],
{
    if v.len() == 1 {
        &v[0]
    } else {
        let draw = random_usize();
        element_for_draw(v, draw)
    }
}

} // verus!

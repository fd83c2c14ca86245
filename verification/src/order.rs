//! Live orders and their remaining-step bookkeeping.
//!
//! An active order is a live instance of a recipe.  It keeps the multiset of
//! steps not yet satisfied: a match-attempt consumes one instance of a
//! matching (ingredient, tool) pair, and the order is complete when nothing
//! remains.  The remaining steps are always a sub-multiset of the recipe's
//! full step list.

use vstd::prelude::*;
use vstd::multiset::Multiset;
use crate::catalog::{Catalog, IngredientId, Recipe, RecipeStep, ToolId};

verus! {

/// A live instance of a recipe being fulfilled.
pub struct ActiveOrder {
    /// Key of this order, unique among live orders; projectiles refer to it.
    pub id: u64,
    /// Which recipe of the catalog this order demands.
    pub recipe_idx: usize,
    /// Steps not yet satisfied, as a list standing for a multiset.
    pub remaining: Vec<RecipeStep>,
}

impl ActiveOrder {
    /// The order refers into the catalog and owes no step its recipe does
    /// not list.
    pub open spec fn wf(self, catalog: Catalog) -> bool {
        &&& self.recipe_idx < catalog.recipes@.len()
        &&& self.remaining@.to_multiset().subset_of(
            catalog.recipes@[self.recipe_idx as int].steps@.to_multiset(),
        )
    }

    /// Open a fresh order: its remaining steps are a full copy of the
    /// recipe's step list, duplicates included.
    pub fn start(id: u64, recipe_idx: usize, recipe: &Recipe) -> (o: ActiveOrder)
        ensures
            o.id == id,
            o.recipe_idx == recipe_idx,
            o.remaining@ == recipe.steps@,
            o.remaining@.to_multiset() == recipe.steps@.to_multiset(),
    {
        let mut remaining: Vec<RecipeStep> = Vec::new();
        let mut i: usize = 0;
        while i < recipe.steps.len()
            invariant
                i <= recipe.steps@.len(),
                remaining@ == recipe.steps@.take(i as int),
            decreases recipe.steps@.len() - i,
        {
            let s = recipe.steps[i];
            remaining.push(s);
            proof {
                assert(remaining@ =~= recipe.steps@.take(i + 1));
            }
            i = i + 1;
        }
        proof {
            assert(remaining@ =~= recipe.steps@);
        }
        ActiveOrder { id, recipe_idx, remaining }
    }

    /// Try to consume one remaining step equal to (ingredient, tool).
    ///
    /// Succeeds exactly when the pair is among the remaining steps; then one
    /// instance of it (the first in list order) is removed.  A pair that
    /// does not appear leaves the remaining steps untouched.
    pub fn consume_step(&mut self, ingredient: IngredientId, tool: ToolId) -> (matched: bool)
        ensures
            final(self).id == old(self).id,
            final(self).recipe_idx == old(self).recipe_idx,
            matched == old(self).remaining@.to_multiset().contains(
                (RecipeStep { ingredient, tool }),
            ),
            matched ==> final(self).remaining@.to_multiset() == old(
                self,
            ).remaining@.to_multiset().remove((RecipeStep { ingredient, tool })),
            matched ==> final(self).remaining@.len() == old(self).remaining@.len() - 1,
            !matched ==> *final(self) == *old(self),
            forall|s: RecipeStep|
                #[trigger] final(self).remaining@.to_multiset().count(s) <= old(
                    self,
                ).remaining@.to_multiset().count(s),
    {
        broadcast use vstd::seq_lib::group_to_multiset_ensures;

        let target = RecipeStep { ingredient, tool };
        match find_step(&self.remaining, target) {
            Some(i) => {
                self.remaining.remove(i);
                proof {
                    assert(old(self).remaining@.contains(target));
                    assert(old(self).remaining@.to_multiset().count(target) > 0);
                    assert(self.remaining@ == old(self).remaining@.remove(i as int));
                    assert(self.remaining@.to_multiset() == old(
                        self,
                    ).remaining@.to_multiset().remove(target));
                }
                true
            },
            None => {
                proof {
                    assert(!old(self).remaining@.contains(target));
                }
                false
            },
        }
    }
}

/// Index of the first occurrence of `target` among the remaining steps.
fn find_step(steps: &Vec<RecipeStep>, target: RecipeStep) -> (r: Option<usize>)
    ensures
        match r {
            Some(i) => i < steps@.len() && steps@[i as int] == target && forall|j: int|
                0 <= j < i ==> steps@[j] != target,
            None => forall|j: int| 0 <= j < steps@.len() ==> steps@[j] != target,
        },
{
    let n = steps.len();
    let mut i: usize = 0;
    while i < n
        invariant
            i <= n,
            n == steps@.len(),
            forall|j: int| 0 <= j < i ==> steps@[j] != target,
        decreases n - i,
    {
        if steps[i] == target {
            return Some(i);
        }
        i = i + 1;
    }
    None
}

/// The remaining multiset left after attempting, first to last, each step
/// of `attempts` in turn.
pub open spec fn consume_all(m: Multiset<RecipeStep>, attempts: Seq<RecipeStep>) -> Multiset<
    RecipeStep,
>
    decreases attempts.len(),
{
    if attempts.len() == 0 {
        m
    } else {
        consume_all(m.remove(attempts[0]), attempts.drop_first())
    }
}

/// Each attempt in turn finds its pair among the steps still remaining.
pub open spec fn all_attempts_match(m: Multiset<RecipeStep>, attempts: Seq<RecipeStep>) -> bool
    decreases attempts.len(),
{
    ||| attempts.len() == 0
    ||| (m.contains(attempts[0]) && all_attempts_match(m.remove(attempts[0]), attempts.drop_first()))
}

/// Law: any sequence of match-attempts that covers the remaining steps of
/// an order exactly once — in whatever order — finds every attempted pair
/// present and leaves the order with no remaining steps, so the order
/// completes.
pub proof fn lemma_full_cover_completes(m: Multiset<RecipeStep>, attempts: Seq<RecipeStep>)
    requires
        attempts.to_multiset() == m,
    ensures
        all_attempts_match(m, attempts),
        consume_all(m, attempts).len() == 0,
    decreases attempts.len(),
{
    broadcast use vstd::seq_lib::group_to_multiset_ensures;

    if attempts.len() == 0 {
    } else {
        let a0 = attempts[0];
        assert(attempts.contains(a0));
        assert(attempts.remove(0) =~= attempts.drop_first());
        assert(attempts.drop_first().to_multiset() == m.remove(a0));
        lemma_full_cover_completes(m.remove(a0), attempts.drop_first());
    }
}

} // verus!

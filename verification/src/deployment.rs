//! Pre-battle deployment: which players have placed their Command Post and
//! confirmed.

use vstd::prelude::*;
use crate::ecs::entity::Entity;

verus! {

/// Whether every player has confirmed.
pub open spec fn everyone_confirmed(confirmed: Seq<bool>) -> bool {
    forall|i: int| 0 <= i < confirmed.len() ==> #[trigger] confirmed[i]
}

/// Returns true if all players have confirmed deployment.
pub fn all_confirmed(confirmed: &[bool]) -> (b: bool)
    ensures
        b == everyone_confirmed(confirmed@),
{
    let mut i: usize = 0;
    while i < confirmed.len()
        invariant
            i <= confirmed@.len(),
            forall|q: int| 0 <= q < i ==> #[trigger] confirmed@[q],
        decreases confirmed@.len() - i,
    {
        if !confirmed[i] {
            return false;
        }
        i += 1;
    }
    true
}

/// Returns true if a specific player has confirmed.
pub fn is_confirmed(confirmed: &[bool], player_id: u8) -> (b: bool)
    ensures
        b == (player_id < confirmed@.len() && confirmed@[player_id as int]),
{
    if (player_id as usize) < confirmed.len() {
        confirmed[player_id as usize]
    } else {
        false
    }
}

/// Whether `player_id` has placed its Command Post.
pub open spec fn has_deployed(command_posts: Seq<Option<Entity>>, player_id: u8) -> bool {
    player_id < command_posts.len() && command_posts[player_id as int] is Some
}

/// Records the confirmation of `player_id`, which counts only once its
/// Command Post is placed. Returns `None` when it was ignored, else whether
/// every player has now confirmed (the battle then starts).
pub fn confirm_deployment(confirmed: &mut Vec<bool>, command_posts: &[Option<Entity>], player_id: u8) -> (r: Option<bool>)
    requires
        has_deployed(command_posts@, player_id) ==> player_id < old(confirmed)@.len(),
    ensures
        !has_deployed(command_posts@, player_id) ==> r is None && final(confirmed)@ == old(confirmed)@,
        has_deployed(command_posts@, player_id) ==> {
            &&& final(confirmed)@ == old(confirmed)@.update(player_id as int, true)
            &&& r == Some(everyone_confirmed(final(confirmed)@))
        },
{
    let deployed = (player_id as usize) < command_posts.len() && command_posts[player_id as usize].is_some();
    if !deployed {
        return None;
    }
    confirmed.set(player_id as usize, true);
    Some(all_confirmed(confirmed))
}

/// The confirmation of the last player who had not confirmed, once its
/// Command Post is placed, starts the battle; a confirmation while another
/// player has not confirmed does not.
pub proof fn law_last_confirmation_starts_battle(confirmed: Seq<bool>, command_posts: Seq<Option<Entity>>, p: u8)
    requires
        has_deployed(command_posts, p),
        p < confirmed.len(),
    ensures
        everyone_confirmed(confirmed.update(p as int, true)) <==> (forall|i: int|
            0 <= i < confirmed.len() && i != p ==> #[trigger] confirmed[i]),
{
    let after = confirmed.update(p as int, true);
    if forall|i: int| 0 <= i < confirmed.len() && i != p ==> #[trigger] confirmed[i] {
        assert forall|i: int| 0 <= i < after.len() implies #[trigger] after[i] by {
            if i != p {
                assert(confirmed[i]);
            }
        }
    }
    if everyone_confirmed(after) {
        assert forall|i: int| 0 <= i < confirmed.len() && i != p implies #[trigger] confirmed[i] by {
            assert(after[i]);
        }
    }
}

} // verus!

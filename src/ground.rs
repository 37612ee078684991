use vstd::prelude::*;

use crate::world::{involves, Contact, EntityId};

verus! {

/// The platforms, in the order given, that a started contact between `a` and
/// `b` lands the player on: each platform once for each side it stands on.
pub open spec fn landings_among(platforms: Seq<EntityId>, a: EntityId, b: EntityId) -> Seq<EntityId>
    decreases platforms.len(),
{
    if platforms.len() == 0 {
        Seq::empty()
    } else {
        let p = platforms.last();
        landings_among(platforms.drop_last(), a, b) + (if p == b {
            seq![p]
        } else {
            Seq::empty()
        }) + (if p == a {
            seq![p]
        } else {
            Seq::empty()
        })
    }
}

/// The landings that one contact reports: only a contact that starts at the
/// ground sensor lands the player.
pub open spec fn contact_landings(c: Contact, sensor: EntityId, platforms: Seq<EntityId>) -> Seq<
    EntityId,
> {
    match c {
        Contact::Started(a, b) => if involves(a, b, sensor) {
            landings_among(platforms, a, b)
        } else {
            Seq::empty()
        },
        Contact::Stopped(_, _) => Seq::empty(),
    }
}

/// All landings that a frame's contacts report, in order.
pub open spec fn landings(contacts: Seq<Contact>, sensor: EntityId, platforms: Seq<EntityId>) -> Seq<
    EntityId,
>
    decreases contacts.len(),
{
    if contacts.len() == 0 {
        Seq::empty()
    } else {
        landings(contacts.drop_last(), sensor, platforms) + contact_landings(
            contacts.last(),
            sensor,
            platforms,
        )
    }
}

/// Whether the player stands on ground after a frame's contacts: a contact
/// that starts at the sensor grounds it, one that stops there lifts it, and the
/// last such contact decides.
pub open spec fn grounded_after(contacts: Seq<Contact>, sensor: EntityId, grounded: bool) -> bool
    decreases contacts.len(),
{
    if contacts.len() == 0 {
        grounded
    } else {
        let g = grounded_after(contacts.drop_last(), sensor, grounded);
        match contacts.last() {
            Contact::Started(a, b) => g || involves(a, b, sensor),
            Contact::Stopped(a, b) => g && !involves(a, b, sensor),
        }
    }
}

/// What a frame of contacts does to the player's footing.
pub struct Grounding {
    /// Whether the player may jump.
    pub grounded: bool,
    /// The platforms landed on, one entry for each landing.
    pub landed: Vec<EntityId>,
}

/// Each landing that a started contact reports is one of the platforms.
pub proof fn lemma_landings_among_are_platforms(platforms: Seq<EntityId>, a: EntityId, b: EntityId)
    ensures
        forall|k: int|
            0 <= k < landings_among(platforms, a, b).len() ==> platforms.contains(
                #[trigger] landings_among(platforms, a, b)[k],
            ),
    decreases platforms.len(),
{
    if platforms.len() > 0 {
        let init = platforms.drop_last();
        lemma_landings_among_are_platforms(init, a, b);
        let s = landings_among(platforms, a, b);
        let t = landings_among(init, a, b);
        assert forall|k: int| 0 <= k < s.len() implies platforms.contains(s[k]) by {
            if k < t.len() {
                assert(s[k] == t[k]);
                assert(init.contains(t[k]));
                let j = choose|j: int| 0 <= j < init.len() && init[j] == t[k];
                assert(platforms[j] == init[j]);
            } else {
                assert(s[k] == platforms.last());
                assert(platforms[platforms.len() - 1] == s[k]);
            }
        }
    }
}

/// The player lands only on the platforms it is told of: every landing of a
/// frame is one of them.
pub proof fn lemma_landings_are_platforms(
    contacts: Seq<Contact>,
    sensor: EntityId,
    platforms: Seq<EntityId>,
)
    ensures
        forall|k: int|
            0 <= k < landings(contacts, sensor, platforms).len() ==> platforms.contains(
                #[trigger] landings(contacts, sensor, platforms)[k],
            ),
    decreases contacts.len(),
{
    if contacts.len() > 0 {
        lemma_landings_are_platforms(contacts.drop_last(), sensor, platforms);
        let s = landings(contacts, sensor, platforms);
        let t = landings(contacts.drop_last(), sensor, platforms);
        let u = contact_landings(contacts.last(), sensor, platforms);
        match contacts.last() {
            Contact::Started(a, b) => {
                lemma_landings_among_are_platforms(platforms, a, b);
            },
            Contact::Stopped(_, _) => {},
        }
        assert forall|k: int| 0 <= k < s.len() implies platforms.contains(s[k]) by {
            if k < t.len() {
                assert(s[k] == t[k]);
            } else {
                assert(s[k] == u[k - t.len()]);
            }
        }
    }
}

fn push_landings(platforms: &Vec<EntityId>, a: EntityId, b: EntityId, out: &mut Vec<EntityId>)
    ensures
        final(out)@ == old(out)@ + landings_among(platforms@, a, b),
{
    let mut i: usize = 0;
    while i < platforms.len()
        invariant
            i <= platforms.len(),
            out@ == old(out)@ + landings_among(platforms@.take(i as int), a, b),
        decreases platforms.len() - i,
    {
        let p = platforms[i];
        let ghost before = out@;
        assert(platforms@.take(i + 1).drop_last() =~= platforms@.take(i as int));
        if p == b {
            out.push(p);
        }
        if p == a {
            out.push(p);
        }
        i = i + 1;
        assert(out@ =~= old(out)@ + landings_among(platforms@.take(i as int), a, b));
    }
    assert(platforms@.take(i as int) =~= platforms@);
}

/// Runs a frame's contacts past the ground sensor: the player is grounded by
/// a contact that starts at the sensor and lifted by one that stops there, and
/// each platform among `platforms` that such a starting contact touches is
/// reported as landed on.
pub fn ground_player(
    sensor: EntityId,
    platforms: &Vec<EntityId>,
    contacts: &Vec<Contact>,
    grounded: bool,
) -> (r: Grounding)
    ensures
        r.grounded == grounded_after(contacts@, sensor, grounded),
        r.landed@ == landings(contacts@, sensor, platforms@),
{
    let mut on_ground = grounded;
    let mut landed: Vec<EntityId> = Vec::new();
    let mut i: usize = 0;
    while i < contacts.len()
        invariant
            i <= contacts.len(),
            on_ground == grounded_after(contacts@.take(i as int), sensor, grounded),
            landed@ == landings(contacts@.take(i as int), sensor, platforms@),
        decreases contacts.len() - i,
    {
        assert(contacts@.take(i + 1).drop_last() =~= contacts@.take(i as int));
        assert(contacts@.take(i + 1).last() == contacts@[i as int]);
        match contacts[i] {
            Contact::Started(a, b) => {
                if a == sensor || b == sensor {
                    push_landings(platforms, a, b, &mut landed);
                    on_ground = true;
                } else {
                    assert(landed@ =~= landed@ + Seq::<EntityId>::empty());
                }
            },
            Contact::Stopped(a, b) => {
                if a == sensor || b == sensor {
                    on_ground = false;
                }
                assert(landed@ =~= landed@ + Seq::<EntityId>::empty());
            },
        }
        i = i + 1;
    }
    assert(contacts@.take(i as int) =~= contacts@);
    Grounding { grounded: on_ground, landed }
}

} // verus!

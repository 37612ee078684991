use vstd::prelude::*;

use crate::world::{is_pair, Contact, EntityId};

verus! {

/// A pair of arms and the hitbox with which it grabs.
#[derive(Clone, Copy, Debug, PartialEq, Eq, Structural)]
pub struct Grabber {
    pub arms: EntityId,
    pub hitbox: EntityId,
}

/// Something a rocket can hit, and what is removed when one does: the
/// holder that carries it, if any, else the target itself.
#[derive(Clone, Copy, Debug, PartialEq, Eq, Structural)]
pub struct RocketTarget {
    pub entity: EntityId,
    pub holder: Option<EntityId>,
}

/// What a hit on `t` removes.
pub open spec fn hit_victim(t: RocketTarget) -> EntityId {
    match t.holder {
        Some(h) => h,
        None => t.entity,
    }
}

/// The arms, in order, that a contact starting between `a` and `b` makes
/// grab `target`: once for each order in which the two meet.
pub open spec fn grabs_in(grabbers: Seq<Grabber>, a: EntityId, b: EntityId, target: EntityId) -> Seq<
    EntityId,
>
    decreases grabbers.len(),
{
    if grabbers.len() == 0 {
        Seq::empty()
    } else {
        let g = grabbers.last();
        grabs_in(grabbers.drop_last(), a, b, target) + (if a == target && b == g.hitbox {
            seq![g.arms]
        } else {
            Seq::empty()
        }) + (if b == target && a == g.hitbox {
            seq![g.arms]
        } else {
            Seq::empty()
        })
    }
}

/// All grabs that a frame's contacts make.
pub open spec fn grabs(contacts: Seq<Contact>, grabbers: Seq<Grabber>, target: EntityId) -> Seq<
    EntityId,
>
    decreases contacts.len(),
{
    if contacts.len() == 0 {
        Seq::empty()
    } else {
        grabs(contacts.drop_last(), grabbers, target) + match contacts.last() {
            Contact::Started(a, b) => grabs_in(grabbers, a, b, target),
            Contact::Stopped(_, _) => Seq::empty(),
        }
    }
}

/// `x` is the arms of one of `grabbers`.
pub open spec fn is_arms_of(grabbers: Seq<Grabber>, x: EntityId) -> bool {
    exists|j: int| 0 <= j < grabbers.len() && grabbers[j].arms == x
}

/// `x` is what a hit on one of `targets` removes.
pub open spec fn is_victim_of(targets: Seq<RocketTarget>, x: EntityId) -> bool {
    exists|j: int| 0 <= j < targets.len() && hit_victim(targets[j]) == x
}

proof fn lemma_grabs_in_are_arms(grabbers: Seq<Grabber>, a: EntityId, b: EntityId, target: EntityId)
    ensures
        forall|k: int|
            0 <= k < grabs_in(grabbers, a, b, target).len() ==> is_arms_of(
                grabbers,
                #[trigger] grabs_in(grabbers, a, b, target)[k],
            ),
    decreases grabbers.len(),
{
    if grabbers.len() > 0 {
        let init = grabbers.drop_last();
        lemma_grabs_in_are_arms(init, a, b, target);
        let s = grabs_in(grabbers, a, b, target);
        let t = grabs_in(init, a, b, target);
        assert forall|k: int| 0 <= k < s.len() implies is_arms_of(grabbers, s[k]) by {
            if k < t.len() {
                assert(s[k] == t[k]);
                assert(is_arms_of(init, t[k]));
                let j = choose|j: int| 0 <= j < init.len() && init[j].arms == t[k];
                assert(grabbers[j] == init[j]);
            } else {
                assert(s[k] == grabbers.last().arms);
                assert(grabbers[grabbers.len() - 1].arms == s[k]);
            }
        }
    }
}

/// Only arms that are told of grab: every grab of a frame names the arms of
/// one of `grabbers`.
pub proof fn lemma_grabs_are_arms(contacts: Seq<Contact>, grabbers: Seq<Grabber>, target: EntityId)
    ensures
        forall|k: int|
            0 <= k < grabs(contacts, grabbers, target).len() ==> is_arms_of(
                grabbers,
                #[trigger] grabs(contacts, grabbers, target)[k],
            ),
    decreases contacts.len(),
{
    if contacts.len() > 0 {
        lemma_grabs_are_arms(contacts.drop_last(), grabbers, target);
        let s = grabs(contacts, grabbers, target);
        let t = grabs(contacts.drop_last(), grabbers, target);
        let u = match contacts.last() {
            Contact::Started(a, b) => grabs_in(grabbers, a, b, target),
            Contact::Stopped(_, _) => Seq::empty(),
        };
        match contacts.last() {
            Contact::Started(a, b) => lemma_grabs_in_are_arms(grabbers, a, b, target),
            Contact::Stopped(_, _) => {},
        }
        assert forall|k: int| 0 <= k < s.len() implies is_arms_of(grabbers, s[k]) by {
            if k < t.len() {
                assert(s[k] == t[k]);
            } else {
                assert(s[k] == u[k - t.len()]);
            }
        }
    }
}

fn push_grabs(
    grabbers: &Vec<Grabber>,
    a: EntityId,
    b: EntityId,
    target: EntityId,
    out: &mut Vec<EntityId>,
)
    ensures
        final(out)@ == old(out)@ + grabs_in(grabbers@, a, b, target),
{
    let mut i: usize = 0;
    while i < grabbers.len()
        invariant
            i <= grabbers.len(),
            out@ == old(out)@ + grabs_in(grabbers@.take(i as int), a, b, target),
        decreases grabbers.len() - i,
    {
        let g = grabbers[i];
        assert(grabbers@.take(i + 1).drop_last() =~= grabbers@.take(i as int));
        if a == target && b == g.hitbox {
            out.push(g.arms);
        }
        if b == target && a == g.hitbox {
            out.push(g.arms);
        }
        i = i + 1;
        assert(out@ =~= old(out)@ + grabs_in(grabbers@.take(i as int), a, b, target));
    }
    assert(grabbers@.take(i as int) =~= grabbers@);
}

/// The arms that grab `target` in a frame: one entry for each contact that
/// starts between the target and the arms' hitbox, in the order of the
/// contacts and then of `grabbers`.
pub fn grab_target(contacts: &Vec<Contact>, grabbers: &Vec<Grabber>, target: EntityId) -> (r: Vec<
    EntityId,
>)
    ensures
        r@ == grabs(contacts@, grabbers@, target),
{
    let mut out: Vec<EntityId> = Vec::new();
    let mut i: usize = 0;
    while i < contacts.len()
        invariant
            i <= contacts.len(),
            out@ == grabs(contacts@.take(i as int), grabbers@, target),
        decreases contacts.len() - i,
    {
        assert(contacts@.take(i + 1).drop_last() =~= contacts@.take(i as int));
        match contacts[i] {
            Contact::Started(a, b) => push_grabs(grabbers, a, b, target, &mut out),
            Contact::Stopped(_, _) => {
                assert(out@ =~= out@ + Seq::<EntityId>::empty());
            },
        }
        i = i + 1;
    }
    assert(contacts@.take(i as int) =~= contacts@);
    out
}

/// What the rockets do to one target in a contact between `a` and `b`: one
/// removal for each rocket that the contact pairs with the target.
pub open spec fn target_hits(t: RocketTarget, rockets: Seq<EntityId>, a: EntityId, b: EntityId) -> Seq<
    EntityId,
>
    decreases rockets.len(),
{
    if rockets.len() == 0 {
        Seq::empty()
    } else {
        target_hits(t, rockets.drop_last(), a, b) + (if is_pair(a, b, t.entity, rockets.last()) {
            seq![hit_victim(t)]
        } else {
            Seq::empty()
        })
    }
}

/// What a contact between `a` and `b` removes, target by target.
pub open spec fn contact_hits(
    targets: Seq<RocketTarget>,
    rockets: Seq<EntityId>,
    a: EntityId,
    b: EntityId,
) -> Seq<EntityId>
    decreases targets.len(),
{
    if targets.len() == 0 {
        Seq::empty()
    } else {
        contact_hits(targets.drop_last(), rockets, a, b) + target_hits(targets.last(), rockets, a, b)
    }
}

/// What a frame's contacts remove: only started contacts count.
pub open spec fn rocket_hits(
    contacts: Seq<Contact>,
    targets: Seq<RocketTarget>,
    rockets: Seq<EntityId>,
) -> Seq<EntityId>
    decreases contacts.len(),
{
    if contacts.len() == 0 {
        Seq::empty()
    } else {
        rocket_hits(contacts.drop_last(), targets, rockets) + match contacts.last() {
            Contact::Started(a, b) => contact_hits(targets, rockets, a, b),
            Contact::Stopped(_, _) => Seq::empty(),
        }
    }
}

proof fn lemma_target_hits_are_victim(t: RocketTarget, rockets: Seq<EntityId>, a: EntityId, b: EntityId)
    ensures
        forall|k: int|
            0 <= k < target_hits(t, rockets, a, b).len() ==> #[trigger] target_hits(
                t,
                rockets,
                a,
                b,
            )[k] == hit_victim(t),
    decreases rockets.len(),
{
    if rockets.len() > 0 {
        lemma_target_hits_are_victim(t, rockets.drop_last(), a, b);
        let s = target_hits(t, rockets, a, b);
        let u = target_hits(t, rockets.drop_last(), a, b);
        assert forall|k: int| 0 <= k < s.len() implies s[k] == hit_victim(t) by {
            if k < u.len() {
                assert(s[k] == u[k]);
            }
        }
    }
}

proof fn lemma_contact_hits_are_victims(
    targets: Seq<RocketTarget>,
    rockets: Seq<EntityId>,
    a: EntityId,
    b: EntityId,
)
    ensures
        forall|k: int|
            0 <= k < contact_hits(targets, rockets, a, b).len() ==> is_victim_of(
                targets,
                #[trigger] contact_hits(targets, rockets, a, b)[k],
            ),
    decreases targets.len(),
{
    if targets.len() > 0 {
        let init = targets.drop_last();
        lemma_contact_hits_are_victims(init, rockets, a, b);
        lemma_target_hits_are_victim(targets.last(), rockets, a, b);
        let s = contact_hits(targets, rockets, a, b);
        let t = contact_hits(init, rockets, a, b);
        let u = target_hits(targets.last(), rockets, a, b);
        assert forall|k: int| 0 <= k < s.len() implies is_victim_of(targets, s[k]) by {
            if k < t.len() {
                assert(s[k] == t[k]);
                assert(is_victim_of(init, t[k]));
                let j = choose|j: int| 0 <= j < init.len() && hit_victim(init[j]) == t[k];
                assert(targets[j] == init[j]);
            } else {
                assert(s[k] == u[k - t.len()]);
                assert(hit_victim(targets[targets.len() - 1]) == s[k]);
            }
        }
    }
}

/// Rockets remove nothing but what a hit on one of `targets` removes: the
/// target's holder, or the target itself.
pub proof fn lemma_rocket_hits_are_victims(
    contacts: Seq<Contact>,
    targets: Seq<RocketTarget>,
    rockets: Seq<EntityId>,
)
    ensures
        forall|k: int|
            0 <= k < rocket_hits(contacts, targets, rockets).len() ==> is_victim_of(
                targets,
                #[trigger] rocket_hits(contacts, targets, rockets)[k],
            ),
    decreases contacts.len(),
{
    if contacts.len() > 0 {
        lemma_rocket_hits_are_victims(contacts.drop_last(), targets, rockets);
        let s = rocket_hits(contacts, targets, rockets);
        let t = rocket_hits(contacts.drop_last(), targets, rockets);
        let u = match contacts.last() {
            Contact::Started(a, b) => contact_hits(targets, rockets, a, b),
            Contact::Stopped(_, _) => Seq::empty(),
        };
        match contacts.last() {
            Contact::Started(a, b) => lemma_contact_hits_are_victims(targets, rockets, a, b),
            Contact::Stopped(_, _) => {},
        }
        assert forall|k: int| 0 <= k < s.len() implies is_victim_of(targets, s[k]) by {
            if k < t.len() {
                assert(s[k] == t[k]);
            } else {
                assert(s[k] == u[k - t.len()]);
            }
        }
    }
}

fn push_target_hits(
    t: RocketTarget,
    rockets: &Vec<EntityId>,
    a: EntityId,
    b: EntityId,
    out: &mut Vec<EntityId>,
)
    ensures
        final(out)@ == old(out)@ + target_hits(t, rockets@, a, b),
{
    let victim = match t.holder {
        Some(h) => h,
        None => t.entity,
    };
    let mut i: usize = 0;
    while i < rockets.len()
        invariant
            i <= rockets.len(),
            victim == hit_victim(t),
            out@ == old(out)@ + target_hits(t, rockets@.take(i as int), a, b),
        decreases rockets.len() - i,
    {
        let r = rockets[i];
        assert(rockets@.take(i + 1).drop_last() =~= rockets@.take(i as int));
        if (a == t.entity && b == r) || (b == t.entity && a == r) {
            out.push(victim);
        }
        i = i + 1;
        assert(out@ =~= old(out)@ + target_hits(t, rockets@.take(i as int), a, b));
    }
    assert(rockets@.take(i as int) =~= rockets@);
}

fn push_contact_hits(
    targets: &Vec<RocketTarget>,
    rockets: &Vec<EntityId>,
    a: EntityId,
    b: EntityId,
    out: &mut Vec<EntityId>,
)
    ensures
        final(out)@ == old(out)@ + contact_hits(targets@, rockets@, a, b),
{
    let mut i: usize = 0;
    while i < targets.len()
        invariant
            i <= targets.len(),
            out@ == old(out)@ + contact_hits(targets@.take(i as int), rockets@, a, b),
        decreases targets.len() - i,
    {
        assert(targets@.take(i + 1).drop_last() =~= targets@.take(i as int));
        push_target_hits(targets[i], rockets, a, b, out);
        i = i + 1;
        assert(out@ =~= old(out)@ + contact_hits(targets@.take(i as int), rockets@, a, b));
    }
    assert(targets@.take(i as int) =~= targets@);
}

/// What the rockets remove in a frame: for each contact that starts between
/// a target and a rocket, the target's holder, or the target where it has
/// none; in the order of the contacts, then of `targets`, then of `rockets`.
pub fn handle_rocket_hit(
    contacts: &Vec<Contact>,
    targets: &Vec<RocketTarget>,
    rockets: &Vec<EntityId>,
) -> (r: Vec<EntityId>)
    ensures
        r@ == rocket_hits(contacts@, targets@, rockets@),
{
    let mut out: Vec<EntityId> = Vec::new();
    let mut i: usize = 0;
    while i < contacts.len()
        invariant
            i <= contacts.len(),
            out@ == rocket_hits(contacts@.take(i as int), targets@, rockets@),
        decreases contacts.len() - i,
    {
        assert(contacts@.take(i + 1).drop_last() =~= contacts@.take(i as int));
        match contacts[i] {
            Contact::Started(a, b) => push_contact_hits(targets, rockets, a, b, &mut out),
            Contact::Stopped(_, _) => {
                assert(out@ =~= out@ + Seq::<EntityId>::empty());
            },
        }
        i = i + 1;
    }
    assert(contacts@.take(i as int) =~= contacts@);
    out
}

} // verus!

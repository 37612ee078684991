use cupcake_platformer::{ground_player, Contact, EntityId};

fn e(n: u64) -> EntityId {
    EntityId(n)
}

#[test]
fn started_contact_at_sensor_lands_on_platform() {
    let r = ground_player(e(1), &vec![e(10), e(11)], &vec![Contact::Started(e(1), e(11))], false);
    assert!(r.grounded);
    assert_eq!(r.landed, vec![e(11)]);
}

#[test]
fn sensor_on_either_side_counts() {
    let r = ground_player(e(1), &vec![e(10)], &vec![Contact::Started(e(10), e(1))], false);
    assert!(r.grounded);
    assert_eq!(r.landed, vec![e(10)]);
}

#[test]
fn contact_with_something_else_grounds_without_landing() {
    let r = ground_player(e(1), &vec![e(10)], &vec![Contact::Started(e(1), e(99))], false);
    assert!(r.grounded);
    assert!(r.landed.is_empty());
}

#[test]
fn contact_away_from_sensor_changes_nothing() {
    let r = ground_player(e(1), &vec![e(10)], &vec![Contact::Started(e(5), e(10))], false);
    assert!(!r.grounded);
    assert!(r.landed.is_empty());
    let r = ground_player(e(1), &vec![e(10)], &vec![Contact::Stopped(e(5), e(10))], true);
    assert!(r.grounded);
}

#[test]
fn stopped_contact_lifts_player() {
    let r = ground_player(e(1), &vec![e(10)], &vec![Contact::Stopped(e(1), e(10))], true);
    assert!(!r.grounded);
    assert!(r.landed.is_empty());
}

#[test]
fn last_contact_at_sensor_decides() {
    let contacts = vec![
        Contact::Started(e(1), e(10)),
        Contact::Stopped(e(10), e(1)),
        Contact::Started(e(11), e(1)),
    ];
    let r = ground_player(e(1), &vec![e(10), e(11)], &contacts, false);
    assert!(r.grounded);
    assert_eq!(r.landed, vec![e(10), e(11)]);
    let r = ground_player(e(1), &vec![e(10), e(11)], &contacts[..2].to_vec(), false);
    assert!(!r.grounded);
    assert_eq!(r.landed, vec![e(10)]);
}

#[test]
fn no_contacts_keep_footing() {
    assert!(ground_player(e(1), &vec![], &vec![], true).grounded);
    assert!(!ground_player(e(1), &vec![], &vec![], false).grounded);
}

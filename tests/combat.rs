use cupcake_platformer::{grab_target, handle_rocket_hit, Contact, EntityId, Grabber, RocketTarget};

fn e(n: u64) -> EntityId {
    EntityId(n)
}

#[test]
fn hitbox_touching_target_grabs() {
    let arms = vec![Grabber { arms: e(20), hitbox: e(21) }, Grabber { arms: e(30), hitbox: e(31) }];
    let contacts = vec![Contact::Started(e(1), e(31))];
    assert_eq!(grab_target(&contacts, &arms, e(1)), vec![e(30)]);
    let contacts = vec![Contact::Started(e(21), e(1))];
    assert_eq!(grab_target(&contacts, &arms, e(1)), vec![e(20)]);
}

#[test]
fn other_contacts_grab_nothing() {
    let arms = vec![Grabber { arms: e(20), hitbox: e(21) }];
    let contacts = vec![
        Contact::Stopped(e(1), e(21)),
        Contact::Started(e(2), e(21)),
        Contact::Started(e(1), e(20)),
    ];
    assert!(grab_target(&contacts, &arms, e(1)).is_empty());
    assert!(grab_target(&vec![], &arms, e(1)).is_empty());
}

#[test]
fn rocket_hit_removes_holder_or_target() {
    let targets = vec![
        RocketTarget { entity: e(5), holder: Some(e(50)) },
        RocketTarget { entity: e(6), holder: None },
    ];
    let rockets = vec![e(100), e(101)];
    let contacts = vec![
        Contact::Started(e(100), e(5)),
        Contact::Started(e(6), e(101)),
        Contact::Stopped(e(6), e(100)),
        Contact::Started(e(6), e(7)),
    ];
    assert_eq!(handle_rocket_hit(&contacts, &targets, &rockets), vec![e(50), e(6)]);
}

#[test]
fn no_rockets_hit_nothing() {
    let targets = vec![RocketTarget { entity: e(5), holder: None }];
    let contacts = vec![Contact::Started(e(100), e(5))];
    assert!(handle_rocket_hit(&contacts, &targets, &vec![]).is_empty());
    assert!(handle_rocket_hit(&contacts, &vec![], &vec![e(100)]).is_empty());
}

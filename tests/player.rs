use blockworld::player::{ground_event, player_eye, CollisionEvent, PlayerStatus, SeenObject, SightError};

#[test]
fn eye_marks_the_hit_entity() {
    let mut seen = SeenObject::new();
    assert_eq!(player_eye(&mut seen, true, Some(42)), Ok(()));
    assert_eq!(seen.entity, Some(42));
    assert_eq!(player_eye(&mut seen, true, Some(43)), Ok(()));
    assert_eq!(seen.entity, Some(43));
}

#[test]
fn eye_clears_marker_when_nothing_is_hit() {
    let mut seen = SeenObject { entity: Some(42) };
    assert_eq!(player_eye(&mut seen, true, None), Ok(()));
    assert_eq!(seen.entity, None);
}

#[test]
fn eye_without_agent_is_a_no_op() {
    let mut seen = SeenObject { entity: Some(42) };
    assert_eq!(player_eye(&mut seen, false, Some(7)), Err(SightError::MissingAgent));
    assert_eq!(seen.entity, Some(42));
}

#[test]
fn ground_contacts_follow_events() {
    let mut status = PlayerStatus::new();
    assert!(!status.on_ground());
    ground_event(&mut status, &vec![CollisionEvent::Started(1), CollisionEvent::Started(2)]);
    assert!(status.on_ground());
    assert!(status.touches(1) && status.touches(2));
    ground_event(&mut status, &vec![CollisionEvent::Stopped(1)]);
    assert!(status.on_ground());
    assert!(!status.touches(1));
    ground_event(&mut status, &vec![CollisionEvent::Stopped(2), CollisionEvent::Stopped(9)]);
    assert!(!status.on_ground());
    ground_event(&mut status, &vec![CollisionEvent::Started(3), CollisionEvent::Stopped(3)]);
    assert!(!status.on_ground());
    ground_event(&mut status, &vec![]);
    assert!(!status.on_ground());
}

use serial_keel::broker::Broker;
use serial_keel::endpoint::EndpointLabel;
use serial_keel::holdings::Holdings;
use serial_keel::user::User;

#[test]
fn holdings_note_each_endpoint_once() {
    let mut holdings = Holdings::new();
    let a = User::new("a");
    let b = User::new("b");
    assert!(holdings.slots_of(&a).is_empty());

    holdings.set(&a, 3, true);
    holdings.set(&a, 1, true);
    holdings.set(&a, 3, true);
    holdings.set(&b, 3, true);
    holdings.set(&b, 7, false);

    assert_eq!(holdings.slots_of(&a), vec![3, 1]);
    assert_eq!(holdings.slots_of(&b), vec![3]);

    holdings.set(&a, 3, false);
    assert_eq!(holdings.slots_of(&a), vec![1]);
    assert_eq!(holdings.slots_of(&b), vec![3]);

    holdings.drop_user(&a);
    holdings.drop_user(&a);
    assert!(holdings.slots_of(&a).is_empty());
    assert_eq!(holdings.slots_of(&b), vec![3]);
}

#[test]
fn the_broker_knows_where_a_user_has_a_part() {
    let mut broker = Broker::new();
    let one = EndpointLabel::mock("one");
    let two = EndpointLabel::mock("two");
    let three = EndpointLabel::mock("three");
    let user = User::new("user");
    let holder = User::new("holder");
    assert!(broker.labels_of(&user).is_empty());

    broker.control(&holder, &one).unwrap();
    broker.control(&holder, &two).unwrap();
    broker.observe(&user, &three).unwrap();
    broker.control(&user, &one).unwrap();
    broker.control(&user, &three).unwrap();
    broker.observe(&user, &two).unwrap();

    assert_eq!(broker.labels_of(&user), vec![three.clone(), one.clone(), two.clone()]);
    assert_eq!(broker.labels_of(&holder), vec![one.clone(), two.clone()]);

    broker.release_control(&user, &three);
    assert_eq!(broker.labels_of(&user), vec![three.clone(), one.clone(), two.clone()]);
    broker.release_observe(&user, &three);
    assert_eq!(broker.labels_of(&user), vec![one.clone(), two.clone()]);
    broker.release_control(&user, &one);
    assert_eq!(broker.labels_of(&user), vec![two.clone()]);

    broker.release_control(&holder, &one);
    assert_eq!(broker.labels_of(&holder), vec![two.clone()]);
    broker.control(&user, &two).unwrap();
    assert!(broker.disconnect(&holder).len() == 1);
    assert!(broker.labels_of(&holder).is_empty());
    assert_eq!(broker.labels_of(&user), vec![two]);

    assert!(broker.disconnect(&user).is_empty());
    assert!(broker.labels_of(&user).is_empty());
    assert!(broker.knows(&three));
}

use xcm::rel::Rel;
use xcm::v0::Junction as Junction0;
use xcm::v0::MultiLocation as MultiLocation0;
use xcm::v1::Junction::{GeneralIndex, OnlyChild, PalletInstance, Parachain};
use xcm::v1::{Junction, MultiLocation};

fn loc(parents: u8, interior: Vec<Junction>) -> MultiLocation {
    MultiLocation::new(parents, interior)
}

fn path(junctions: Vec<Junction0>) -> MultiLocation0 {
    MultiLocation0::from_junctions(junctions).unwrap()
}

#[test]
fn prepend_with_cancels_parents_against_the_prefix() {
    let mut m = loc(1, vec![PalletInstance(3)]);
    assert_eq!(m.prepend_with(loc(1, vec![Parachain(21), OnlyChild])), Ok(()));
    assert_eq!(m, loc(1, vec![Parachain(21), PalletInstance(3)]));

    // more parents than the prefix has junctions: the rest is added to its parents
    let mut m = loc(3, vec![GeneralIndex(1)]);
    assert_eq!(m.prepend_with(loc(2, vec![Parachain(1)])), Ok(()));
    assert_eq!(m, loc(4, vec![GeneralIndex(1)]));

    // nothing to cancel
    let mut m = loc(0, vec![GeneralIndex(1)]);
    assert_eq!(m.prepend_with(loc(0, vec![Parachain(1)])), Ok(()));
    assert_eq!(m, loc(0, vec![Parachain(1), GeneralIndex(1)]));

    // the empty prefix changes nothing
    let mut m = loc(2, vec![GeneralIndex(1)]);
    assert_eq!(m.prepend_with(MultiLocation::here()), Ok(()));
    assert_eq!(m, loc(2, vec![GeneralIndex(1)]));
}

#[test]
fn prepend_with_fails_on_too_many_parents() {
    let mut m = loc(255, vec![Parachain(5)]);
    let prefix = loc(1, vec![]);
    assert_eq!(m.prepend_with(prefix.clone()), Err(prefix));
    // left as it was
    assert_eq!(m, loc(255, vec![Parachain(5)]));

    // exactly 255 is fine
    let mut m = loc(200, vec![]);
    assert_eq!(m.prepend_with(loc(55, vec![])), Ok(()));
    assert_eq!(m, loc(255, vec![]));

    // cancelled parents do not count
    let mut m = loc(255, vec![]);
    assert_eq!(m.prepend_with(loc(1, vec![Parachain(1)])), Ok(()));
    assert_eq!(m, loc(255, vec![]));
}

#[test]
fn reanchor_works() {
    let mut id = loc(1, vec![Parachain(1000), GeneralIndex(42)]);
    let ancestry = loc(0, vec![Parachain(2000)]);
    let target = loc(1, vec![Parachain(1000)]);
    let expected = loc(0, vec![GeneralIndex(42)]);
    id.reanchor(&target, &ancestry).unwrap();
    assert_eq!(id, expected);
}

#[test]
fn reanchor_walks_up_from_the_target() {
    // here is para 2000; the target is its sibling 1000; the location is local
    let mut id = loc(0, vec![PalletInstance(9)]);
    let ancestry = loc(0, vec![Parachain(2000)]);
    let target = loc(1, vec![Parachain(1000)]);
    assert_eq!(id.reanchor(&target, &ancestry), Ok(()));
    assert_eq!(id, loc(1, vec![Parachain(2000), PalletInstance(9)]));

    // the target is a child of here: one step up from it is here
    let mut id = loc(0, vec![PalletInstance(9)]);
    let target = loc(0, vec![PalletInstance(1), GeneralIndex(2)]);
    assert_eq!(id.reanchor(&target, &ancestry), Ok(()));
    assert_eq!(id, loc(2, vec![PalletInstance(9)]));

    // a location above the known root keeps its steps beyond it
    let mut id = loc(3, vec![Parachain(7)]);
    let target = loc(1, vec![Parachain(1000)]);
    assert_eq!(id.reanchor(&target, &ancestry), Ok(()));
    assert_eq!(id, loc(3, vec![Parachain(7)]));
}

#[test]
fn reanchor_fails_where_the_target_lies_above() {
    let mut id = loc(0, vec![PalletInstance(9)]);
    let ancestry = loc(0, vec![Parachain(2000)]);
    // two steps up from a context that is one deep
    let target = loc(2, vec![]);
    assert_eq!(id.reanchor(&target, &ancestry), Err(()));
    assert_eq!(id, loc(0, vec![PalletInstance(9)]));
}

#[test]
fn reanchor_fails_on_too_many_parents() {
    let mut deep = Vec::new();
    for i in 0..256u32 {
        deep.push(Parachain(i));
    }
    let mut id = loc(0, vec![]);
    let ancestry = MultiLocation::here();
    let target = loc(0, deep);
    assert_eq!(id.reanchor(&target, &ancestry), Err(()));
    assert_eq!(id, loc(0, vec![]));
}

#[test]
fn reanchor_there_and_back() {
    let ancestry = loc(0, vec![Parachain(2000), PalletInstance(1)]);
    let target = loc(2, vec![Parachain(1000)]);
    let start = loc(1, vec![GeneralIndex(42)]);

    let mut seen = start.clone();
    seen.reanchor(&target, &ancestry).unwrap();
    assert_eq!(seen, loc(1, vec![Parachain(2000), GeneralIndex(42)]));

    // the first context as the target sees it, and the target's own place
    let mut back = MultiLocation::here();
    back.reanchor(&target, &ancestry).unwrap();
    assert_eq!(back, loc(1, vec![Parachain(2000), PalletInstance(1)]));
    let mut place = target.clone();
    place.prepend_with(ancestry.clone()).unwrap();
    assert_eq!(place, loc(0, vec![Parachain(1000)]));

    let mut again = seen.clone();
    again.reanchor(&back, &place).unwrap();
    assert_eq!(again, start);

    // both stand for the same place
    let mut a = again.clone();
    a.prepend_with(ancestry.clone()).unwrap();
    let mut b = start.clone();
    b.prepend_with(ancestry.clone()).unwrap();
    assert_eq!(a, b);
}

#[test]
fn reanchor_back_gives_the_shortest_way() {
    let ancestry = loc(0, vec![Parachain(2000)]);
    let target = loc(1, vec![Parachain(1000)]);
    // a roundabout way of naming a place inside here
    let start = loc(1, vec![Parachain(2000), GeneralIndex(3)]);
    let mut seen = start.clone();
    seen.reanchor(&target, &ancestry).unwrap();
    let mut back = MultiLocation::here();
    back.reanchor(&target, &ancestry).unwrap();
    let mut place = target.clone();
    place.prepend_with(ancestry.clone()).unwrap();
    let mut again = seen;
    again.reanchor(&back, &place).unwrap();
    assert_eq!(again, loc(0, vec![GeneralIndex(3)]));
}

#[test]
fn location_order_is_parents_then_length_then_junctions() {
    assert_eq!(loc(0, vec![Parachain(9)]).compare(&loc(1, vec![])), Rel::Less);
    assert_eq!(loc(1, vec![Parachain(9)]).compare(&loc(1, vec![Parachain(1), OnlyChild])), Rel::Less);
    assert_eq!(loc(1, vec![Parachain(9)]).compare(&loc(1, vec![Parachain(1)])), Rel::Greater);
    assert_eq!(loc(1, vec![Parachain(9)]).compare(&loc(1, vec![Parachain(9)])), Rel::Equal);
    assert!(loc(1, vec![Parachain(9)]) != loc(1, vec![Parachain(8)]));
}

#[test]
fn old_prepend_with_cancels_pairs() {
    let mut m = path(vec![Junction0::Parent, Junction0::PalletInstance(3)]);
    let prefix = path(vec![Junction0::Parent, Junction0::Parachain(21), Junction0::OnlyChild]);
    assert_eq!(m.prepend_with(prefix), Ok(()));
    assert_eq!(
        m,
        path(vec![Junction0::Parent, Junction0::Parachain(21), Junction0::PalletInstance(3)])
    );

    // a parent meets a parent: nothing cancels
    let mut m = path(vec![Junction0::Parent, Junction0::Parent]);
    assert_eq!(m.prepend_with(path(vec![Junction0::Parachain(1), Junction0::Parent])), Ok(()));
    assert_eq!(
        m,
        path(vec![
            Junction0::Parachain(1),
            Junction0::Parent,
            Junction0::Parent,
            Junction0::Parent
        ])
    );
    assert_eq!(m.len(), 4);
}

#[test]
fn old_prepend_with_fails_beyond_eight() {
    let five = vec![
        Junction0::Parachain(1),
        Junction0::Parachain(2),
        Junction0::Parachain(3),
        Junction0::Parachain(4),
        Junction0::Parachain(5),
    ];
    let mut m = path(vec![
        Junction0::GeneralIndex(1),
        Junction0::GeneralIndex(2),
        Junction0::GeneralIndex(3),
        Junction0::GeneralIndex(4),
    ]);
    let prefix = path(five.clone());
    assert_eq!(m.prepend_with(prefix.clone()), Err(prefix));
    assert_eq!(m.len(), 4);
    assert_eq!(m.junctions()[0], Junction0::GeneralIndex(1));

    // eight fit
    let mut m = path(vec![
        Junction0::GeneralIndex(1),
        Junction0::GeneralIndex(2),
        Junction0::GeneralIndex(3),
    ]);
    assert_eq!(m.prepend_with(path(five)), Ok(()));
    assert_eq!(m.len(), 8);
}

#[test]
fn old_location_holds_at_most_eight() {
    let mut nine = Vec::new();
    for i in 0..9u32 {
        nine.push(Junction0::Parachain(i));
    }
    assert!(MultiLocation0::from_junctions(nine).is_err());
    assert_eq!(MultiLocation0::null().len(), 0);
    assert_eq!(xcm::v0::multi_location::MAX_MULTILOCATION_LENGTH, 8);
}

#[test]
fn locations_convert_between_generations() {
    let new = loc(2, vec![Parachain(5), GeneralIndex(6)]);
    let old = MultiLocation0::try_from(new.clone()).unwrap();
    assert_eq!(
        old,
        path(vec![
            Junction0::Parent,
            Junction0::Parent,
            Junction0::Parachain(5),
            Junction0::GeneralIndex(6)
        ])
    );
    assert_eq!(MultiLocation::try_from(old), Ok(new));

    // too long for a path
    assert_eq!(MultiLocation0::try_from(loc(7, vec![Parachain(5), GeneralIndex(6)])), Err(()));
    // exactly eight
    assert!(MultiLocation0::try_from(loc(6, vec![Parachain(5), GeneralIndex(6)])).is_ok());

    // a step to the parent behind an interior junction stands for no location
    let crooked = path(vec![Junction0::Parachain(5), Junction0::Parent]);
    assert_eq!(MultiLocation::try_from(crooked), Err(()));
    assert_eq!(MultiLocation::try_from(MultiLocation0::null()), Ok(MultiLocation::here()));
}

#[test]
fn a_path_of_parents_is_a_count_of_parents() {
    let up = path(vec![Junction0::Parent, Junction0::Parent, Junction0::Parent]);
    assert_eq!(MultiLocation::try_from(up), Ok(loc(3, vec![])));
    assert_eq!(
        MultiLocation0::try_from(loc(3, vec![])),
        Ok(path(vec![Junction0::Parent, Junction0::Parent, Junction0::Parent]))
    );
}

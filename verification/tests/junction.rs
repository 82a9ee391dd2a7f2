use xcm::rel::Rel;
use xcm::v0::{BodyId, BodyPart, Junction, NetworkId};

#[test]
fn majority_needs_more_than_half() {
    assert!(!BodyPart::Voice.is_majority());
    assert!(!BodyPart::Members { count: 1_000 }.is_majority());
    assert!(BodyPart::Fraction { nom: 2, denom: 3 }.is_majority());
    assert!(!BodyPart::Fraction { nom: 1, denom: 2 }.is_majority());
    assert!(BodyPart::AtLeastProportion { nom: 51, denom: 100 }.is_majority());
    assert!(!BodyPart::AtLeastProportion { nom: 50, denom: 100 }.is_majority());
    assert!(BodyPart::MoreThanProportion { nom: 1, denom: 2 }.is_majority());
    assert!(!BodyPart::MoreThanProportion { nom: 49, denom: 100 }.is_majority());
}

#[test]
fn majority_does_not_wrap() {
    // twice the numerator does not fit in 32 bits
    assert!(BodyPart::Fraction { nom: u32::MAX, denom: u32::MAX }.is_majority());
    assert!(BodyPart::Fraction { nom: 0x8000_0000, denom: 1 }.is_majority());
    assert!(BodyPart::MoreThanProportion { nom: 0x8000_0000, denom: u32::MAX }.is_majority());
}

#[test]
fn only_parent_is_not_interior() {
    assert!(Junction::Parent.is_parent());
    assert!(!Junction::Parent.is_interior());
    let others = vec![
        Junction::Parachain(1),
        Junction::AccountId32 { network: NetworkId::Any, id: [0u8; 32] },
        Junction::AccountIndex64 { network: NetworkId::Kusama, index: 3 },
        Junction::AccountKey20 { network: NetworkId::Polkadot, key: [1u8; 20] },
        Junction::PalletInstance(5),
        Junction::GeneralIndex(9),
        Junction::GeneralKey(vec![1, 2]),
        Junction::OnlyChild,
        Junction::Plurality { id: BodyId::Unit, part: BodyPart::Voice },
    ];
    for junction in others.iter() {
        assert!(!junction.is_parent());
        assert!(junction.is_interior());
    }
}

#[test]
fn junctions_convert_between_generations() {
    let new = xcm::v1::Junction::AccountId32 {
        network: NetworkId::Named(vec![7, 8]),
        id: [9u8; 32],
    };
    let old = Junction::from(new.clone());
    assert_eq!(old, Junction::AccountId32 { network: NetworkId::Named(vec![7, 8]), id: [9u8; 32] });
    assert_eq!(xcm::v1::Junction::try_from(old), Ok(new));
    assert_eq!(xcm::v1::Junction::try_from(Junction::Parent), Err(()));
    assert_eq!(
        Junction::from(xcm::v1::Junction::Plurality {
            id: BodyId::Index(4),
            part: BodyPart::Members { count: 2 }
        }),
        Junction::Plurality { id: BodyId::Index(4), part: BodyPart::Members { count: 2 } }
    );
}

#[test]
fn junction_order_is_by_variant_then_fields() {
    let a = xcm::v1::Junction::Parachain(7);
    let b = xcm::v1::Junction::Parachain(8);
    let c = xcm::v1::Junction::GeneralKey(vec![]);
    assert_eq!(a.compare(&b), Rel::Less);
    assert_eq!(b.compare(&a), Rel::Greater);
    assert_eq!(a.compare(&a), Rel::Equal);
    assert_eq!(b.compare(&c), Rel::Less);
    assert_eq!(
        xcm::v1::Junction::GeneralKey(vec![1]).compare(&xcm::v1::Junction::GeneralKey(vec![1, 0])),
        Rel::Less
    );
    assert_eq!(NetworkId::Any.compare(&NetworkId::Named(vec![])), Rel::Less);
    assert_eq!(NetworkId::Named(vec![2]).compare(&NetworkId::Named(vec![1, 9])), Rel::Greater);
    assert_eq!(BodyId::Judicial.compare(&BodyId::Index(9)), Rel::Greater);
    assert_eq!(
        BodyPart::Fraction { nom: 1, denom: 9 }.compare(&BodyPart::Fraction { nom: 1, denom: 10 }),
        Rel::Less
    );
}

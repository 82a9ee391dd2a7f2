use xcm::v0::Junction as Junction0;
use xcm::v0::MultiAsset as MultiAsset0;
use xcm::v0::MultiLocation as MultiLocation0;
use xcm::v0::{Order as Order0, Response as Response0, Xcm as Xcm0};
use xcm::v1::AssetId::{Abstract, Concrete};
use xcm::v1::Fungibility::{Fungible, NonFungible};
use xcm::v1::Junction::{GeneralIndex, Parachain};
use xcm::v1::{
    AssetInstance, MultiAsset, MultiAssetFilter, MultiAssets, MultiLocation, Order, OriginKind,
    Response, WildFungibility, WildMultiAsset, Xcm,
};
use xcm::DoubleEncoded;

fn path(junctions: Vec<Junction0>) -> MultiLocation0 {
    MultiLocation0::from_junctions(junctions).unwrap()
}

fn long_location() -> MultiLocation {
    MultiLocation::new(7, vec![Parachain(1), GeneralIndex(2)])
}

#[test]
fn assets_convert_between_generations() {
    let old = MultiAsset0::ConcreteFungible {
        id: path(vec![Junction0::Parent, Junction0::Parachain(3)]),
        amount: 9,
    };
    let new = MultiAsset::try_from(old.clone()).unwrap();
    assert_eq!(new, MultiAsset { id: Concrete(MultiLocation::new(1, vec![Parachain(3)])), fun: Fungible(9) });
    assert_eq!(MultiAsset0::try_from(new), Ok(old));

    let old = MultiAsset0::AbstractNonFungible { class: vec![1], instance: AssetInstance::Index(4) };
    let new = MultiAsset::try_from(old.clone()).unwrap();
    assert_eq!(new, MultiAsset { id: Abstract(vec![1]), fun: NonFungible(AssetInstance::Index(4)) });
    assert_eq!(MultiAsset0::try_from(new), Ok(old));

    // no asset stands for a wildcard or for nothing
    assert_eq!(MultiAsset::try_from(MultiAsset0::All), Err(()));
    assert_eq!(MultiAsset::try_from(MultiAsset0::AllFungible), Err(()));
    assert_eq!(MultiAsset::try_from(MultiAsset0::Nothing), Err(()));
    assert_eq!(Option::<MultiAsset>::try_from(MultiAsset0::Nothing), Ok(None));
    assert_eq!(Option::<MultiAsset>::try_from(MultiAsset0::AllNonFungible), Err(()));
    assert_eq!(
        Option::<MultiAsset>::try_from(MultiAsset0::AbstractFungible { id: vec![1], amount: 0 }),
        Ok(Some(MultiAsset { id: Abstract(vec![1]), fun: Fungible(0) }))
    );
    // a crooked path stands for no location
    assert_eq!(
        MultiAsset::try_from(MultiAsset0::ConcreteFungible {
            id: path(vec![Junction0::Parachain(3), Junction0::Parent]),
            amount: 9
        }),
        Err(())
    );
    // a location too long for a path
    assert_eq!(
        MultiAsset0::try_from(MultiAsset { id: Concrete(long_location()), fun: Fungible(1) }),
        Err(())
    );
}

#[test]
fn lists_of_one_convert_to_single_values() {
    let one = vec![MultiAsset0::AbstractFungible { id: vec![1], amount: 2 }];
    assert_eq!(
        MultiAsset::try_from(one),
        Ok(MultiAsset { id: Abstract(vec![1]), fun: Fungible(2) })
    );
    assert_eq!(MultiAsset::try_from(Vec::<MultiAsset0>::new()), Err(()));
    assert_eq!(
        MultiAsset::try_from(vec![
            MultiAsset0::AbstractFungible { id: vec![1], amount: 2 },
            MultiAsset0::AbstractFungible { id: vec![1], amount: 2 }
        ]),
        Err(())
    );
    assert_eq!(WildMultiAsset::try_from(vec![MultiAsset0::All]), Ok(WildMultiAsset::All));
    assert_eq!(WildMultiAsset::try_from(vec![MultiAsset0::All, MultiAsset0::All]), Err(()));
    assert_eq!(WildMultiAsset::try_from(Vec::<MultiAsset0>::new()), Err(()));
}

#[test]
fn lists_convert_to_collections_in_normal_form() {
    let list = vec![
        MultiAsset0::AbstractFungible { id: vec![2], amount: 5 },
        MultiAsset0::Nothing,
        MultiAsset0::AbstractNonFungible { class: vec![1], instance: AssetInstance::Undefined },
        MultiAsset0::AbstractFungible { id: vec![2], amount: 6 },
    ];
    let assets = MultiAssets::try_from(list).unwrap();
    assert_eq!(
        assets.inner(),
        &vec![
            MultiAsset { id: Abstract(vec![2]), fun: Fungible(11) },
            MultiAsset { id: Abstract(vec![1]), fun: NonFungible(AssetInstance::Undefined) },
        ]
    );
    assert_eq!(MultiAssets::try_from(vec![MultiAsset0::Nothing]), Ok(MultiAssets::new()));
    assert_eq!(
        MultiAssets::try_from(vec![
            MultiAsset0::AbstractFungible { id: vec![2], amount: 5 },
            MultiAsset0::All
        ]),
        Err(())
    );
    // and back, one for one
    assert_eq!(
        Vec::<MultiAsset0>::try_from(assets),
        Ok(vec![
            MultiAsset0::AbstractFungible { id: vec![2], amount: 11 },
            MultiAsset0::AbstractNonFungible { class: vec![1], instance: AssetInstance::Undefined },
        ])
    );
    assert_eq!(
        Vec::<MultiAsset0>::try_from(MultiAssets::from(MultiAsset {
            id: Concrete(long_location()),
            fun: Fungible(1)
        })),
        Err(())
    );
}

#[test]
fn wildcards_convert_between_generations() {
    let old = MultiAsset0::AllConcreteNonFungible { class: path(vec![Junction0::Parachain(3)]) };
    let new = WildMultiAsset::try_from(old.clone()).unwrap();
    assert_eq!(
        new,
        WildMultiAsset::AllOf {
            id: Concrete(MultiLocation::new(0, vec![Parachain(3)])),
            fun: WildFungibility::NonFungible
        }
    );
    assert_eq!(MultiAsset0::try_from(new), Ok(old));
    assert_eq!(
        WildMultiAsset::try_from(MultiAsset0::AllAbstractFungible { id: vec![1] }),
        Ok(WildMultiAsset::AllOf { id: Abstract(vec![1]), fun: WildFungibility::Fungible })
    );
    assert_eq!(MultiAsset0::try_from(WildMultiAsset::All), Ok(MultiAsset0::All));
    // the wildcards of a whole kind have no equal
    assert_eq!(WildMultiAsset::try_from(MultiAsset0::AllFungible), Err(()));
    assert_eq!(WildMultiAsset::try_from(MultiAsset0::AllNonFungible), Err(()));
    assert_eq!(WildMultiAsset::try_from(MultiAsset0::Nothing), Err(()));
    assert_eq!(
        WildMultiAsset::try_from(MultiAsset0::AbstractFungible { id: vec![1], amount: 1 }),
        Err(())
    );
}

#[test]
fn conversion_is_no_bijection() {
    // a list of one wildcard becomes a wildcard, and comes back as it was
    let list = vec![MultiAsset0::All];
    let filter = MultiAssetFilter::try_from(list.clone()).unwrap();
    assert_eq!(filter, MultiAssetFilter::Wild(WildMultiAsset::All));
    assert_eq!(Vec::<MultiAsset0>::try_from(filter), Ok(list));

    // a wildcard whose location no path can hold does not come back at all
    let wild = WildMultiAsset::AllOf { id: Concrete(long_location()), fun: WildFungibility::Fungible };
    assert_eq!(MultiAsset0::try_from(wild.clone()), Err(()));
    assert_eq!(Vec::<MultiAsset0>::try_from(wild.clone()), Err(()));
    assert_eq!(Vec::<MultiAsset0>::try_from(MultiAssetFilter::Wild(wild)), Err(()));

    // a list that says nothing comes back empty
    let filter = MultiAssetFilter::try_from(vec![MultiAsset0::Nothing]).unwrap();
    assert_eq!(filter, MultiAssetFilter::Definite(MultiAssets::new()));
    assert_eq!(Vec::<MultiAsset0>::try_from(filter), Ok(vec![]));

    // two amounts come back as one
    let filter = MultiAssetFilter::try_from(vec![
        MultiAsset0::AbstractFungible { id: vec![1], amount: 1 },
        MultiAsset0::AbstractFungible { id: vec![1], amount: 2 },
    ])
    .unwrap();
    assert_eq!(
        Vec::<MultiAsset0>::try_from(filter),
        Ok(vec![MultiAsset0::AbstractFungible { id: vec![1], amount: 3 }])
    );

    // wildcards in a longer list have no filter
    assert_eq!(MultiAssetFilter::try_from(vec![MultiAsset0::All, MultiAsset0::All]), Err(()));
    assert_eq!(MultiAssetFilter::try_from(vec![MultiAsset0::AllFungible]), Err(()));
}

fn sample_assets() -> MultiAssets {
    MultiAssets::from(MultiAsset { id: Abstract(vec![1]), fun: Fungible(5) })
}

fn sample_old_assets() -> Vec<MultiAsset0> {
    vec![MultiAsset0::AbstractFungible { id: vec![1], amount: 5 }]
}

#[test]
fn messages_convert_to_the_first_generation() {
    let message: Xcm<()> = Xcm::WithdrawAsset {
        assets: sample_assets(),
        effects: vec![
            Order::Noop,
            Order::DepositAsset {
                assets: MultiAssetFilter::Wild(WildMultiAsset::All),
                max_assets: 3,
                beneficiary: MultiLocation::new(1, vec![Parachain(7)]),
            },
            Order::BuyExecution {
                fees: MultiAsset { id: Abstract(vec![1]), fun: Fungible(1) },
                weight: 10,
                debt: 20,
                halt_on_error: true,
                instructions: vec![Xcm::Transact {
                    origin_type: OriginKind::Native,
                    require_weight_at_most: 30,
                    call: DoubleEncoded::from_encoded(vec![1, 2, 3]),
                }],
            },
        ],
    };
    let old = Xcm0::<()>::try_from(message).unwrap();
    match old {
        Xcm0::WithdrawAsset { assets, effects } => {
            assert_eq!(assets, sample_old_assets());
            assert_eq!(effects.len(), 3);
            assert!(matches!(effects[0], Order0::Null));
            match &effects[1] {
                Order0::DepositAsset { assets, dest } => {
                    assert_eq!(assets, &vec![MultiAsset0::All]);
                    assert_eq!(dest, &path(vec![Junction0::Parent, Junction0::Parachain(7)]));
                }
                other => panic!("unexpected order {:?}", other),
            }
            match &effects[2] {
                Order0::BuyExecution { fees, weight, debt, halt_on_error, xcm } => {
                    assert_eq!(fees, &MultiAsset0::AbstractFungible { id: vec![1], amount: 1 });
                    assert_eq!((*weight, *debt, *halt_on_error), (10, 20, true));
                    assert_eq!(xcm.len(), 1);
                    match &xcm[0] {
                        Xcm0::Transact { origin_type, require_weight_at_most, call } => {
                            assert_eq!(*origin_type, OriginKind::Native);
                            assert_eq!(*require_weight_at_most, 30);
                            assert_eq!(call.encoded(), &vec![1, 2, 3]);
                            assert!(call.as_ref().is_none());
                        }
                        other => panic!("unexpected message {:?}", other),
                    }
                }
                other => panic!("unexpected order {:?}", other),
            }
        }
        other => panic!("unexpected message {:?}", other),
    }
}

#[test]
fn messages_without_an_equal_fail_to_convert() {
    assert!(Xcm0::<()>::try_from(Xcm::<()>::UnsubscribeVersion).is_err());
    assert!(Xcm0::<()>::try_from(Xcm::<()>::SubscribeVersion {
        query_id: 1,
        max_response_weight: 2
    })
    .is_err());
    assert!(Xcm0::<()>::try_from(Xcm::<()>::QueryResponse {
        query_id: 1,
        response: Response::Version(2)
    })
    .is_err());
    // deep inside
    let nested: Xcm<()> = Xcm::RelayedFrom {
        who: vec![Parachain(1)],
        message: Box::new(Xcm::ReserveAssetDeposited {
            assets: sample_assets(),
            effects: vec![Order::BuyExecution {
                fees: MultiAsset { id: Abstract(vec![1]), fun: Fungible(1) },
                weight: 0,
                debt: 0,
                halt_on_error: false,
                instructions: vec![Xcm::UnsubscribeVersion],
            }],
        }),
    };
    assert!(Xcm0::<()>::try_from(nested).is_err());
    // a location that no path can hold
    assert!(Xcm0::<()>::try_from(Xcm::<()>::TransferAsset {
        assets: sample_assets(),
        beneficiary: long_location()
    })
    .is_err());
    assert!(Order0::<()>::try_from(Order::<()>::QueryHolding {
        query_id: 1,
        dest: long_location(),
        assets: MultiAssetFilter::Wild(WildMultiAsset::All)
    })
    .is_err());
}

#[test]
fn simple_messages_and_responses_convert() {
    let old = Xcm0::<()>::try_from(Xcm::<()>::HrmpChannelClosing {
        initiator: 1,
        sender: 2,
        recipient: 3,
    })
    .unwrap();
    assert!(matches!(old, Xcm0::HrmpChannelClosing { initiator: 1, sender: 2, recipient: 3 }));
    let old = Xcm0::<()>::try_from(Xcm::<()>::RelayedFrom {
        who: vec![Parachain(1)],
        message: Box::new(Xcm::HrmpChannelAccepted { recipient: 4 }),
    })
    .unwrap();
    match old {
        Xcm0::RelayedFrom { who, message } => {
            assert_eq!(who, path(vec![Junction0::Parachain(1)]));
            assert!(matches!(*message, Xcm0::HrmpChannelAccepted { recipient: 4 }));
        }
        other => panic!("unexpected message {:?}", other),
    }
    match Response0::try_from(Response::Assets(sample_assets())) {
        Ok(Response0::Assets(assets)) => assert_eq!(assets, sample_old_assets()),
        other => panic!("unexpected response {:?}", other),
    }
    assert!(Response0::try_from(Response::Version(1)).is_err());
    let order = Order0::<()>::try_from(Order::<()>::ExchangeAsset {
        give: MultiAssetFilter::Definite(sample_assets()),
        receive: sample_assets(),
    })
    .unwrap();
    match order {
        Order0::ExchangeAsset { give, receive } => {
            assert_eq!(give, sample_old_assets());
            assert_eq!(receive, sample_old_assets());
        }
        other => panic!("unexpected order {:?}", other),
    }
}

#[test]
fn messages_change_their_type_of_call() {
    let message: Xcm0<u8> = Xcm0::TeleportAsset {
        assets: sample_old_assets(),
        effects: vec![Order0::BuyExecution {
            fees: MultiAsset0::All,
            weight: 1,
            debt: 2,
            halt_on_error: false,
            xcm: vec![Xcm0::Transact {
                origin_type: OriginKind::Superuser,
                require_weight_at_most: 3,
                call: DoubleEncoded::from_encoded(vec![9]),
            }],
        }],
    };
    let other: Xcm0<u32> = message.into();
    match other {
        Xcm0::TeleportAsset { assets, effects } => {
            assert_eq!(assets, sample_old_assets());
            match &effects[0] {
                Order0::BuyExecution { fees, weight, debt, halt_on_error, xcm } => {
                    assert_eq!(fees, &MultiAsset0::All);
                    assert_eq!((*weight, *debt, *halt_on_error), (1, 2, false));
                    match &xcm[0] {
                        Xcm0::Transact { origin_type, require_weight_at_most, call } => {
                            assert_eq!(*origin_type, OriginKind::Superuser);
                            assert_eq!(*require_weight_at_most, 3);
                            assert_eq!(call.encoded(), &vec![9]);
                        }
                        other => panic!("unexpected message {:?}", other),
                    }
                }
                other => panic!("unexpected order {:?}", other),
            }
        }
        other => panic!("unexpected message {:?}", other),
    }
    let relayed: Xcm0<()> = Xcm0::from(Xcm0::<u8>::RelayedFrom {
        who: MultiLocation0::null(),
        message: Box::new(Xcm0::HrmpChannelAccepted { recipient: 1 }),
    });
    assert!(matches!(relayed, Xcm0::RelayedFrom { .. }));
    let order: Order0<u8> = Order0::<()>::Null.into();
    assert!(matches!(order, Order0::Null));
    let call: DoubleEncoded<u8> = DoubleEncoded::<u32>::from_encoded(vec![5]).into();
    assert_eq!(call.encoded(), &vec![5]);
}

#[test]
fn old_assets_are_moved_by_a_prefix() {
    let prefix = path(vec![Junction0::Parachain(9), Junction0::OnlyChild]);
    let mut asset = MultiAsset0::ConcreteFungible {
        id: path(vec![Junction0::Parent, Junction0::GeneralIndex(1)]),
        amount: 4,
    };
    assert_eq!(asset.reanchor(&prefix), Ok(()));
    assert_eq!(
        asset,
        MultiAsset0::ConcreteFungible {
            id: path(vec![Junction0::Parachain(9), Junction0::GeneralIndex(1)]),
            amount: 4
        }
    );
    let mut wild = MultiAsset0::AllConcreteNonFungible { class: path(vec![]) };
    assert_eq!(wild.reanchor(&prefix), Ok(()));
    assert_eq!(wild, MultiAsset0::AllConcreteNonFungible { class: prefix.clone() });
    let mut abstract_asset = MultiAsset0::AbstractFungible { id: vec![1], amount: 1 };
    assert_eq!(abstract_asset.reanchor(&prefix), Ok(()));
    assert_eq!(abstract_asset, MultiAsset0::AbstractFungible { id: vec![1], amount: 1 });

    let seven = path(vec![
        Junction0::Parachain(1),
        Junction0::Parachain(2),
        Junction0::Parachain(3),
        Junction0::Parachain(4),
        Junction0::Parachain(5),
        Junction0::Parachain(6),
        Junction0::Parachain(7),
    ]);
    let mut full = MultiAsset0::ConcreteNonFungible {
        class: seven.clone(),
        instance: AssetInstance::Undefined,
    };
    assert_eq!(full.reanchor(&prefix), Err(()));
    assert_eq!(
        full,
        MultiAsset0::ConcreteNonFungible { class: seven, instance: AssetInstance::Undefined }
    );
    assert!(MultiAsset0::AllFungible.is_wildcard());
    assert!(!MultiAsset0::Nothing.is_wildcard());
}

#[test]
fn old_wildcards_contain_their_kind() {
    let id = path(vec![Junction0::Parachain(1)]);
    let amount = MultiAsset0::ConcreteFungible { id: id.clone(), amount: 5 };
    let instance =
        MultiAsset0::ConcreteNonFungible { class: id.clone(), instance: AssetInstance::Index(1) };
    assert!(MultiAsset0::AllFungible.contains(&amount));
    assert!(!MultiAsset0::AllFungible.contains(&instance));
    assert!(MultiAsset0::AllNonFungible.contains(&instance));
    assert!(MultiAsset0::AllConcreteFungible { id: id.clone() }.contains(&amount));
    assert!(!MultiAsset0::AllConcreteFungible { id: path(vec![]) }.contains(&amount));
    assert!(MultiAsset0::AllConcreteNonFungible { class: id.clone() }.contains(&instance));
    assert!(!MultiAsset0::AllAbstractFungible { id: vec![1] }.contains(&amount));
    assert!(MultiAsset0::AllAbstractNonFungible { class: vec![1] }
        .contains(&MultiAsset0::AbstractNonFungible { class: vec![1], instance: AssetInstance::Undefined }));
    assert!(amount.contains(&MultiAsset0::ConcreteFungible { id: id.clone(), amount: 5 }));
    assert!(!amount.contains(&MultiAsset0::ConcreteFungible { id: id.clone(), amount: 6 }));
    assert!(instance.contains(&instance.clone()));
    // an amount of zero stands for nothing, and everything contains it
    assert!(instance.contains(&MultiAsset0::AbstractFungible { id: vec![7], amount: 0 }));
    assert!(!MultiAsset0::ConcreteFungible { id, amount: 0 }.contains(&amount));
}

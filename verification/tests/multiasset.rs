use xcm::rel::Rel;
use xcm::v1::AssetId::{Abstract, Concrete};
use xcm::v1::Fungibility::{Fungible, NonFungible};
use xcm::v1::Junction::{GeneralIndex, Parachain};
use xcm::v1::{
    AssetId, AssetInstance, Fungibility, MultiAsset, MultiAssetFilter, MultiAssets, MultiLocation,
    WildFungibility, WildMultiAsset,
};

fn a() -> AssetId {
    Abstract(vec![b'A'])
}

fn b() -> AssetId {
    Abstract(vec![b'B'])
}

fn fun(id: AssetId, amount: u128) -> MultiAsset {
    MultiAsset { id, fun: Fungible(amount) }
}

fn nft(id: AssetId, instance: AssetInstance) -> MultiAsset {
    MultiAsset { id, fun: NonFungible(instance) }
}

fn here_asset(parents: u8, index: u128, amount: u128) -> MultiAsset {
    fun(Concrete(MultiLocation::new(parents, vec![GeneralIndex(index)])), amount)
}

#[test]
fn two_amounts_of_one_fungible_become_one() {
    let assets = MultiAssets::from(vec![fun(a(), 10), fun(a(), 5)]);
    assert_eq!(assets.len(), 1);
    assert_eq!(assets.inner()[0], fun(a(), 15));

    // whatever the order
    let assets = MultiAssets::from(vec![fun(a(), 5), fun(a(), 10)]);
    assert_eq!(assets.inner(), &vec![fun(a(), 15)]);

    // and a zero amount is an amount
    let assets = MultiAssets::from(vec![fun(a(), 0), fun(a(), 0)]);
    assert_eq!(assets.inner(), &vec![fun(a(), 0)]);
}

#[test]
fn amounts_are_added_saturating() {
    let assets = MultiAssets::from(vec![fun(a(), u128::MAX - 1), fun(a(), 5)]);
    assert_eq!(assets.inner(), &vec![fun(a(), u128::MAX)]);
    let assets = MultiAssets::from(vec![fun(a(), u128::MAX), fun(a(), u128::MAX), fun(a(), 1)]);
    assert_eq!(assets.inner(), &vec![fun(a(), u128::MAX)]);
}

#[test]
fn from_sorts_merges_and_lists_fungibles_first() {
    let assets = MultiAssets::from(vec![
        fun(a(), 10),
        fun(a(), 5),
        nft(b(), AssetInstance::Index(1)),
    ]);
    assert_eq!(assets.len(), 2);
    assert_eq!(assets.get(0), Some(&fun(a(), 15)));
    assert_eq!(assets.get(1), Some(&nft(b(), AssetInstance::Index(1))));
    assert_eq!(assets.get(2), None);

    // the same from any order of the input
    let shuffled = MultiAssets::from(vec![
        nft(b(), AssetInstance::Index(1)),
        fun(a(), 5),
        fun(a(), 10),
    ]);
    assert_eq!(shuffled, assets);
}

#[test]
fn from_lists_each_instance_once() {
    let assets = MultiAssets::from(vec![
        nft(a(), AssetInstance::Index(2)),
        nft(a(), AssetInstance::Index(1)),
        nft(a(), AssetInstance::Index(2)),
        fun(b(), 1),
        nft(a(), AssetInstance::Undefined),
    ]);
    assert_eq!(
        assets.inner(),
        &vec![
            fun(b(), 1),
            nft(a(), AssetInstance::Undefined),
            nft(a(), AssetInstance::Index(1)),
            nft(a(), AssetInstance::Index(2)),
        ]
    );
}

#[test]
fn from_of_nothing_is_empty() {
    let assets = MultiAssets::from(Vec::<MultiAsset>::new());
    assert!(assets.is_none());
    assert_eq!(assets.len(), 0);
    assert_eq!(assets, MultiAssets::new());
    assert!(!MultiAssets::from(fun(a(), 1)).is_none());
}

#[test]
fn from_sorted_and_deduplicated_takes_what_from_gives() {
    let inputs = vec![
        vec![],
        vec![fun(a(), 1)],
        vec![fun(b(), 2), fun(a(), 1), fun(b(), 3)],
        vec![nft(a(), AssetInstance::Index(1)), fun(a(), 1), nft(a(), AssetInstance::Index(1))],
        vec![
            nft(b(), AssetInstance::Blob(vec![1])),
            nft(a(), AssetInstance::Array4([0; 4])),
            here_asset(1, 2, 3),
            here_asset(0, 2, 3),
        ],
    ];
    for input in inputs {
        let normal = MultiAssets::from(input);
        let again = MultiAssets::from_sorted_and_deduplicated(normal.inner().clone());
        assert_eq!(again, Ok(normal));
    }
}

#[test]
fn from_sorted_and_deduplicated_rejects_what_is_not_normal() {
    // out of order
    assert_eq!(
        MultiAssets::from_sorted_and_deduplicated(vec![fun(b(), 1), fun(a(), 1)]),
        Err(())
    );
    // two amounts of one fungible
    assert_eq!(
        MultiAssets::from_sorted_and_deduplicated(vec![fun(a(), 1), fun(a(), 2)]),
        Err(())
    );
    assert_eq!(
        MultiAssets::from_sorted_and_deduplicated(vec![fun(a(), 1), fun(a(), 1)]),
        Err(())
    );
    // one instance twice
    assert_eq!(
        MultiAssets::from_sorted_and_deduplicated(vec![
            nft(a(), AssetInstance::Index(1)),
            nft(a(), AssetInstance::Index(1))
        ]),
        Err(())
    );
    // instances of one class out of order
    assert_eq!(
        MultiAssets::from_sorted_and_deduplicated(vec![
            nft(a(), AssetInstance::Index(2)),
            nft(a(), AssetInstance::Index(1))
        ]),
        Err(())
    );
    // a non-fungible before a fungible, though the identifiers ascend
    assert_eq!(
        MultiAssets::from_sorted_and_deduplicated(vec![
            nft(a(), AssetInstance::Index(1)),
            fun(b(), 1)
        ]),
        Err(())
    );
    // a fungible hidden behind a non-fungible
    assert_eq!(
        MultiAssets::from_sorted_and_deduplicated(vec![
            fun(b(), 1),
            nft(a(), AssetInstance::Index(1)),
            fun(b(), 1)
        ]),
        Err(())
    );
}

#[test]
fn from_sorted_and_deduplicated_accepts_the_normal_form() {
    let normal = vec![
        fun(a(), 1),
        fun(b(), 1),
        nft(a(), AssetInstance::Index(1)),
        nft(a(), AssetInstance::Index(2)),
        nft(b(), AssetInstance::Undefined),
    ];
    let assets = MultiAssets::from_sorted_and_deduplicated(normal.clone()).unwrap();
    assert_eq!(assets.inner(), &normal);
    assert_eq!(assets.clone().drain(), normal);
    // a fungible and a non-fungible may share an identifier
    assert!(MultiAssets::from_sorted_and_deduplicated(vec![
        fun(a(), 1),
        nft(a(), AssetInstance::Index(1))
    ])
    .is_ok());
    let unchecked = MultiAssets::from_sorted_and_deduplicated_skip_checks(normal.clone());
    assert_eq!(unchecked, assets);
}

#[test]
fn push_merges_or_inserts() {
    let mut assets =
        MultiAssets::from(vec![fun(a(), 10), fun(b(), 1), nft(a(), AssetInstance::Index(5))]);
    assets.push(fun(a(), 5));
    assert_eq!(
        assets.inner(),
        &vec![fun(a(), 15), fun(b(), 1), nft(a(), AssetInstance::Index(5))]
    );
    assets.push(fun(a(), u128::MAX));
    assert_eq!(assets.get(0), Some(&fun(a(), u128::MAX)));

    // a new fungible goes to its place
    let mut assets = MultiAssets::from(vec![fun(b(), 1), nft(a(), AssetInstance::Index(5))]);
    assets.push(fun(a(), 7));
    assert_eq!(
        assets.inner(),
        &vec![fun(a(), 7), fun(b(), 1), nft(a(), AssetInstance::Index(5))]
    );

    // an instance is always added, even a second time
    assets.push(nft(a(), AssetInstance::Index(2)));
    assets.push(nft(a(), AssetInstance::Index(5)));
    assert_eq!(
        assets.inner(),
        &vec![
            fun(a(), 7),
            fun(b(), 1),
            nft(a(), AssetInstance::Index(2)),
            nft(a(), AssetInstance::Index(5)),
            nft(a(), AssetInstance::Index(5)),
        ]
    );

    let mut empty = MultiAssets::new();
    empty.push(fun(a(), 0));
    assert_eq!(empty.inner(), &vec![fun(a(), 0)]);
}

#[test]
fn asset_contains_is_by_amount_or_exact() {
    // reflexive
    for x in [fun(a(), 1), fun(a(), 0), fun(a(), u128::MAX), nft(a(), AssetInstance::Undefined)] {
        assert!(x.contains(&x));
    }
    assert!(fun(a(), 10).contains(&fun(a(), 9)));
    assert!(fun(a(), 10).contains(&fun(a(), 0)));
    assert!(!fun(a(), 10).contains(&fun(a(), 11)));
    assert!(!fun(a(), 10).contains(&fun(b(), 1)));
    assert!(!fun(a(), 10).contains(&fun(b(), 0)));
    // exact match only for non-fungibles
    assert!(nft(a(), AssetInstance::Index(9)).contains(&nft(a(), AssetInstance::Index(9))));
    assert!(!nft(a(), AssetInstance::Index(9)).contains(&nft(a(), AssetInstance::Index(8))));
    assert!(!nft(a(), AssetInstance::Index(9)).contains(&nft(b(), AssetInstance::Index(9))));
    // kinds do not mix
    assert!(!fun(a(), 10).contains(&nft(a(), AssetInstance::Undefined)));
    assert!(!nft(a(), AssetInstance::Undefined).contains(&fun(a(), 0)));
}

#[test]
fn collection_contains_what_one_of_its_assets_contains() {
    let assets = MultiAssets::from(vec![fun(a(), 10), nft(b(), AssetInstance::Index(1))]);
    assert!(assets.contains(&fun(a(), 10)));
    assert!(assets.contains(&fun(a(), 3)));
    assert!(!assets.contains(&fun(a(), 11)));
    assert!(!assets.contains(&fun(b(), 1)));
    assert!(assets.contains(&nft(b(), AssetInstance::Index(1))));
    assert!(!assets.contains(&nft(b(), AssetInstance::Index(2))));
    // the empty collection contains nothing
    assert!(!MultiAssets::new().contains(&fun(a(), 0)));
    assert!(!MultiAssets::new().contains(&nft(a(), AssetInstance::Undefined)));
}

#[test]
fn wildcards_select_by_identifier_and_class() {
    let all_of_a = WildMultiAsset::AllOf { id: a(), fun: WildFungibility::Fungible };
    assert!(all_of_a.contains(&fun(a(), 1)));
    assert!(!all_of_a.contains(&nft(a(), AssetInstance::Undefined)));
    assert!(!all_of_a.contains(&fun(b(), 1)));
    let all_nfts_of_a = a().into_wild(WildFungibility::NonFungible);
    assert!(all_nfts_of_a.contains(&nft(a(), AssetInstance::Index(3))));
    assert!(!all_nfts_of_a.contains(&fun(a(), 3)));
    assert_eq!(all_nfts_of_a, WildMultiAsset::from((a(), WildFungibility::NonFungible)));
}

#[test]
fn all_selects_every_asset() {
    for x in [
        fun(a(), 0),
        fun(b(), u128::MAX),
        nft(a(), AssetInstance::Undefined),
        nft(b(), AssetInstance::Blob(vec![])),
        here_asset(3, 4, 5),
    ] {
        assert!(WildMultiAsset::All.contains(&x));
        assert!(MultiAssetFilter::Wild(WildMultiAsset::All).contains(&x));
    }
}

#[test]
fn filters_dispatch_to_their_contents() {
    let definite = MultiAssetFilter::from(vec![fun(a(), 5), fun(a(), 5)]);
    assert!(definite.contains(&fun(a(), 10)));
    assert!(!definite.contains(&fun(a(), 11)));
    assert_eq!(definite, MultiAssetFilter::Definite(MultiAssets::from(fun(a(), 10))));
    let wild = MultiAssetFilter::from(WildMultiAsset::AllOf {
        id: a(),
        fun: WildFungibility::Fungible,
    });
    assert!(wild.contains(&fun(a(), 11)));
    assert!(!wild.contains(&fun(b(), 11)));
    assert_eq!(MultiAssetFilter::from(fun(b(), 1)), MultiAssetFilter::from(vec![fun(b(), 1)]));
    assert_eq!(
        MultiAssetFilter::from(MultiAssets::new()),
        MultiAssetFilter::Definite(MultiAssets::new())
    );
}

#[test]
fn kinds_and_identifiers() {
    assert!(Fungible(1).is_kind(WildFungibility::Fungible));
    assert!(!Fungible(1).is_kind(WildFungibility::NonFungible));
    assert!(NonFungible(AssetInstance::Undefined).is_kind(WildFungibility::NonFungible));
    assert!(!NonFungible(AssetInstance::Undefined).is_kind(WildFungibility::Fungible));

    assert!(fun(a(), 1).is_fungible(None));
    assert!(fun(a(), 1).is_fungible(Some(a())));
    assert!(!fun(a(), 1).is_fungible(Some(b())));
    assert!(!fun(a(), 1).is_non_fungible(None));
    assert!(nft(a(), AssetInstance::Undefined).is_non_fungible(Some(a())));
    assert!(!nft(a(), AssetInstance::Undefined).is_non_fungible(Some(b())));
    assert!(!nft(a(), AssetInstance::Undefined).is_fungible(None));

    assert_eq!(a().into_multiasset(Fungible(3)), fun(a(), 3));
    assert_eq!(MultiAsset::from((a(), Fungibility::from(3u128))), fun(a(), 3));
    assert_eq!(Fungibility::from(0u128), Fungible(0));
    assert_eq!(Fungibility::from(AssetInstance::from(())), NonFungible(AssetInstance::Undefined));
    assert_eq!(AssetInstance::from([1u8; 4]), AssetInstance::Array4([1; 4]));
    assert_eq!(AssetInstance::from([1u8; 8]), AssetInstance::Array8([1; 8]));
    assert_eq!(AssetInstance::from([1u8; 16]), AssetInstance::Array16([1; 16]));
    assert_eq!(AssetInstance::from([1u8; 32]), AssetInstance::Array32([1; 32]));
    assert_eq!(AssetInstance::from(vec![1u8]), AssetInstance::Blob(vec![1]));
    assert_eq!(AssetId::from(vec![b'A']), a());
    assert_eq!(AssetId::from(MultiLocation::here()), Concrete(MultiLocation::here()));
}

#[test]
fn asset_order_puts_fungibles_first() {
    assert_eq!(fun(b(), 9).compare(&nft(a(), AssetInstance::Undefined)), Rel::Less);
    assert_eq!(nft(a(), AssetInstance::Undefined).compare(&fun(b(), 9)), Rel::Greater);
    assert_eq!(fun(a(), 9).compare(&fun(b(), 1)), Rel::Less);
    assert_eq!(fun(a(), 9).compare(&fun(a(), 10)), Rel::Less);
    assert_eq!(fun(a(), 9).compare(&fun(a(), 9)), Rel::Equal);
    // concrete identifiers before abstract ones
    assert_eq!(here_asset(9, 9, 9).compare(&fun(a(), 0)), Rel::Less);
    // instances by variant, then by content
    assert_eq!(
        AssetInstance::Index(u128::MAX).compare(&AssetInstance::Array4([0; 4])),
        Rel::Less
    );
    assert_eq!(
        AssetInstance::Array4([0, 0, 0, 1]).compare(&AssetInstance::Array4([0, 0, 1, 0])),
        Rel::Less
    );
    assert_eq!(
        AssetInstance::Blob(vec![9]).compare(&AssetInstance::Blob(vec![9, 0])),
        Rel::Less
    );
    assert_eq!(AssetInstance::Undefined.compare(&AssetInstance::Undefined), Rel::Equal);
}

#[test]
fn assets_are_reanchored_through_their_identifiers() {
    let ancestry = MultiLocation::new(0, vec![Parachain(2000)]);
    let target = MultiLocation::new(1, vec![Parachain(1000)]);

    let mut asset = fun(Concrete(MultiLocation::new(1, vec![Parachain(1000), GeneralIndex(42)])), 7);
    assert_eq!(asset.reanchor(&target, &ancestry), Ok(()));
    assert_eq!(asset, here_asset(0, 42, 7));

    // an abstract identifier stays
    let mut abstract_asset = fun(a(), 7);
    assert_eq!(abstract_asset.reanchor(&target, &ancestry), Ok(()));
    assert_eq!(abstract_asset, fun(a(), 7));

    let moved = here_asset(0, 1, 2).reanchored(&target, &ancestry).unwrap();
    assert_eq!(moved, fun(Concrete(MultiLocation::new(1, vec![Parachain(2000), GeneralIndex(1)])), 2));

    let far = MultiLocation::new(3, vec![]);
    assert_eq!(here_asset(0, 1, 2).reanchored(&far, &ancestry), Err(()));

    let mut id = Concrete(MultiLocation::new(1, vec![GeneralIndex(1)]));
    assert_eq!(id.prepend_with(&ancestry), Ok(()));
    assert_eq!(id, Concrete(MultiLocation::new(0, vec![GeneralIndex(1)])));
    let mut high = fun(Concrete(MultiLocation::new(255, vec![])), 1);
    assert_eq!(high.prepend_with(&MultiLocation::new(1, vec![])), Err(()));
    assert_eq!(high, fun(Concrete(MultiLocation::new(255, vec![])), 1));
}

#[test]
fn collections_are_rewritten_whole_or_not_at_all() {
    let ancestry = MultiLocation::new(0, vec![Parachain(2000)]);
    let target = MultiLocation::new(1, vec![Parachain(1000)]);
    let mut assets = MultiAssets::from(vec![here_asset(0, 1, 5), here_asset(1, 2, 6), fun(a(), 7)]);
    let before = assets.clone();
    assert_eq!(assets.reanchor(&target, &ancestry), Ok(()));
    assert_eq!(
        assets.inner(),
        &vec![
            fun(Concrete(MultiLocation::new(1, vec![Parachain(2000), GeneralIndex(1)])), 5),
            here_asset(1, 2, 6),
            fun(a(), 7),
        ]
    );

    // the second asset cannot take the prefix: nothing changes
    let mut assets = before.clone();
    let mut high = MultiAssets::from(vec![here_asset(0, 1, 5), here_asset(255, 2, 6)]);
    let kept = high.clone();
    assert_eq!(high.prepend_with(&MultiLocation::new(1, vec![])), Err(()));
    assert_eq!(high, kept);
    assert_eq!(assets.prepend_with(&MultiLocation::new(1, vec![Parachain(3)])), Ok(()));
    assert_eq!(
        assets.inner(),
        &vec![
            fun(Concrete(MultiLocation::new(1, vec![Parachain(3), GeneralIndex(1)])), 5),
            fun(Concrete(MultiLocation::new(1, vec![GeneralIndex(2)])), 6),
            fun(a(), 7),
        ]
    );

    let mut filter = MultiAssetFilter::Definite(kept.clone());
    assert_eq!(filter.reanchor(&MultiLocation::new(3, vec![]), &ancestry), Err(()));
    assert_eq!(filter, MultiAssetFilter::Definite(kept));
    let mut wild = MultiAssetFilter::Wild(WildMultiAsset::AllOf {
        id: Concrete(MultiLocation::new(1, vec![Parachain(1000), GeneralIndex(42)])),
        fun: WildFungibility::Fungible,
    });
    assert_eq!(wild.reanchor(&target, &ancestry), Ok(()));
    assert_eq!(
        wild,
        MultiAssetFilter::Wild(WildMultiAsset::AllOf {
            id: Concrete(MultiLocation::new(0, vec![GeneralIndex(42)])),
            fun: WildFungibility::Fungible,
        })
    );
    let mut all = WildMultiAsset::All;
    assert_eq!(all.reanchor(&target, &ancestry), Ok(()));
    assert_eq!(all, WildMultiAsset::All);
}

#[test]
fn assets_are_ordered_by_the_operators() {
    assert!(fun(a(), 1) < fun(a(), 2));
    assert!(fun(b(), 1) > fun(a(), 2));
    assert!(fun(b(), u128::MAX) < nft(a(), AssetInstance::Undefined));
    assert!(fun(a(), 1) <= fun(a(), 1));
    assert!(nft(a(), AssetInstance::Index(1)) >= nft(a(), AssetInstance::Undefined));
    assert_eq!(
        fun(a(), 1).partial_cmp(&fun(a(), 1)),
        Some(std::cmp::Ordering::Equal)
    );
}

#[test]
fn the_normal_form_covers_every_asset_given() {
    let given = vec![
        fun(b(), 3),
        nft(a(), AssetInstance::Index(2)),
        fun(a(), u128::MAX),
        fun(b(), 4),
        fun(a(), 9),
        nft(a(), AssetInstance::Index(2)),
        here_asset(1, 1, 1),
    ];
    let assets = MultiAssets::from(given.clone());
    assert_eq!(assets.len(), 4);
    for asset in given.iter() {
        assert!(assets.contains(asset));
    }
    assert!(assets.contains(&fun(b(), 7)));
    assert!(!assets.contains(&fun(b(), 8)));
}

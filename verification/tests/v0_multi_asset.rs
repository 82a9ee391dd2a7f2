use xcm::v0::MultiAsset::{All, AllFungible, AllNonFungible, Nothing};
use xcm::v0::{AssetInstance, MultiAsset};

fn abstract_fungible(id: Vec<u8>, amount: u128) -> MultiAsset {
    MultiAsset::AbstractFungible { id, amount }
}

fn abstract_non_fungible(class: Vec<u8>, instance: AssetInstance) -> MultiAsset {
    MultiAsset::AbstractNonFungible { class, instance }
}

#[test]
fn contains_works() {
    // trivial case: all contains any non-wildcard.
    assert!(All.contains(&Nothing));
    assert!(All.contains(&abstract_fungible(vec![99u8], 1)));

    // trivial case: none contains nothing, except itself.
    assert!(Nothing.contains(&Nothing));
    assert!(!Nothing.contains(&AllFungible));
    assert!(!Nothing.contains(&All));

    // A bit more sneaky: Nothing can contain wildcard, even All ir the thing itself.
    assert!(!All.contains(&All));
    assert!(!All.contains(&AllFungible));
    assert!(!AllFungible.contains(&AllFungible));
    assert!(!AllNonFungible.contains(&AllNonFungible));

    // For fungibles, containing is basically equality, or equal id with higher amount.
    assert!(!abstract_fungible(vec![99u8], 99).contains(&abstract_fungible(vec![1u8], 99)));
    assert!(abstract_fungible(vec![99u8], 99).contains(&abstract_fungible(vec![99u8], 99)));
    assert!(abstract_fungible(vec![99u8], 99).contains(&abstract_fungible(vec![99u8], 9)));
    assert!(!abstract_fungible(vec![99u8], 99).contains(&abstract_fungible(vec![99u8], 100)));

    // For non-fungibles, containing is equality.
    assert!(!abstract_non_fungible(vec![99u8], AssetInstance::Index(9))
        .contains(&abstract_non_fungible(vec![98u8], AssetInstance::Index(9))));
    assert!(!abstract_non_fungible(vec![99u8], AssetInstance::Index(8))
        .contains(&abstract_non_fungible(vec![99u8], AssetInstance::Index(9))));
    assert!(abstract_non_fungible(vec![99u8], AssetInstance::Index(9))
        .contains(&abstract_non_fungible(vec![99u8], AssetInstance::Index(9))));
}

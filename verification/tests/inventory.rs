use combat_core::crafting::{Error as CraftError, Recipes};
use combat_core::items::{
    Category, Drop, DropGroup, DropTable, Error, Inventory, Item, Stack,
};

fn raw(name: &str) -> Item {
    Item {
        category: Category::Raw,
        name: name.to_string(),
        desc: String::new(),
        can_use: false,
    }
}

fn unique(name: &str) -> Item {
    Item {
        category: Category::Unique,
        name: name.to_string(),
        desc: String::new(),
        can_use: false,
    }
}

#[test]
fn stack_limits_per_category() {
    assert_eq!(Category::Raw.max_in_stack(), 999);
    assert_eq!(Category::Unique.max_in_stack(), 1);
    assert_eq!(Category::Ammo.max_in_stack(), 0);
}

#[test]
fn merge_pours_up_to_the_limit() {
    let mut into = Stack { item: raw("pixel"), count: 990 };
    let from = Stack { item: raw("pixel"), count: 20 };
    let back = Stack::merge(&mut into, from).expect("same kind");
    assert_eq!(into.count, 999);
    assert_eq!(back.expect("overflow comes back").count, 11);

    let mut into2 = Stack { item: raw("pixel"), count: 10 };
    let from2 = Stack { item: raw("pixel"), count: 20 };
    assert!(Stack::merge(&mut into2, from2).expect("same kind").is_none());
    assert_eq!(into2.count, 30);
}

#[test]
fn merge_refuses_mismatched_kinds() {
    let mut into = Stack { item: raw("pixel"), count: 1 };
    let from = Stack { item: raw("shard"), count: 2 };
    match Stack::merge(&mut into, from) {
        Err(Error::MismatchedItem(back)) => assert_eq!(back.count, 2),
        other => panic!("expected a mismatch error, got {:?}", other),
    }
    assert_eq!(into.count, 1);
}

#[test]
fn merge_into_a_full_stack_hands_everything_back() {
    let mut into = Stack { item: unique("crown"), count: 1 };
    let from = Stack { item: unique("crown"), count: 1 };
    let back = Stack::merge(&mut into, from).expect("same kind");
    assert_eq!(back.expect("nothing fits").count, 1);
    assert_eq!(into.count, 1);
}

#[test]
fn group_stacks_buckets_by_kind() {
    let stacks = vec![
        Stack { item: raw("pixel"), count: 1 },
        Stack { item: raw("shard"), count: 2 },
        Stack { item: raw("pixel"), count: 3 },
    ];
    let buckets = Stack::group_stacks(stacks);
    assert_eq!(buckets.len(), 2);
    let total: usize = buckets.iter().map(|b| b.1.len()).sum();
    assert_eq!(total, 3);
    for (key, bucket) in &buckets {
        for s in bucket {
            assert_eq!(s.item.name, key.name);
        }
    }
}

#[test]
fn collapse_compacts_a_homogeneous_pile() {
    let stacks = vec![
        Stack { item: raw("pixel"), count: 600 },
        Stack { item: raw("pixel"), count: 500 },
        Stack { item: raw("pixel"), count: 100 },
    ];
    let out = Stack::collapse_stacks(stacks).expect("one kind");
    let total: u64 = out.iter().map(|s| s.count).sum();
    assert_eq!(total, 1200);
    assert!(out.len() <= 3);
    for s in &out {
        assert_eq!(s.item.name, "pixel");
    }
}

#[test]
fn collapse_refuses_a_mixed_pile() {
    let stacks = vec![
        Stack { item: raw("pixel"), count: 1 },
        Stack { item: raw("shard"), count: 1 },
    ];
    match Stack::collapse_stacks(stacks) {
        Err(Error::MismatchedItemGroup(back)) => assert_eq!(back.len(), 2),
        other => panic!("expected a mismatched group error, got {:?}", other),
    }
}

#[test]
fn collapse_of_nothing_is_nothing() {
    assert!(Stack::collapse_stacks(vec![]).expect("empty pile").is_empty());
}

#[test]
fn inventory_add_merges_and_reports_overflow() {
    let mut inv = Inventory::default();
    assert!(inv.attempt_add(vec![Stack { item: raw("pixel"), count: 600 }]).is_none());
    assert_eq!(inv.count_items(&raw("pixel")), 600);
    let overflow = inv
        .attempt_add(vec![Stack { item: raw("pixel"), count: 500 }])
        .expect("more than one stack can hold");
    assert_eq!(inv.count_items(&raw("pixel")), 999);
    assert_eq!(overflow.len(), 1);
    assert_eq!(overflow[0].count, 101);
}

#[test]
fn inventory_take_errors_name_the_exact_excess() {
    let mut inv = Inventory::default();
    inv.attempt_add(vec![Stack { item: raw("pixel"), count: 10 }]);
    match inv.attempt_take(raw("pixel"), 1000) {
        Err(Error::TooManyItems(_, over)) => assert_eq!(over, 1),
        other => panic!("expected a too-many error, got {:?}", other),
    }
    match inv.attempt_take(raw("pixel"), 25) {
        Err(Error::NotEnoughItems(_, short)) => assert_eq!(short, 15),
        other => panic!("expected a not-enough error, got {:?}", other),
    }
    assert_eq!(inv.count_items(&raw("pixel")), 10);
    assert!(inv.attempt_take(raw("pixel"), 0).is_ok());
    assert!(inv.attempt_take(raw("pixel"), 10).is_ok());
    assert_eq!(inv.count_items(&raw("pixel")), 0);
}

#[test]
fn drop_rolls_inside_the_wave_scaled_range() {
    let d = Drop { item: raw("pixel"), range: (1, 3) };
    // Wave 2: at least 2 + 1·1 = 3, strictly below 3·2 = 6.
    for _ in 0..20 {
        let s = d.generate_drop(2);
        assert_eq!(s.item.name, "pixel");
        assert!(3 <= s.count && s.count < 6);
    }
}

#[test]
fn weightless_group_drops_nothing() {
    let g = DropGroup(vec![(Drop { item: raw("pixel"), range: (1, 3) }, 0)]);
    assert!(g.generate_drop(2).is_none());
    let empty = DropGroup(vec![]);
    assert!(empty.generate_drop(2).is_none());
}

#[test]
fn weighted_group_always_drops_something() {
    let g = DropGroup(vec![
        (Drop { item: raw("pixel"), range: (1, 3) }, 3),
        (Drop { item: raw("shard"), range: (1, 2) }, 1),
    ]);
    for _ in 0..20 {
        let s = g.generate_drop(1).expect("positive total weight");
        assert!(s.item.name == "pixel" || s.item.name == "shard");
    }
}

#[test]
fn drop_table_rolls_each_group_its_count() {
    let table = DropTable(vec![(
        DropGroup(vec![(Drop { item: raw("pixel"), range: (1, 3) }, 1)]),
        4,
    )]);
    let drops = table.generate_drops(1);
    assert_eq!(drops.len(), 4);
    for s in &drops {
        assert_eq!(s.item.name, "pixel");
        // Wave 1: at least 1 + 1·0 = 1, strictly below 3·1 = 3.
        assert!(1 <= s.count && s.count < 3);
    }
}

#[test]
fn craft_consumes_inputs_and_adds_outputs() {
    let recipe = Recipes {
        input: vec![(raw("base pixel"), 70)],
        output: vec![Stack { item: raw("moderate pixel"), count: 1 }],
    };
    let mut inv = Inventory::default();
    inv.attempt_add(vec![Stack { item: raw("base pixel"), count: 100 }]);
    let overflow = recipe.attempt_craft(&mut inv).expect("inputs are covered");
    assert!(overflow.is_none());
    assert_eq!(inv.count_items(&raw("base pixel")), 30);
    assert_eq!(inv.count_items(&raw("moderate pixel")), 1);
}

#[test]
fn craft_reports_the_exact_shortfall() {
    let recipe = Recipes {
        input: vec![(raw("base pixel"), 70)],
        output: vec![Stack { item: raw("moderate pixel"), count: 1 }],
    };
    let mut inv = Inventory::default();
    inv.attempt_add(vec![Stack { item: raw("base pixel"), count: 50 }]);
    match recipe.attempt_craft(&mut inv) {
        Err(CraftError::MissingItems { missing, overflow }) => {
            assert!(overflow.is_none());
            assert_eq!(missing.len(), 1);
            assert_eq!(missing[0].0.name, "base pixel");
            assert_eq!(missing[0].1, 20);
        },
        other => panic!("expected missing items, got {:?}", other),
    }
    assert_eq!(inv.count_items(&raw("moderate pixel")), 0);
}

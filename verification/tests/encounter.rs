use combat_core::arena::Arena;
use combat_core::enemy::{ranged_action, Cfg as EnemyCfg, RangedAction};
use combat_core::geom::Vec2;
use combat_core::groups::Group;
use combat_core::records::{Record, Records};
use combat_core::wave::{Cache, Wave};

fn template(value: u64, available_from: u64) -> EnemyCfg {
    EnemyCfg { id: 0, value, health: 100, available_from, blacklist: vec![] }
}

#[test]
fn budget_formula_is_two_n_plus_one() {
    let w0 = Wave::initial();
    assert_eq!(w0.value(), 1);
    assert_eq!(w0.num(), 1);
    let w1 = w0.successor();
    let w2 = w1.successor();
    let w3 = w2.successor();
    assert_eq!(w1.value(), 3);
    assert_eq!(w2.value(), 5);
    assert_eq!(w3.value(), 7);
    assert_eq!(w3.num(), 4);
}

#[test]
fn wave_zero_with_one_cheap_template_spawns_exactly_one() {
    let cache = Cache::load(vec![template(1, 0)]).expect("valid catalog");
    let w0 = Wave::initial();
    let spawns = w0.generate_spawns(&cache, Vec2::new(40, 40), Vec2::new(944, 520));
    assert_eq!(spawns.len(), 1);
    assert_eq!(spawns[0].spawn_id, 0);
}

#[test]
fn no_eligible_template_yields_an_empty_wave() {
    let cache = Cache::load(vec![template(1, 5)]).expect("valid catalog");
    let w0 = Wave::initial();
    let spawns = w0.generate_spawns(&cache, Vec2::new(40, 40), Vec2::new(944, 520));
    assert!(spawns.is_empty());
}

#[test]
fn summed_cost_overshoots_the_budget_by_at_most_one_pick() {
    // Budget 5, single template of cost 2: picks spend 2+2, then the final
    // pick overshoots to 6 and the loop stops.
    let cache = Cache::load(vec![template(2, 0)]).expect("valid catalog");
    let w2 = Wave::initial().successor().successor();
    assert_eq!(w2.value(), 5);
    let spawns = w2.generate_spawns(&cache, Vec2::new(0, 0), Vec2::new(10, 10));
    assert_eq!(spawns.len(), 3);
    let total: u64 = spawns.iter().map(|_| 2).sum();
    assert!(total <= w2.value() + 2 - 1 + 2);
    let all_but_last: u64 = 2 * (spawns.len() as u64 - 1);
    assert!(all_but_last < w2.value());
}

#[test]
fn unaffordable_template_yields_an_empty_wave() {
    // Budget 7 cannot cover the only template's cost of 10: it is not
    // eligible, and the generator returns empty instead of overshooting
    // from nothing (and never blocks).
    let cache = Cache::load(vec![template(10, 0)]).expect("valid catalog");
    let w3 = Wave::initial().successor().successor().successor();
    assert_eq!(w3.value(), 7);
    let spawns = w3.generate_spawns(&cache, Vec2::new(0, 0), Vec2::new(10, 10));
    assert!(spawns.is_empty());
    // From wave 5 on (budget 11) the same template becomes affordable.
    let w5 = w3.successor().successor();
    assert_eq!(w5.value(), 11);
    let spawns5 = w5.generate_spawns(&cache, Vec2::new(0, 0), Vec2::new(10, 10));
    assert_eq!(spawns5.len(), 2);
}

#[test]
fn spawn_positions_stay_inside_the_arena() {
    let cache = Cache::load(vec![template(1, 0)]).expect("valid catalog");
    let w4 = Wave::initial().successor().successor().successor().successor();
    let pos = Vec2::new(40, 40);
    let dim = Vec2::new(944, 520);
    let spawns = w4.generate_spawns(&cache, pos, dim);
    assert_eq!(spawns.len(), 9);
    for s in &spawns {
        assert!(pos.x <= s.pos.x && s.pos.x <= pos.x + dim.x);
        assert!(pos.y <= s.pos.y && s.pos.y <= pos.y + dim.y);
    }
}

#[test]
fn degenerate_area_pins_every_position() {
    let cache = Cache::load(vec![template(1, 0)]).expect("valid catalog");
    let spawns = Wave::initial().generate_spawns(&cache, Vec2::new(7, 9), Vec2::new(0, 0));
    assert_eq!(spawns.len(), 1);
    assert_eq!(spawns[0].pos, Vec2::new(7, 9));
}

#[test]
fn zero_cost_template_is_rejected_at_load() {
    assert!(Cache::load(vec![template(0, 0)]).is_none());
    assert!(Cache::load(vec![template(1, 0), template(0, 3)]).is_none());
    assert!(Cache::load(vec![]).is_some());
}

#[test]
fn catalog_lookup_and_availability_filter() {
    let cache = Cache::load(vec![template(1, 0), template(10, 4)]).expect("valid catalog");
    assert!(cache.get_spawn(0).is_some());
    assert!(cache.get_spawn(1).is_some());
    assert!(cache.get_spawn(2).is_none());
    assert_eq!(cache.available_units(0), vec![0]);
    assert_eq!(cache.available_units(4), vec![0, 1]);
}

#[test]
fn director_advances_waves_and_reports_progress() {
    let cache = Cache::load(vec![template(1, 0)]).expect("valid catalog");
    let mut arena = Arena::default();
    assert_eq!(arena.wave_num(), 0);
    let pos = Vec2::new(0, 0);
    let dim = Vec2::new(100, 100);
    let spawns = arena.spawn_next_wave(&cache, pos, dim);
    assert_eq!(arena.wave_num(), 1);
    assert_eq!(spawns.len(), 1);
    assert!(!arena.wave_realized(spawns.len() as u64));
    // The single opponent falls: the director demands the next wave.
    assert!(arena.remove_spawn());
    let spawns2 = arena.spawn_next_wave(&cache, pos, dim);
    assert_eq!(arena.wave_num(), 2);
    assert_eq!(spawns2.len(), 3);
}

#[test]
fn director_does_not_stall_on_an_unrealized_wave() {
    let cache = Cache::load(vec![template(1, 3)]).expect("valid catalog");
    let mut arena = Arena::default();
    let spawns = arena.spawn_next_wave(&cache, Vec2::new(0, 0), Vec2::new(10, 10));
    assert!(spawns.is_empty());
    // Zero realized spawns: the director demands immediate progress.
    assert!(arena.wave_realized(0));
    arena.spawn_next_wave(&cache, Vec2::new(0, 0), Vec2::new(10, 10));
    assert_eq!(arena.wave_num(), 2);
}

#[test]
fn sorted_records_order_and_marker() {
    let mut records = Records::default();
    records.add_record(Record { wave_num: 5 });
    records.add_record(Record { wave_num: 2 });
    records.add_record(Record { wave_num: 9 });
    let sorted = records.sorted_records();
    assert_eq!(sorted.len(), 3);
    assert_eq!(sorted[0], (false, Record { wave_num: 2 }));
    assert_eq!(sorted[1], (true, Record { wave_num: 5 }));
    assert_eq!(sorted[2], (false, Record { wave_num: 9 }));
}

#[test]
fn equal_waves_keep_the_first_added_record_first() {
    let mut records = Records::default();
    records.add_record(Record { wave_num: 4 });
    records.add_record(Record { wave_num: 4 });
    records.add_record(Record { wave_num: 1 });
    let sorted = records.sorted_records();
    assert_eq!(sorted[0], (false, Record { wave_num: 1 }));
    assert_eq!(sorted[1], (true, Record { wave_num: 4 }));
    assert_eq!(sorted[2], (false, Record { wave_num: 4 }));
}

#[test]
fn single_record_is_marked_most_recent() {
    let mut records = Records::default();
    records.add_record(Record { wave_num: 1 });
    assert_eq!(records.sorted_records(), vec![(true, Record { wave_num: 1 })]);
}

#[test]
fn group_names_and_masks() {
    assert_eq!(Group::Enemy.name(), "enemy");
    assert_eq!(Group::Player.name(), "player");
    assert_eq!(Group::Projectile.name(), "projectile");
    assert_eq!(Group::Switch.name(), "player");
    assert_eq!(Group::Player.physics_mask(), 1);
    assert_eq!(Group::Enemy.physics_mask(), 2);
    assert_eq!(Group::Projectile.physics_mask(), 4);
    assert_eq!(Group::Switch.physics_mask(), 8);
    assert_eq!(Group::collected_physics_mask(&[]), 0);
    assert_eq!(Group::collected_physics_mask(&[Group::Player, Group::Enemy]), 3);
    assert_eq!(
        Group::collected_physics_mask(&[
            Group::Player,
            Group::Enemy,
            Group::Projectile,
            Group::Switch
        ]),
        15
    );
}

#[test]
fn ranged_opponent_engagement_bands() {
    assert_eq!(ranged_action(None), RangedAction::Idle);
    assert_eq!(ranged_action(Some(201 * 201)), RangedAction::Aim);
    assert_eq!(ranged_action(Some(200 * 200)), RangedAction::Flee);
    assert_eq!(ranged_action(Some(21 * 21)), RangedAction::Flee);
    assert_eq!(ranged_action(Some(20 * 20)), RangedAction::DiveBomb);
    assert_eq!(ranged_action(Some(0)), RangedAction::DiveBomb);
}

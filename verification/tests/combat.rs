use combat_core::aim;
use combat_core::attack::{Attack, Cfg as AttackCfg};
use combat_core::dash;
use combat_core::direction::Direction;
use combat_core::geom::Vec2;
use combat_core::health;
use combat_core::melee;
use combat_core::groups::Group;
use combat_core::player::Player;
use combat_core::projectile::{Charged, Cfg as ProjectileCfg, CollisionAction, Normal};

fn all_directions() -> Vec<Direction> {
    vec![
        Direction::Up,
        Direction::Right,
        Direction::Down,
        Direction::Left,
        Direction::UpLeft,
        Direction::UpRight,
        Direction::DownLeft,
        Direction::DownRight,
        Direction::Neutral,
    ]
}

#[test]
fn shift_adjacency_table() {
    assert_eq!(Direction::Neutral.shift_up(), Direction::Up);
    assert_eq!(Direction::Down.shift_up(), Direction::Neutral);
    assert_eq!(Direction::Right.shift_up(), Direction::UpRight);
    assert_eq!(Direction::Left.shift_up(), Direction::UpLeft);
    assert_eq!(Direction::DownLeft.shift_up(), Direction::Left);
    assert_eq!(Direction::DownRight.shift_up(), Direction::Right);
    assert_eq!(Direction::Up.shift_up(), Direction::Up);
    assert_eq!(Direction::Neutral.shift_down(), Direction::Down);
    assert_eq!(Direction::Up.shift_down(), Direction::Neutral);
    assert_eq!(Direction::Neutral.shift_left(), Direction::Left);
    assert_eq!(Direction::UpRight.shift_left(), Direction::Up);
    assert_eq!(Direction::Neutral.shift_right(), Direction::Right);
    assert_eq!(Direction::UpLeft.shift_right(), Direction::Up);
}

#[test]
fn four_up_shifts_stabilize_upward() {
    for d in all_directions() {
        let r = d.shift_up().shift_up().shift_up().shift_up();
        assert!(
            matches!(r, Direction::Up | Direction::UpLeft | Direction::UpRight),
            "four upward shifts from {:?} gave {:?}",
            d,
            r
        );
        assert_eq!(r.shift_up(), r);
    }
}

#[test]
fn axis_components() {
    assert_eq!(Direction::Left.x(), 1);
    assert_eq!(Direction::Right.x(), -1);
    assert_eq!(Direction::Up.x(), 0);
    assert_eq!(Direction::Up.y(), 1);
    assert_eq!(Direction::Down.y(), -1);
    assert_eq!(Direction::Neutral.x(), 0);
    assert_eq!(Direction::Neutral.y(), 0);
}

#[test]
fn pick_random_is_some_direction() {
    let d = Direction::Neutral.pick_random();
    assert!(all_directions().contains(&d));
}

#[test]
fn damage_sequence_and_single_death() {
    let mut h = health::System::default();
    h.init();
    assert_eq!(h.get_max_hp(), 100);
    assert!(!h.is_dead());
    assert_eq!(h.damage(30), 70);
    assert_eq!(h.damage(30), 40);
    assert!(!h.is_dead());
    // The third hit is the one and only alive-to-dead transition.
    let was_dead = h.is_dead();
    assert_eq!(h.damage(50), 0);
    assert!(!was_dead && h.is_dead());
    // Further damage cannot kill again or expose a negative reading.
    assert_eq!(h.damage(10), 0);
    assert!(h.is_dead());
}

#[test]
fn invincibility_blocks_damage_until_it_expires() {
    let mut h = health::System::default();
    h.init();
    h.set_invincibility(1000);
    assert!(h.is_invincible());
    assert_eq!(h.damage(50), 100);
    assert_eq!(h.damage(999), 100);
    h.process(999);
    assert!(h.is_invincible());
    h.process(1);
    assert!(!h.is_invincible());
    assert_eq!(h.damage(30), 70);
}

#[test]
fn dash_chain_is_capped_and_overdraft_replays() {
    let mut d = dash::System::default();
    d.dash(Direction::Up);
    assert!(d.is_dashing());
    assert_eq!(d.data.as_ref().unwrap().count, 0);
    d.dash(Direction::Right);
    d.dash(Direction::Down);
    d.dash(Direction::Left);
    assert_eq!(d.data.as_ref().unwrap().count, 3);
    // At the cap: another trigger keeps the count and replays the penalty.
    d.dash(Direction::Up);
    assert_eq!(d.data.as_ref().unwrap().count, 3);
    let v = d.calc_vel(1, Direction::UpRight);
    assert_eq!(v, Some((Direction::UpRight, dash::Cfg::SLOWDOWN)));
    assert_ne!(v.unwrap().1, dash::Cfg::SPEED);
}

#[test]
fn dash_speeds_and_expiry() {
    let mut d = dash::System::default();
    d.dash(Direction::Left);
    assert_eq!(d.calc_vel(100, Direction::Up), Some((Direction::Left, 500)));
    assert_eq!(d.calc_vel(150, Direction::Up), Some((Direction::Up, 15)));
    assert_eq!(d.calc_vel(1, Direction::Up), None);
    assert!(!d.is_dashing());
    assert_eq!(d.invincibility(), 100);
}

#[test]
fn fully_warmed_shot_is_exact() {
    let mut a = aim::System::default();
    a.load_cache(true);
    a.aim_at(Vec2::new(100, 0));
    a.narrow_aim(3000);
    let intent = a.shoot(Vec2::new(0, 0), 10).expect("a warmed-up aim fires");
    assert_eq!(intent.angle_offset, 0);
    assert_eq!(intent.target, Vec2::new(100, 0));
    assert_eq!(intent.dmg, 10);
}

#[test]
fn snap_shot_scatters_within_the_full_spread() {
    let mut a = aim::System::default();
    a.load_cache(true);
    a.aim_at(Vec2::new(100, 0));
    let intent = a.shoot(Vec2::new(0, 0), 10).expect("an aim fires");
    let full = aim::Cfg::AIM_OFF as i64;
    assert!(-full <= intent.angle_offset && intent.angle_offset <= full);
}

#[test]
fn firing_outside_warm_up_is_a_no_op() {
    let mut a = aim::System::default();
    a.load_cache(true);
    assert!(a.shoot(Vec2::new(0, 0), 10).is_none());
    a.aim_at(Vec2::new(50, 50));
    assert!(a.shoot(Vec2::new(0, 0), 10).is_some());
    // Now cooling down: firing again is dropped.
    assert!(a.shoot(Vec2::new(0, 0), 10).is_none());
}

#[test]
fn unloaded_assets_disable_firing() {
    let mut a = aim::System::default();
    a.aim_at(Vec2::new(50, 50));
    assert!(a.shoot(Vec2::new(0, 0), 10).is_none());
}

#[test]
fn hot_start_restores_one_increment() {
    let mut a = aim::System::default();
    a.load_cache(true);
    a.aim_at(Vec2::new(10, 10));
    a.narrow_aim(500);
    assert_eq!(a.data.as_ref().unwrap().time_to_aim, 2500);
    a.shoot(Vec2::new(0, 0), 10);
    // Re-aim during cooldown: the charge timer refills first, so the
    // warm-up debt is unchanged but a new charge is owed.
    a.aim_at(Vec2::new(10, 10));
    let d = a.data.as_ref().unwrap();
    assert!(matches!(d.stage, aim::Stage::WarmUp));
    assert_eq!(d.time_to_charge, 100);
    assert_eq!(d.time_to_aim, 2500);
    assert_eq!(d.cooling_down, 0);
}

#[test]
fn cooldown_clears_to_idle() {
    let mut a = aim::System::default();
    a.load_cache(true);
    a.aim_at(Vec2::new(10, 10));
    a.shoot(Vec2::new(0, 0), 10);
    assert!(a.data.is_some());
    let ev = a.narrow_aim(100);
    assert!(matches!(ev, Some(aim::TimeEvent::FinishedCooldown)));
    assert!(a.data.is_none());
}

fn two_move_catalog() -> Vec<Attack> {
    let mut first = Attack::default();
    first.cfg.next_attack = Some(1);
    let second = Attack::default();
    // The default move keeps: cooldown 500 ms, no successor.
    assert_eq!(second.cfg.next_attack, None);
    vec![first, second]
}

#[test]
fn combo_starts_at_the_initial_move() {
    let mut m = melee::System::default();
    m.load_cache(two_move_catalog());
    assert_eq!(m.attack(Direction::Up), Some(0));
    assert!(m.is_attacking());
    assert_eq!(m.data.as_ref().unwrap().curr_attack, 0);
}

#[test]
fn trigger_before_cooldown_elapsed_is_dropped() {
    let mut m = melee::System::default();
    m.load_cache(two_move_catalog());
    m.attack(Direction::Up);
    // Immediately again, and again at exactly the cooldown: both dropped.
    assert_eq!(m.attack(Direction::Up), None);
    assert_eq!(m.data.as_ref().unwrap().curr_attack, 0);
    m.process(500);
    assert_eq!(m.attack(Direction::Up), None);
    assert_eq!(m.data.as_ref().unwrap().curr_attack, 0);
}

#[test]
fn trigger_after_cooldown_advances_to_the_link() {
    let mut m = melee::System::default();
    m.load_cache(two_move_catalog());
    m.data = Some(melee::Data {
        attack: melee::AttackData { next_attack: Some(1), cooldown: 500 },
        since_last: 501,
        curr_attack: 0,
    });
    assert_eq!(m.attack(Direction::Up), Some(1));
    assert_eq!(m.data.as_ref().unwrap().curr_attack, 1);
    assert_eq!(m.data.as_ref().unwrap().since_last, 0);
}

#[test]
fn trigger_with_no_link_wraps_to_the_initial_move() {
    let mut m = melee::System::default();
    m.load_cache(two_move_catalog());
    m.data = Some(melee::Data {
        attack: melee::AttackData { next_attack: None, cooldown: 500 },
        since_last: 501,
        curr_attack: 1,
    });
    assert_eq!(m.attack(Direction::Up), Some(0));
    assert_eq!(m.data.as_ref().unwrap().curr_attack, 0);
}

#[test]
fn combo_decays_when_idle_past_the_cooldown() {
    let mut m = melee::System::default();
    m.load_cache(two_move_catalog());
    m.attack(Direction::Up);
    m.process(500);
    assert!(m.is_attacking());
    m.process(1);
    assert!(!m.is_attacking());
}

#[test]
fn unresolvable_move_id_performs_no_attack() {
    let mut m = melee::System::default();
    m.cfg.initial_attack = 99;
    m.load_cache(two_move_catalog());
    assert_eq!(m.attack(Direction::Up), None);
    assert!(!m.is_attacking());
}

#[test]
fn hit_volume_windows_and_per_target_cap() {
    let mut atk = Attack::default();
    atk.execute(Direction::Right);
    let enemy_groups = vec![Group::Enemy];
    let player_groups = vec![Group::Player];
    assert!(atk.can_hit(7, &enemy_groups));
    assert!(!atk.can_hit(7, &player_groups));
    atk.data.as_mut().unwrap().add_hit_count(7);
    // Default cap is one hit per target.
    assert!(!atk.can_hit(7, &enemy_groups));
    assert!(atk.can_hit(8, &enemy_groups));
    // The hit window closes with time.
    atk.data.as_mut().unwrap().step_time(AttackCfg::HIT_DURATION);
    assert!(!atk.can_hit(8, &enemy_groups));
    assert!(!atk.data.as_ref().unwrap().is_finished());
    atk.data.as_mut().unwrap().step_time(AttackCfg::COOLDOWN_DURATION);
    assert!(atk.data.as_ref().unwrap().is_finished());
}

#[test]
fn neutral_execution_only_gates_the_combo() {
    let mut atk = Attack::default();
    atk.execute(Direction::Neutral);
    let d = atk.data.as_ref().unwrap();
    assert_eq!(d.remaining_hit_duration, 0);
    assert_eq!(d.remaining_animating_duration, 0);
    assert_eq!(d.remaining_cooldown_duration, AttackCfg::COOLDOWN_DURATION);
}

#[test]
fn arbiter_picks_dash_over_aim_over_melee_over_walk() {
    let mut p = Player::default();
    p.aim.load_cache(true);
    p.melee.load_cache(two_move_catalog());
    assert_eq!(p.calc_vel(1), (Direction::Neutral, Player::DEFAULT_BASE_SPEED));
    p.aim.aim_at(Vec2::new(100, 100));
    assert_eq!(p.calc_vel(1), (Direction::Neutral, aim::Cfg::WALK_SPEED));
    p.handle_dash();
    let v = p.calc_vel(1);
    assert_eq!(v.1, dash::Cfg::SPEED);
}

#[test]
fn dash_command_cancels_and_grants_invincibility() {
    let mut p = Player::default();
    p.health.init();
    p.aim.load_cache(true);
    p.melee.load_cache(two_move_catalog());
    p.aim.aim_at(Vec2::new(100, 100));
    p.melee.attack(Direction::Up);
    p.handle_dash();
    assert!(p.dash.is_dashing());
    assert!(p.aim.data.is_none());
    assert!(p.melee.data.is_none());
    assert!(p.health.is_invincible());
}

#[test]
fn attack_command_routes_by_distance() {
    let mut p = Player::default();
    p.health.init();
    p.aim.load_cache(true);
    p.melee.load_cache(two_move_catalog());
    // Beyond the melee radius: starts aiming.
    assert_eq!(p.handle_attack_pressed(Vec2::new(0, 0), Vec2::new(100, 0)), None);
    assert!(p.aim.is_aiming());
    // Releasing fires.
    let intent = p.handle_attack_released(Vec2::new(0, 0));
    assert!(intent.is_some());
    // Within the melee radius: swings the combo instead.
    let mut q = Player::default();
    q.melee.load_cache(two_move_catalog());
    assert_eq!(q.handle_attack_pressed(Vec2::new(0, 0), Vec2::new(10, 0)), Some(0));
    assert!(q.melee.is_attacking());
    assert!(!q.aim.is_aiming());
}

#[test]
fn attack_command_is_ignored_while_dashing() {
    let mut p = Player::default();
    p.health.init();
    p.melee.load_cache(two_move_catalog());
    p.handle_dash();
    assert_eq!(p.handle_attack_pressed(Vec2::new(0, 0), Vec2::new(10, 0)), None);
    assert!(!p.melee.is_attacking());
    assert!(p.handle_attack_released(Vec2::new(0, 0)).is_none());
}

#[test]
fn distance_squared_is_exact() {
    assert_eq!(Vec2::new(0, 0).dist_sq(Vec2::new(3, 4)), 25);
    assert_eq!(Vec2::new(-3, -4).dist_sq(Vec2::new(0, 0)), 25);
    assert_eq!(Vec2::new(5, 5).dist_sq(Vec2::new(5, 5)), 0);
}

#[test]
fn plain_projectile_hurts_enemies_and_switches_only() {
    let p = Normal { cfg: ProjectileCfg::default(), dmg: 10 };
    assert!(p.on_collision(&vec![Group::Enemy]));
    assert!(p.on_collision(&vec![Group::Player, Group::Switch]));
    assert!(!p.on_collision(&vec![Group::Player]));
    assert!(!p.on_collision(&vec![]));
}

#[test]
fn charged_projectile_spends_its_bounce_allowance() {
    let cfg = ProjectileCfg { velocity: 10, max_bounces: 2 };
    let mut p = Charged::init_instance(cfg, 25);
    assert_eq!(p.remaining_bounces, 2);
    // Two wall hits bounce, the third is spent.
    assert_eq!(p.on_collision(&vec![Group::Player]), (false, CollisionAction::Bounce));
    assert_eq!(p.on_collision(&vec![]), (false, CollisionAction::Bounce));
    assert_eq!(p.on_collision(&vec![]), (false, CollisionAction::Despawn));
    // A fresh one striking an enemy inflicts and despawns at once.
    let cfg2 = ProjectileCfg { velocity: 10, max_bounces: 2 };
    let mut q = Charged::init_instance(cfg2, 25);
    assert_eq!(q.on_collision(&vec![Group::Enemy]), (true, CollisionAction::Despawn));
    assert_eq!(q.remaining_bounces, 2);
}

#[test]
fn half_warmed_shot_scatters_within_the_narrowed_spread() {
    let mut a = aim::System::default();
    a.load_cache(true);
    a.aim_at(Vec2::new(100, 0));
    // 1500 of 3000 ms still outstanding: the spread has narrowed to
    // 1571 · 1500 / 3000 = 785 milliradians.
    a.narrow_aim(1500);
    let intent = a.shoot(Vec2::new(0, 0), 10).expect("an aim fires");
    assert!(-785 <= intent.angle_offset && intent.angle_offset <= 785);
}

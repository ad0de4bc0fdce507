use contagion::{
    block_to_pos, census, fuzz, jitter, manhattan, plan_route, reaches, recenter, snap, Block, Building,
    BuildingKind, Datum, Entity, Pos, Simulation, Status, Virus, Waypoint, CELL_WIDTH, FUZZ_SPAN,
};

fn virus(infectivity: u32, lethality: u32, radius: u32) -> Virus {
    Virus { infectivity, lethality, incubation: 4, duration: 7, radius }
}

/// A town of one house, one workplace and one store.
fn town(quarantine: bool) -> Simulation {
    let mut sim = Simulation::new(quarantine);
    sim.build(Building::new(Block { x: 0, y: 0 }, BuildingKind::House));
    sim.build(Building::new(Block { x: 0, y: 7 }, BuildingKind::Workplace));
    sim.build(Building::new(Block { x: 3, y: 4 }, BuildingKind::Store));
    sim
}

fn run_days(sim: &mut Simulation, days: usize) {
    let mut ticks = 0;
    while sim.data.len() < days {
        sim.update();
        ticks += 1;
        assert!(ticks < 1_000_000, "the simulation stopped advancing days");
    }
}

#[test]
fn contact_with_certain_transmission_starts_incubation() {
    let mut sim = town(false);
    let v = virus(100_000_000, 0, 100_000);
    let here = Pos { x: 50_000, y: 50_000 };
    sim.spawn(Entity::new(here, Some(v), false, 0, 1));
    let mut healthy = Entity::new(here, None, false, 0, 1);
    healthy.status = Status::Healthy;
    sim.spawn(healthy);
    sim.entities[0].status = Status::Infected(v, 3);
    sim.infections();
    assert_eq!(sim.entities[1].status, Status::Incubating(v, v.incubation));
    assert_eq!(sim.entities[0].status, Status::Infected(v, 3));
}

#[test]
fn contact_out_of_reach_changes_nothing() {
    let mut sim = town(false);
    let v = virus(100_000_000, 0, 13_000);
    sim.spawn(Entity::new(Pos { x: 0, y: 0 }, Some(v), false, 0, 1));
    sim.spawn(Entity::new(Pos { x: 13_001, y: 0 }, None, false, 0, 1));
    sim.infections();
    assert_eq!(sim.entities[1].status, Status::Healthy);
    assert!(!reaches(&v, Pos { x: 13_001, y: 0 }, Pos { x: 0, y: 0 }));
    assert!(reaches(&v, Pos { x: 13_000, y: 0 }, Pos { x: 0, y: 0 }));
}

#[test]
fn dead_entity_stays_put_for_a_hundred_ticks() {
    let mut sim = town(false);
    let at = Pos { x: 12_345, y: 67_890 };
    sim.spawn(Entity::new(at, None, false, 0, 1));
    sim.entities[0].status = Status::Dead;
    for _ in 0..100 {
        sim.update();
        assert_eq!(sim.entities[0].status, Status::Dead);
        assert_eq!(sim.entities[0].pos, at);
        assert!(sim.entities[0].waypoints.is_empty());
    }
}

#[test]
fn dead_entity_ignores_its_own_route() {
    let at = Pos { x: 0, y: 0 };
    let mut e = Entity::new(at, None, false, 0, 0);
    e.waypoints.push(Waypoint::Point(Pos { x: 90_000, y: 0 }));
    e.status = Status::Dead;
    for _ in 0..100 {
        e.update();
    }
    assert_eq!(e.pos, at);
    assert_eq!(e.waypoints.len(), 1);
}

#[test]
fn lone_entity_never_catches_anything() {
    let mut sim = town(false);
    sim.spawn(Entity::new(block_to_pos(Block { x: 0, y: 0 }), None, false, 0, 1));
    run_days(&mut sim, 5);
    for d in sim.data.iter() {
        assert_eq!(d.infected, 0);
        assert_eq!(d.incubating, 0);
        assert_eq!(d.healthy, 1);
        assert_eq!(d.total(), 1);
    }
    assert_eq!(sim.entities[0].status, Status::Healthy);
}

#[test]
fn census_sums_to_population_every_day() {
    let mut sim = town(false);
    let v = virus(100_000_000, 300_000, 13_000);
    for i in 0..6 {
        let infected = if i < 2 { Some(v) } else { None };
        sim.spawn(Entity::new(block_to_pos(Block { x: 0, y: 0 }), infected, i % 3 == 0, 0, 1));
    }
    run_days(&mut sim, 12);
    assert_eq!(sim.days, 12);
    for d in sim.data.iter() {
        assert_eq!(d.total(), 6);
    }
}

#[test]
fn deaths_only_accumulate_and_countdowns_never_rise() {
    let mut sim = town(false);
    let v = virus(50_000_000, 400_000, 13_000);
    for i in 0..5 {
        let infected = if i == 0 { Some(v) } else { None };
        sim.spawn(Entity::new(block_to_pos(Block { x: 0, y: 0 }), infected, false, 0, 1));
    }
    for _ in 0..20_000 {
        let before: Vec<(Status, Pos)> = sim.entities.iter().map(|e| (e.status, e.pos)).collect();
        sim.update();
        for (i, (status, pos)) in before.iter().enumerate() {
            let now = sim.entities[i].status;
            match (*status, now) {
                (Status::Dead, _) => {
                    assert_eq!(now, Status::Dead);
                    assert_eq!(sim.entities[i].pos, *pos);
                }
                (Status::Infected(_, d), Status::Infected(_, e)) => assert!(e <= d),
                (Status::Incubating(_, d), Status::Incubating(_, e)) => assert!(e <= d),
                (Status::Recovered, _) => assert_eq!(now, Status::Recovered),
                _ => {}
            }
        }
    }
    let last = sim.data.last().copied().unwrap();
    let first = sim.data[0];
    assert!(last.dead >= first.dead);
}

#[test]
fn quarantined_entity_gets_no_route_in_the_morning() {
    let mut sim = town(true);
    let v = virus(0, 0, 13_000);
    sim.spawn(Entity::new(block_to_pos(Block { x: 0, y: 0 }), Some(v), false, 0, 1));
    sim.entities[0].status = Status::Infected(v, 10);
    sim.update();
    assert!(sim.morning);
    assert_eq!(sim.entities[0].status, Status::Infected(v, 9));
    assert!(sim.entities[0].waypoints.is_empty());
}

#[test]
fn without_quarantine_the_infected_commute() {
    let mut sim = town(false);
    let v = virus(0, 0, 13_000);
    sim.spawn(Entity::new(block_to_pos(Block { x: 0, y: 0 }), Some(v), false, 0, 1));
    sim.entities[0].status = Status::Infected(v, 10);
    sim.update();
    assert_eq!(sim.entities[0].waypoints.len(), 8);
}

#[test]
fn quarantine_lifts_with_two_days_left() {
    let mut sim = town(true);
    let v = virus(0, 0, 13_000);
    sim.spawn(Entity::new(block_to_pos(Block { x: 0, y: 0 }), Some(v), false, 0, 1));
    sim.entities[0].status = Status::Infected(v, 3);
    sim.update();
    assert_eq!(sim.entities[0].status, Status::Infected(v, 2));
    assert_eq!(sim.entities[0].waypoints.len(), 8);
}

#[test]
fn same_seed_replays_the_same_census() {
    fn run() -> Vec<Datum> {
        macroquad::rand::srand(7);
        let mut sim = town(false);
        let v = virus(60_000_000, 200_000, 13_000);
        for i in 0..8 {
            let infected = if i == 0 { Some(v) } else { None };
            let pos = fuzz(block_to_pos(Block { x: 0, y: 0 }));
            sim.spawn(Entity::new(pos, infected, i % 2 == 0, 0, 1));
        }
        run_days(&mut sim, 10);
        sim.data.clone()
    }
    let first = run();
    let second = run();
    assert_eq!(first, second);
}

#[test]
fn morning_flip_counts_a_day_and_records_census() {
    let mut sim = town(false);
    sim.spawn(Entity::new(block_to_pos(Block { x: 0, y: 0 }), None, true, 0, 1));
    assert!(!sim.morning);
    sim.update();
    assert!(sim.morning);
    assert_eq!(sim.days, 1);
    assert_eq!(
        sim.data,
        vec![Datum { healthy: 0, vaccinated: 1, recovered: 0, incubating: 0, infected: 0, dead: 0 }]
    );
    assert_eq!(sim.entities[0].waypoints.len(), 8);
    sim.update();
    assert!(sim.morning);
    assert_eq!(sim.days, 1);
}

#[test]
fn build_lists_stores() {
    let mut sim = Simulation::new(false);
    assert_eq!(sim.build(Building::new(Block { x: 1, y: 1 }, BuildingKind::House)), 0);
    assert_eq!(sim.build(Building::new(Block { x: 2, y: 1 }, BuildingKind::Store)), 1);
    assert_eq!(sim.build(Building::new(Block { x: 3, y: 1 }, BuildingKind::Workplace)), 2);
    assert_eq!(sim.build(Building::new(Block { x: 4, y: 1 }, BuildingKind::Store)), 3);
    assert_eq!(sim.store_ids, vec![1, 3]);
    assert_eq!(sim.buildings.len(), 4);
}

#[test]
fn spawn_returns_ids_in_order() {
    let mut sim = town(false);
    assert_eq!(sim.spawn(Entity::new(Pos { x: 0, y: 0 }, None, false, 0, 1)), 0);
    assert_eq!(sim.spawn(Entity::new(Pos { x: 1, y: 0 }, None, false, 0, 1)), 1);
    assert_eq!(sim.entities.len(), 2);
}

#[test]
fn new_entity_is_infected_for_full_duration() {
    let v = virus(1, 2, 3);
    let e = Entity::new(Pos { x: 5, y: 6 }, Some(v), true, 2, 3);
    assert_eq!(e.status, Status::Infected(v, 7));
    assert!(e.vaccinated);
    assert_eq!((e.house_id, e.workplace_id), (2, 3));
    assert!(e.waypoints.is_empty());
    let h = Entity::new(Pos { x: 5, y: 6 }, None, false, 0, 0);
    assert_eq!(h.status, Status::Healthy);
}

#[test]
fn day_census_counts_each_category() {
    let mut sim = town(false);
    let v = virus(0, 0, 13_000);
    let statuses = [
        Status::Healthy,
        Status::Healthy,
        Status::Incubating(v, 2),
        Status::Infected(v, 0),
        Status::Recovered,
        Status::Dead,
    ];
    for (i, s) in statuses.iter().enumerate() {
        let mut e = Entity::new(Pos { x: 0, y: 0 }, None, i == 1, 0, 1);
        e.status = *s;
        sim.spawn(e);
    }
    assert_eq!(
        census(&sim.entities),
        Datum { healthy: 1, vaccinated: 1, recovered: 1, incubating: 1, infected: 1, dead: 1 }
    );
    sim.day();
    assert_eq!(sim.days, 1);
    assert_eq!(sim.data.len(), 1);
    assert_eq!(sim.entities[2].status, Status::Incubating(v, 1));
    assert_eq!(sim.entities[3].status, Status::Recovered);
    assert_eq!(sim.entities[4].status, Status::Recovered);
    assert_eq!(sim.entities[5].status, Status::Dead);
}

#[test]
fn entity_day_follows_the_machine() {
    let v = Virus { infectivity: 0, lethality: 0, incubation: 4, duration: 7, radius: 1 };
    let mut e = Entity::new(Pos { x: 0, y: 0 }, None, false, 0, 0);
    e.status = Status::Incubating(v, 0);
    e.day();
    assert_eq!(e.status, Status::Infected(v, 7));
    e.day();
    assert_eq!(e.status, Status::Infected(v, 6));
    e.status = Status::Infected(v, 0);
    e.day();
    assert_eq!(e.status, Status::Recovered);
    let deadly = Virus { lethality: 1_000_000, ..v };
    e.status = Status::Infected(deadly, 5);
    e.day();
    assert_eq!(e.status, Status::Dead);
}

#[test]
fn after_day_uses_the_roll() {
    let v = Virus { infectivity: 0, lethality: 500_000, incubation: 1, duration: 3, radius: 1 };
    assert_eq!(Status::Infected(v, 2).after_day(false, 499_999), Status::Dead);
    assert_eq!(Status::Infected(v, 2).after_day(false, 500_000), Status::Infected(v, 1));
    assert_eq!(Status::Infected(v, 2).after_day(true, 249_999), Status::Dead);
    assert_eq!(Status::Infected(v, 2).after_day(true, 250_000), Status::Infected(v, 1));
    assert_eq!(Status::Incubating(v, 3).after_day(false, 0), Status::Incubating(v, 2));
    assert_eq!(Status::Healthy.after_day(false, 0), Status::Healthy);
    assert_eq!(Status::Dead.after_day(false, 0), Status::Dead);
}

#[test]
fn transmission_threshold() {
    // infectivity 1.0 at radius 13: probability 1.0 / (26 / 3) = 0.11538...
    let v = Virus { infectivity: 1_000_000, lethality: 0, incubation: 1, duration: 1, radius: 13_000 };
    assert!(v.transmits(false, 115_384));
    assert!(!v.transmits(false, 115_385));
    // vaccinated: a fifth of that, 0.023076...
    assert!(v.transmits(true, 23_076));
    assert!(!v.transmits(true, 23_077));
}

#[test]
fn grid_conversions() {
    assert_eq!(block_to_pos(Block { x: 2, y: -1 }), Pos { x: 250_000, y: -50_000 });
    assert_eq!(recenter(Pos { x: 199_999, y: -1 }), Pos { x: 150_000, y: -50_000 });
    assert_eq!(snap(Pos { x: 199_999, y: -1 }), Pos { x: 100_000, y: -CELL_WIDTH });
    assert_eq!(snap(Pos { x: 200_000, y: 0 }), Pos { x: 200_000, y: 0 });
}

#[test]
fn fuzz_stays_within_span() {
    let p = Pos { x: 1_000_000, y: -2_000_000 };
    let mut moved = false;
    for _ in 0..200 {
        let q = fuzz(p);
        assert!(q.x - p.x >= -FUZZ_SPAN && q.x - p.x < FUZZ_SPAN);
        assert!(q.y - p.y >= -FUZZ_SPAN && q.y - p.y < FUZZ_SPAN);
        moved |= q != p;
    }
    assert!(moved);
}

#[test]
fn manhattan_goes_along_x_first() {
    let a = Pos { x: 1, y: 2 };
    let b = Pos { x: 5, y: 9 };
    assert_eq!(manhattan(a, b), vec![a, Pos { x: 5, y: 2 }, b]);
}

#[test]
fn planned_route_passes_cell_corners() {
    let from = Pos { x: 50_000, y: 50_000 };
    let to = Pos { x: 350_000, y: 250_000 };
    let end = Pos { x: 351_000, y: 249_000 };
    let r = plan_route(from, to, 500_000, 70, end);
    // halfway point (200000, 150000) snaps to corner (200000, 100000)
    assert_eq!(
        r,
        vec![
            Waypoint::Delay(70),
            Waypoint::Point(from),
            Waypoint::Point(Pos { x: 100_000, y: 100_000 }),
            Waypoint::Point(Pos { x: 200_000, y: 100_000 }),
            Waypoint::Point(Pos { x: 200_000, y: 100_000 }),
            Waypoint::Point(Pos { x: 300_000, y: 100_000 }),
            Waypoint::Point(Pos { x: 300_000, y: 200_000 }),
            Waypoint::Point(end),
        ]
    );
}

#[test]
fn walk_starts_with_a_dwell_and_ends_near_target() {
    let mut e = Entity::new(Pos { x: 50_000, y: 50_000 }, None, false, 0, 0);
    let to = Pos { x: 750_000, y: 450_000 };
    for _ in 0..50 {
        e.waypoints.clear();
        e.walk_to(to);
        assert_eq!(e.waypoints.len(), 8);
        match e.waypoints[0] {
            Waypoint::Delay(d) => assert!((60..90).contains(&d)),
            _ => panic!("a route starts with a dwell"),
        }
        assert_eq!(e.waypoints[1], Waypoint::Point(e.pos));
        match e.waypoints[7] {
            Waypoint::Point(p) => {
                assert!((p.x - to.x).abs() <= FUZZ_SPAN && (p.y - to.y).abs() <= FUZZ_SPAN)
            }
            _ => panic!("a route ends on a point"),
        }
    }
}

#[test]
fn movement_steps_at_fixed_speed_then_lands() {
    let mut e = Entity::new(Pos { x: 0, y: 0 }, None, false, 0, 0);
    e.waypoints.push(Waypoint::Delay(1));
    e.waypoints.push(Waypoint::Point(Pos { x: 30_000, y: 40_000 }));
    e.update();
    assert_eq!(e.waypoints[0], Waypoint::Delay(0));
    e.update();
    assert_eq!(e.waypoints.len(), 1);
    e.update();
    assert_eq!(e.pos, Pos { x: 1_800, y: 2_400 });
    for _ in 0..15 {
        e.update();
    }
    assert_eq!(e.pos, Pos { x: 28_800, y: 38_400 });
    // 2000 sub-units away: within reach, so it lands and the point is done
    e.update();
    assert_eq!(e.pos, Pos { x: 30_000, y: 40_000 });
    assert!(e.waypoints.is_empty());
}

#[test]
fn movement_steps_past_a_target_closer_than_one_step() {
    let mut e = Entity::new(Pos { x: 0, y: 0 }, None, false, 0, 0);
    e.waypoints.push(Waypoint::Point(Pos { x: 2_500, y: 0 }));
    e.update();
    assert_eq!(e.pos, Pos { x: 3_000, y: 0 });
    assert_eq!(e.waypoints.len(), 1);
    e.update();
    assert_eq!(e.pos, Pos { x: 2_500, y: 0 });
    assert!(e.waypoints.is_empty());
}

#[test]
fn jitter_offsets_by_draw_minus_span() {
    let p = Pos { x: 1_000, y: -2_000 };
    assert_eq!(jitter(p, 0, 59_999), Pos { x: 1_000 - 30_000, y: -2_000 + 29_999 });
    assert_eq!(jitter(p, 30_000, 30_000), p);
}

#[test]
fn sure_contact_infects_from_either_side() {
    let mut sim = town(false);
    let v = virus(100_000_000, 0, 13_000);
    sim.spawn(Entity::new(Pos { x: 0, y: 0 }, None, false, 0, 1));
    sim.spawn(Entity::new(Pos { x: 5_000, y: 0 }, Some(v), false, 0, 1));
    sim.spawn(Entity::new(Pos { x: 10_000, y: 0 }, None, true, 0, 1));
    sim.infections();
    assert_eq!(sim.entities[0].status, Status::Incubating(v, v.incubation));
    assert_eq!(sim.entities[1].status, Status::Infected(v, v.duration));
    assert_eq!(sim.entities[2].status, Status::Incubating(v, v.incubation));
}

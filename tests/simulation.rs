use rain::particle::{Drop, DropSize};
use rain::simulation::{draw_slots, Geometry, Simulation, SlotDraw, TARGET_POPULATION};

fn slot(gate: u16, size: DropSize, column: u16) -> SlotDraw {
    SlotDraw { gate, size, column }
}

#[test]
fn new_simulation_is_empty() {
    let sim = Simulation::new();
    assert_eq!(sim.len(), 0);
    assert!(sim.drops().is_empty());
    assert!(sim.cells().is_empty());
}

#[test]
fn gate_admits_only_above_five() {
    let mut sim = Simulation::new();
    let draws = vec![
        slot(5, DropSize::Small, 0),
        slot(6, DropSize::Medium, 1),
        slot(1, DropSize::Large, 2),
        slot(10, DropSize::Large, 3),
    ];
    sim.replenish_with(&draws);
    assert_eq!(sim.len(), 2);
    assert_eq!(sim.drops()[0], Drop::spawn(DropSize::Medium, 1));
    assert_eq!(sim.drops()[1], Drop::spawn(DropSize::Large, 3));
}

#[test]
fn replenish_never_exceeds_target() {
    let mut sim = Simulation::new();
    let draws: Vec<SlotDraw> = (0..50).map(|i| slot(10, DropSize::Small, i)).collect();
    sim.replenish_with(&draws);
    assert_eq!(sim.len(), TARGET_POPULATION);
    assert_eq!(sim.drops()[29].column(), 29);
    sim.replenish_with(&draws);
    assert_eq!(sim.len(), TARGET_POPULATION);
}

#[test]
fn advance_prunes_exactly_at_rows() {
    let g = Geometry { columns: 10, rows: 5 };
    let mut sim = Simulation::new();
    sim.advance_with(g, &vec![slot(9, DropSize::Small, 0), slot(9, DropSize::Large, 1)]);
    assert_eq!(sim.len(), 2);
    // Small: row 3 after one tick; Large: row 1.
    sim.advance_with(g, &vec![]);
    assert_eq!(sim.len(), 2);
    assert_eq!(sim.drops()[0].row(), 3);
    assert_eq!(sim.drops()[1].row(), 1);
    // Small would reach row 6 >= 5: gone. Large reaches 2.
    sim.advance_with(g, &vec![]);
    assert_eq!(sim.len(), 1);
    assert_eq!(sim.drops()[0].size(), DropSize::Large);
    assert_eq!(sim.drops()[0].row(), 2);
    // Large: 3, 4, then 5 == rows: gone.
    sim.advance_with(g, &vec![]);
    sim.advance_with(g, &vec![]);
    assert_eq!(sim.drops()[0].row(), 4);
    sim.advance_with(g, &vec![]);
    assert_eq!(sim.len(), 0);
}

#[test]
fn advance_after_shrink_removes_drops_below() {
    let mut sim = Simulation::new();
    sim.advance_with(Geometry { columns: 10, rows: 50 }, &vec![slot(7, DropSize::Large, 4)]);
    for _ in 0..10 {
        sim.advance_with(Geometry { columns: 10, rows: 50 }, &vec![]);
    }
    assert_eq!(sim.drops()[0].row(), 10);
    sim.advance_with(Geometry { columns: 10, rows: 8 }, &vec![]);
    assert_eq!(sim.len(), 0);
}

#[test]
fn nothing_spawns_on_empty_area() {
    let mut sim = Simulation::new();
    let mut rng = rand::thread_rng();
    sim.advance(Geometry { columns: 0, rows: 5 }, &mut rng);
    assert_eq!(sim.len(), 0);
    sim.advance(Geometry { columns: 5, rows: 0 }, &mut rng);
    assert_eq!(sim.len(), 0);
    sim.add_new_drops(0, &mut rng);
    assert_eq!(sim.len(), 0);
}

#[test]
fn small_terminal_spawns_within_width() {
    let g = Geometry { columns: 10, rows: 5 };
    let mut rng = rand::thread_rng();
    let mut sim = Simulation::new();
    sim.advance(g, &mut rng);
    assert!(sim.len() <= TARGET_POPULATION);
    for d in sim.drops() {
        assert!(d.column() < 10);
        assert_eq!(d.row(), 0);
    }
    for _ in 0..100 {
        sim.advance(g, &mut rng);
        assert!(sim.len() <= TARGET_POPULATION);
        for d in &sim.drops()[..] {
            assert!(d.row() < 5);
            assert!(d.column() < 10);
        }
    }
}

#[test]
fn population_grows_when_nothing_leaves() {
    let g = Geometry { columns: 80, rows: 1000 };
    let mut rng = rand::thread_rng();
    let mut sim = Simulation::new();
    let mut reached_target = false;
    for _ in 0..100 {
        let before = sim.len();
        sim.advance(g, &mut rng);
        assert!(sim.len() >= before);
        assert!(sim.len() <= TARGET_POPULATION);
        if sim.len() == TARGET_POPULATION {
            reached_target = true;
        }
    }
    assert!(reached_target);
}

#[test]
fn add_new_drops_keeps_existing_and_spawns_fresh() {
    let mut rng = rand::thread_rng();
    let mut sim = Simulation::new();
    sim.replenish_with(&vec![slot(6, DropSize::Medium, 3)]);
    sim.advance_with(Geometry { columns: 10, rows: 20 }, &vec![]);
    for _ in 0..20 {
        sim.add_new_drops(4, &mut rng);
    }
    assert_eq!(sim.drops()[0].row(), 2);
    assert_eq!(sim.drops()[0].column(), 3);
    for d in &sim.drops()[1..] {
        assert_eq!(d.row(), 0);
        assert!(d.column() < 4);
    }
    assert!(sim.len() <= TARGET_POPULATION);
}

#[test]
fn slot_draws_in_range() {
    let mut rng = rand::thread_rng();
    let draws = draw_slots(500, 3, &mut rng);
    assert_eq!(draws.len(), 500);
    for w in &draws {
        assert!((1..=10).contains(&w.gate));
        assert!(w.column < 3);
    }
    assert!(draws.iter().any(|w| w.column != 0));
}

#[test]
fn cells_follow_drops() {
    let mut sim = Simulation::new();
    sim.replenish_with(&vec![slot(6, DropSize::Small, 3), slot(6, DropSize::Large, 8)]);
    let cells = sim.cells();
    assert_eq!(cells.len(), 2);
    assert_eq!(cells[0], sim.drops()[0].cell());
    assert_eq!(cells[1].glyph, '|');
    assert_eq!(cells[1].column, 8);
}

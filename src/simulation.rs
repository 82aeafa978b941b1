use crate::particle::{cell_of, drop_at, is_fresh, ticked, Cell, Drop, DropSize, DropView};
use crate::random::{generate_drop_size, generate_gate, generate_random_number};
use rand::rngs::ThreadRng;
use vstd::prelude::*;

verus! {

/// The population the simulation keeps topping up towards.
pub const TARGET_POPULATION: usize = 30;

/// The visible area: columns bound where drops spawn, rows where they leave.
#[derive(Clone, Copy, Debug, PartialEq, Eq, Structural)]
pub struct Geometry {
    pub columns: u16,
    pub rows: u16,
}

/// Chance values for one missing slot: a coin value from 1 to 10, then
/// the size class and column of a new drop.
#[derive(Clone, Copy, Debug, PartialEq, Eq, Structural)]
pub struct SlotDraw {
    pub gate: u16,
    pub size: DropSize,
    pub column: u16,
}

/// A slot is filled when its gate draw is above 5.
pub open spec fn admits(gate: u16) -> bool {
    gate > 5
}

/// The drops that survive one frame: each ticked, kept when it is still above `rows`.
pub open spec fn survivors(s: Seq<DropView>, rows: u16) -> Seq<DropView>
    decreases s.len(),
{
    if s.len() == 0 {
        Seq::empty()
    } else {
        let rest = survivors(s.drop_last(), rows);
        let d = s.last();
        if d.row + d.speed < rows {
            rest.push(ticked(d))
        } else {
            rest
        }
    }
}

/// The drops that a run of slot draws spawns, in order.
pub open spec fn admitted(draws: Seq<SlotDraw>) -> Seq<DropView>
    decreases draws.len(),
{
    if draws.len() == 0 {
        Seq::empty()
    } else {
        let rest = admitted(draws.drop_last());
        let w = draws.last();
        if admits(w.gate) {
            rest.push(drop_at(w.size, w.column, 0))
        } else {
            rest
        }
    }
}

/// How many slots are missing from a population of `len`.
pub open spec fn missing(len: nat) -> nat {
    if len < TARGET_POPULATION { (TARGET_POPULATION - len) as nat } else { 0 }
}

/// The draws that are consulted when `len` drops are live: one per missing slot.
pub open spec fn consulted(draws: Seq<SlotDraw>, len: nat) -> Seq<SlotDraw> {
    if draws.len() <= missing(len) {
        draws
    } else {
        draws.take(missing(len) as int)
    }
}

/// Whether spawning can take place at all: the visible area is not empty.
pub open spec fn can_spawn(g: Geometry) -> bool {
    g.columns >= 1 && g.rows >= 1
}

pub proof fn lemma_survivors(s: Seq<DropView>, rows: u16)
    ensures
        survivors(s, rows).len() <= s.len(),
        forall|i: int| 0 <= i < survivors(s, rows).len() ==> survivors(s, rows)[i].row < rows,
        (forall|i: int| 0 <= i < s.len() ==> s[i].row + s[i].speed < rows) ==> survivors(
            s,
            rows,
        ).len() == s.len(),
    decreases s.len(),
{
    if s.len() > 0 {
        lemma_survivors(s.drop_last(), rows);
        assert forall|i: int| 0 <= i < s.drop_last().len() implies s.drop_last()[i] == s[i] by {}
    }
}

pub proof fn lemma_admitted(draws: Seq<SlotDraw>)
    ensures
        admitted(draws).len() <= draws.len(),
        forall|i: int|
            0 <= i < admitted(draws).len() ==> {
                let d = #[trigger] admitted(draws)[i];
                &&& d.row == 0
                &&& exists|j: int| 0 <= j < draws.len() && d == drop_at(draws[j].size, draws[j].column, 0)
            },
    decreases draws.len(),
{
    if draws.len() > 0 {
        let prefix = draws.drop_last();
        lemma_admitted(prefix);
        assert forall|i: int| 0 <= i < admitted(draws).len() implies {
            let d = #[trigger] admitted(draws)[i];
            &&& d.row == 0
            &&& exists|j: int| 0 <= j < draws.len() && d == drop_at(draws[j].size, draws[j].column, 0)
        } by {
            if i < admitted(prefix).len() {
                let d = admitted(prefix)[i];
                let j = choose|j: int| 0 <= j < prefix.len() && d == drop_at(prefix[j].size, prefix[j].column, 0);
                assert(prefix[j] == draws[j]);
            } else {
                let j = draws.len() - 1;
                assert(admitted(draws)[i] == drop_at(draws[j].size, draws[j].column, 0));
            }
        }
    }
}

/// Draws as the random source gives them: gates in `[1, 10]`, columns in `[0, cols)`.
pub open spec fn valid_draws(draws: Seq<SlotDraw>, cols: u16) -> bool {
    forall|i: int| 0 <= i < draws.len() ==> 1 <= #[trigger] draws[i].gate <= 10 && draws[i].column < cols
}

/// Every drop spawned from valid draws is fresh.
pub proof fn lemma_admitted_fresh(draws: Seq<SlotDraw>, cols: u16)
    requires
        valid_draws(draws, cols),
    ensures
        admitted(draws).len() <= draws.len(),
        forall|i: int| 0 <= i < admitted(draws).len() ==> is_fresh(#[trigger] admitted(draws)[i], cols),
{
    lemma_admitted(draws);
    assert forall|i: int| 0 <= i < admitted(draws).len() implies is_fresh(#[trigger] admitted(draws)[i], cols) by {
        let j = choose|j: int| 0 <= j < draws.len() && admitted(draws)[i] == drop_at(draws[j].size, draws[j].column, 0);
        assert(1 <= draws[j].gate <= 10);
        assert(draws[j].column < cols);
    }
}

/// The live drops. Order carries no meaning; the population never exceeds the target.
pub struct Simulation {
    drops: Vec<Drop>,
}

impl View for Simulation {
    type V = Seq<DropView>;

    closed spec fn view(&self) -> Seq<DropView> {
        self.drops@.map_values(|d: Drop| d@)
    }
}

/// Random outcomes for `count` slots, with columns in `[0, cols)`.
pub fn draw_slots(count: usize, cols: u16, rng: &mut ThreadRng) -> (r: Vec<SlotDraw>)
    requires
        cols >= 1,
    ensures
        r@.len() == count,
        forall|i: int| 0 <= i < count ==> 1 <= #[trigger] r@[i].gate <= 10 && r@[i].column < cols,
{
    let mut draws: Vec<SlotDraw> = Vec::new();
    let mut i: usize = 0;
    while i < count
        invariant
            i <= count,
            cols >= 1,
            draws@.len() == i,
            forall|k: int| 0 <= k < i ==> 1 <= #[trigger] draws@[k].gate <= 10 && draws@[k].column < cols,
        decreases count - i,
    {
        let gate = generate_gate(rng);
        let size = generate_drop_size(rng);
        let column = generate_random_number(0, cols, rng);
        let ghost before = draws@;
        draws.push(SlotDraw { gate, size, column });
        assert forall|k: int| 0 <= k < i + 1 implies 1 <= #[trigger] draws@[k].gate <= 10
            && draws@[k].column < cols by {
            if k < i {
                assert(draws@[k] == before[k]);
            }
        }
        i = i + 1;
    }
    draws
}

impl Simulation {
    /// The population never exceeds the target.
    pub open spec fn wf(&self) -> bool {
        self@.len() <= TARGET_POPULATION
    }

    /// An empty sky.
    pub fn new() -> (r: Simulation)
        ensures
            r@ == Seq::<DropView>::empty(),
            r.wf(),
    {
        let r = Simulation { drops: Vec::new() };
        assert(r@ =~= Seq::<DropView>::empty());
        r
    }

    /// How many drops are live.
    pub fn len(&self) -> (r: usize)
        requires
            self.wf(),
        ensures
            r == self@.len(),
            r <= TARGET_POPULATION,
    {
        self.drops.len()
    }

    /// The live drops.
    pub fn drops(&self) -> (r: &Vec<Drop>)
        ensures
            r@.map_values(|d: Drop| d@) == self@,
    {
        &self.drops
    }

    /// Ticks every drop, then removes those that reached `rows`.
    pub fn fall(&mut self, rows: u16)
        requires
            old(self).wf(),
        ensures
            final(self)@ == survivors(old(self)@, rows),
            final(self).wf(),
    {
        let ghost start = self@;
        let mut kept: Vec<Drop> = Vec::new();
        let mut i: usize = 0;
        while i < self.drops.len()
            invariant
                start == self@,
                self.drops@.len() <= TARGET_POPULATION,
                i <= self.drops@.len(),
                kept@.map_values(|d: Drop| d@) == survivors(start.take(i as int), rows),
                kept@.len() <= i,
            decreases self.drops@.len() - i,
        {
            let d = self.drops[i];
            proof {
                assert(start.take(i as int + 1).drop_last() =~= start.take(i as int));
                assert(start.take(i as int + 1).last() == d@);
                lemma_survivors(start.take(i as int + 1), rows);
            }
            let next: u32 = d.row() as u32 + d.speed() as u32;
            if next < rows as u32 {
                let mut moved = d;
                moved.tick();
                kept.push(moved);
                assert(kept@.map_values(|d: Drop| d@) =~= survivors(start.take(i as int), rows).push(
                    ticked(d@),
                ));
            }
            i = i + 1;
        }
        assert(start.take(i as int) =~= start);
        self.drops = kept;
        proof {
            lemma_survivors(start, rows);
        }
    }

    /// Tops the population up from `draws`: one draw per missing slot, in order,
    /// each spawning a drop at the top when its gate admits it.
    pub fn replenish_with(&mut self, draws: &Vec<SlotDraw>)
        requires
            old(self).wf(),
        ensures
            final(self)@ == old(self)@ + admitted(consulted(draws@, old(self)@.len())),
            final(self).wf(),
    {
        let ghost start = self@;
        let len = self.drops.len();
        let open_slots: usize = TARGET_POPULATION - len;
        let n: usize = if draws.len() < open_slots {
            draws.len()
        } else {
            open_slots
        };
        let ghost used = consulted(draws@, start.len());
        assert(draws@.take(n as int) =~= used);
        let mut i: usize = 0;
        while i < n
            invariant
                i <= n,
                n <= draws@.len(),
                len + n <= TARGET_POPULATION,
                start.len() == len,
                self@ == start + admitted(draws@.take(i as int)),
                self.drops@.len() <= len + i,
            decreases n - i,
        {
            let w = draws[i];
            proof {
                assert(draws@.take(i as int + 1).drop_last() =~= draws@.take(i as int));
                assert(draws@.take(i as int + 1).last() == w);
            }
            if w.gate > 5 {
                let ghost before = self@;
                self.drops.push(Drop::spawn(w.size, w.column));
                assert(self@ =~= before.push(drop_at(w.size, w.column, 0)));
            }
            proof {
                lemma_admitted(draws@.take(i as int + 1));
            }
            i = i + 1;
        }
    }

    /// Tops the population up with random drops in columns `[0, cols)`; with no
    /// columns nothing spawns.
    pub fn add_new_drops(&mut self, cols: u16, rng: &mut ThreadRng)
        requires
            old(self).wf(),
        ensures
            final(self).wf(),
            cols == 0 ==> final(self)@ == old(self)@,
            cols >= 1 ==> exists|w: Seq<SlotDraw>|
                #![trigger admitted(w)]
                w.len() == missing(old(self)@.len()) && valid_draws(w, cols) && final(self)@
                    == old(self)@ + admitted(w),
            final(self)@.len() >= old(self)@.len(),
            final(self)@.take(old(self)@.len() as int) == old(self)@,
            forall|i: int|
                old(self)@.len() <= i < final(self)@.len() ==> is_fresh(#[trigger] final(self)@[i], cols),
    {
        let ghost start = self@;
        if cols == 0 {
            return;
        }
        let open_slots: usize = TARGET_POPULATION - self.len();
        let draws = draw_slots(open_slots, cols, rng);
        self.replenish_with(&draws);
        proof {
            assert(consulted(draws@, start.len()) == draws@);
            lemma_admitted_fresh(draws@, cols);
            assert(self@.take(start.len() as int) =~= start);
            assert forall|i: int| start.len() <= i < self@.len() implies is_fresh(#[trigger] self@[i], cols) by {
                assert(self@[i] == admitted(draws@)[i - start.len()]);
            }
        }
    }

    /// One frame on fixed random outcomes: every drop ticks, those at or past
    /// `g.rows` leave, and then the missing slots are filled from `draws`.
    pub fn advance_with(&mut self, g: Geometry, draws: &Vec<SlotDraw>)
        requires
            old(self).wf(),
        ensures
            final(self).wf(),
            final(self)@ == survivors(old(self)@, g.rows) + if can_spawn(g) {
                admitted(consulted(draws@, survivors(old(self)@, g.rows).len()))
            } else {
                Seq::empty()
            },
    {
        self.fall(g.rows);
        if g.columns >= 1 && g.rows >= 1 {
            self.replenish_with(draws);
        } else {
            assert(self@ + Seq::empty() =~= self@);
        }
    }

    /// One frame: every drop ticks, those at or past `g.rows` leave, and then
    /// each missing slot is filled with even odds by a random drop.
    pub fn advance(&mut self, g: Geometry, rng: &mut ThreadRng)
        requires
            old(self).wf(),
        ensures
            final(self).wf(),
            final(self)@.len() <= TARGET_POPULATION,
            ({
                let kept = survivors(old(self)@, g.rows);
                &&& final(self)@.take(kept.len() as int) == kept
                &&& final(self)@.len() >= kept.len()
                &&& forall|i: int|
                    kept.len() <= i < final(self)@.len() ==> is_fresh(#[trigger] final(self)@[i], g.columns)
                &&& can_spawn(g) ==> exists|w: Seq<SlotDraw>|
                    #![trigger admitted(w)]
                    w.len() == missing(kept.len()) && valid_draws(w, g.columns) && final(self)@
                        == kept + admitted(w)
                &&& !can_spawn(g) ==> final(self)@ == kept
            }),
            forall|i: int| 0 <= i < final(self)@.len() ==> (#[trigger] final(self)@[i]).row < g.rows,
            (forall|i: int| 0 <= i < old(self)@.len() ==> (#[trigger] old(self)@[i]).row + old(self)@[i].speed < g.rows)
                ==> final(self)@.len() >= old(self)@.len(),
    {
        let ghost start = self@;
        let ghost kept = survivors(start, g.rows);
        proof {
            lemma_survivors(start, g.rows);
        }
        if g.columns >= 1 && g.rows >= 1 {
            let draws = draw_slots(TARGET_POPULATION, g.columns, rng);
            self.advance_with(g, &draws);
            proof {
                let w = consulted(draws@, kept.len());
                assert(w =~= draws@.take(missing(kept.len()) as int));
                assert(valid_draws(w, g.columns)) by {
                    assert forall|i: int| 0 <= i < w.len() implies 1 <= #[trigger] w[i].gate <= 10
                        && w[i].column < g.columns by {
                        assert(w[i] == draws@[i]);
                    }
                }
                lemma_admitted_fresh(w, g.columns);
                assert(self@.take(kept.len() as int) =~= kept);
                assert forall|i: int| kept.len() <= i < self@.len() implies is_fresh(
                    #[trigger] self@[i],
                    g.columns,
                ) by {
                    assert(self@[i] == admitted(w)[i - kept.len()]);
                }
                assert forall|i: int| 0 <= i < self@.len() implies (#[trigger] self@[i]).row < g.rows by {
                    if i < kept.len() {
                        assert(self@[i] == kept[i]);
                    } else {
                        assert(is_fresh(self@[i], g.columns));
                    }
                }
                assert(self@ == kept + admitted(w));
            }
        } else {
            self.advance_with(g, &Vec::new());
            assert(self@.take(kept.len() as int) =~= kept);
        }
    }

    /// What one frame draws: a cell for each live drop.
    pub fn cells(&self) -> (r: Vec<Cell>)
        ensures
            r@ == self@.map_values(|d: DropView| cell_of(d)),
    {
        let mut out: Vec<Cell> = Vec::new();
        let mut i: usize = 0;
        while i < self.drops.len()
            invariant
                i <= self.drops@.len(),
                out@ == self@.take(i as int).map_values(|d: DropView| cell_of(d)),
            decreases self.drops@.len() - i,
        {
            let c = self.drops[i].cell();
            out.push(c);
            assert(self@.take(i as int + 1).map_values(|d: DropView| cell_of(d)) =~= self@.take(
                i as int,
            ).map_values(|d: DropView| cell_of(d)).push(c));
            i = i + 1;
        }
        assert(self@.take(i as int) =~= self@);
        out
    }
}

} // verus!

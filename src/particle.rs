use vstd::prelude::*;

verus! {

/// The three visual weights a drop can have.
#[derive(Clone, Copy, Debug, PartialEq, Eq, Structural)]
pub enum DropSize {
    Small,
    Medium,
    Large,
}

/// Rows per frame for a size class: larger glyphs fall slower.
pub open spec fn speed_of(size: DropSize) -> u16 {
    match size {
        DropSize::Small => 3,
        DropSize::Medium => 2,
        DropSize::Large => 1,
    }
}

/// The glyph drawn for a size class.
pub open spec fn glyph_of(size: DropSize) -> char {
    match size {
        DropSize::Small => '.',
        DropSize::Medium => ':',
        DropSize::Large => '|',
    }
}

/// The size class numbered `value` (0, 1, 2), if any.
pub open spec fn size_of_index(value: u16) -> Option<DropSize> {
    if value == 0 {
        Some(DropSize::Small)
    } else if value == 1 {
        Some(DropSize::Medium)
    } else if value == 2 {
        Some(DropSize::Large)
    } else {
        None
    }
}

impl DropSize {
    /// Converts a numeric draw into a size class; out-of-range values give `None`.
    pub fn from_index(value: u16) -> (r: Option<DropSize>)
        ensures
            r == size_of_index(value),
    {
        match value {
            0 => Some(DropSize::Small),
            1 => Some(DropSize::Medium),
            2 => Some(DropSize::Large),
            _ => None,
        }
    }

    /// The glyph drawn for this size class.
    pub fn glyph(&self) -> (r: char)
        ensures
            r == glyph_of(*self),
    {
        match self {
            DropSize::Small => '.',
            DropSize::Medium => ':',
            DropSize::Large => '|',
        }
    }
}

/// The fall speed of a size class.
pub fn generate_speed(size: DropSize) -> (r: u16)
    ensures
        r == speed_of(size),
        1 <= r <= 3,
{
    match size {
        DropSize::Large => 1,
        DropSize::Medium => 2,
        DropSize::Small => 3,
    }
}

} // verus!

verus! {

/// What a drop is, as the contracts see it.
pub struct DropView {
    pub size: DropSize,
    pub speed: u16,
    pub column: u16,
    pub row: u16,
}

/// One falling particle: its size class and speed are fixed at creation,
/// its column too; only its row changes.
#[derive(Clone, Copy, Debug, PartialEq, Eq, Structural)]
pub struct Drop {
    drop_size: DropSize,
    speed: u16,
    x: u16,
    y: u16,
}

impl View for Drop {
    type V = DropView;

    closed spec fn view(&self) -> DropView {
        DropView { size: self.drop_size, speed: speed_of(self.drop_size), column: self.x, row: self.y }
    }
}

/// The drop of a given size, at a given column and row.
pub open spec fn drop_at(size: DropSize, column: u16, row: u16) -> DropView {
    DropView { size, speed: speed_of(size), column, row }
}

/// The drop after one tick: one `speed` further down.
pub open spec fn ticked(d: DropView) -> DropView
    recommends
        d.row + d.speed <= u16::MAX,
{
    DropView { row: (d.row + d.speed) as u16, ..d }
}

/// A freshly spawned drop: at the top of the screen.
pub open spec fn is_fresh(d: DropView, columns: u16) -> bool {
    &&& d.row == 0
    &&& d.column < columns
    &&& d.speed == speed_of(d.size)
}

/// Which of the two tones a drop is drawn in.
#[derive(Clone, Copy, Debug, PartialEq, Eq, Structural)]
pub enum Tone {
    Dim,
    Bright,
}

/// Small drops are dim; medium and large ones bright.
pub open spec fn tone_of(size: DropSize) -> Tone {
    match size {
        DropSize::Small => Tone::Dim,
        _ => Tone::Bright,
    }
}

/// One glyph to draw at a screen position.
#[derive(Clone, Copy, Debug, PartialEq, Eq, Structural)]
pub struct Cell {
    pub column: u16,
    pub row: u16,
    pub glyph: char,
    pub tone: Tone,
}

/// What is drawn for a drop.
pub open spec fn cell_of(d: DropView) -> Cell {
    Cell { column: d.column, row: d.row, glyph: glyph_of(d.size), tone: tone_of(d.size) }
}

impl Drop {
    #[verifier::type_invariant]
    spec fn speed_matches_size(&self) -> bool {
        self.speed == speed_of(self.drop_size)
    }

    /// A drop of size `size` at the top of column `column`.
    pub fn spawn(size: DropSize, column: u16) -> (r: Drop)
        ensures
            r@ == drop_at(size, column, 0),
    {
        Drop { drop_size: size, speed: generate_speed(size), x: column, y: 0 }
    }

    /// A drop's speed is fixed by its size class: large 1, medium 2, small 3.
    /// Since no operation changes the size class, the speed never changes either.
    pub proof fn lemma_speed_of_size(d: Drop)
        ensures
            d@.speed == speed_of(d@.size),
            d@.size == DropSize::Large ==> d@.speed == 1,
            d@.size == DropSize::Medium ==> d@.speed == 2,
            d@.size == DropSize::Small ==> d@.speed == 3,
    {
    }

    /// Moves the drop down by its speed; nothing else changes.
    pub fn tick(&mut self)
        requires
            old(self)@.row + old(self)@.speed <= u16::MAX,
        ensures
            final(self)@ == ticked(old(self)@),
            final(self)@.row == old(self)@.row + old(self)@.speed,
            final(self)@.speed == old(self)@.speed,
            final(self)@.speed == speed_of(final(self)@.size),
            final(self)@.size == old(self)@.size,
            final(self)@.column == old(self)@.column,
    {
        proof {
            use_type_invariant(&*self);
        }
        self.y = self.y + self.speed;
    }

    pub fn size(&self) -> (r: DropSize)
        ensures
            r == self@.size,
    {
        self.drop_size
    }

    pub fn speed(&self) -> (r: u16)
        ensures
            r == self@.speed,
            r == speed_of(self@.size),
            1 <= r <= 3,
    {
        proof {
            use_type_invariant(self);
        }
        self.speed
    }

    pub fn column(&self) -> (r: u16)
        ensures
            r == self@.column,
    {
        self.x
    }

    pub fn row(&self) -> (r: u16)
        ensures
            r == self@.row,
    {
        self.y
    }

    /// The glyph, tone and position at which this drop is drawn.
    pub fn cell(&self) -> (r: Cell)
        ensures
            r == cell_of(self@),
    {
        let tone = match self.drop_size {
            DropSize::Small => Tone::Dim,
            _ => Tone::Bright,
        };
        Cell { column: self.x, row: self.y, glyph: self.drop_size.glyph(), tone }
    }
}

} // verus!

//! Identity coloring: a configurable ordered palette maps each numeric
//! user identity to a stroke color by `id mod size`, so every peer draws a
//! given participant in the same color without any coordination.

use vstd::prelude::*;

verus! {

/// A stroke color, under the name the drawing surface knows it by.
#[derive(Clone, Copy, Debug, PartialEq, Eq, Structural)]
pub enum Color {
    Tomato,
    Orange,
    MediumSeaGreen,
    DodgerBlue,
    RebeccaPurple,
    Gray,
    Black,
}

impl Color {
    pub open spec fn spec_css_name(self) -> Seq<char> {
        match self {
            Color::Tomato => "Tomato"@,
            Color::Orange => "Orange"@,
            Color::MediumSeaGreen => "MediumSeaGreen"@,
            Color::DodgerBlue => "DodgerBlue"@,
            Color::RebeccaPurple => "RebeccaPurple"@,
            Color::Gray => "Gray"@,
            Color::Black => "black"@,
        }
    }

    /// The name handed to the drawing surface.
    pub fn css_name(&self) -> (r: &'static str)
        ensures
            r@ == self.spec_css_name(),
    {
        match self {
            Color::Tomato => "Tomato",
            Color::Orange => "Orange",
            Color::MediumSeaGreen => "MediumSeaGreen",
            Color::DodgerBlue => "DodgerBlue",
            Color::RebeccaPurple => "RebeccaPurple",
            Color::Gray => "Gray",
            Color::Black => "black",
        }
    }
}

/// An ordered, non-empty list of colors indexed by identity modulo its
/// size. Deployments differ only in the list they configure here.
pub struct Palette {
    pub colors: Vec<Color>,
}

impl Palette {
    /// A palette must offer at least one color.
    pub open spec fn wf(self) -> bool {
        self.colors@.len() >= 1
    }

    /// The color the palette assigns to identity `id`.
    pub open spec fn spec_color_for(self, id: int) -> Color {
        self.colors@[id % self.colors@.len() as int]
    }

    /// Any non-empty list of colors is a palette; an empty one is refused.
    pub fn new(colors: Vec<Color>) -> (r: Option<Palette>)
        ensures
            match r {
                Some(p) => colors@.len() >= 1 && p.colors@ == colors@ && p.wf(),
                None => colors@.len() == 0,
            },
    {
        if colors.len() == 0 {
            None
        } else {
            Some(Palette { colors })
        }
    }

    /// The two-color deployment: one color for even identities, one for
    /// odd.
    pub fn two_color() -> (p: Palette)
        ensures
            p.wf(),
            p.colors@ == seq![Color::Tomato, Color::DodgerBlue],
    {
        let mut colors: Vec<Color> = Vec::new();
        colors.push(Color::Tomato);
        colors.push(Color::DodgerBlue);
        proof {
            assert(colors@ =~= seq![Color::Tomato, Color::DodgerBlue]);
        }
        Palette { colors }
    }

    /// The five-color deployment: tomato through purple, in palette order.
    pub fn five_color() -> (p: Palette)
        ensures
            p.wf(),
            p.colors@ == seq![
                Color::Tomato,
                Color::Orange,
                Color::MediumSeaGreen,
                Color::DodgerBlue,
                Color::RebeccaPurple,
            ],
    {
        let mut colors: Vec<Color> = Vec::new();
        colors.push(Color::Tomato);
        colors.push(Color::Orange);
        colors.push(Color::MediumSeaGreen);
        colors.push(Color::DodgerBlue);
        colors.push(Color::RebeccaPurple);
        proof {
            assert(colors@ =~= seq![
                Color::Tomato,
                Color::Orange,
                Color::MediumSeaGreen,
                Color::DodgerBlue,
                Color::RebeccaPurple,
            ]);
        }
        Palette { colors }
    }

    /// Deterministic identity coloring: pure, total for every identity.
    pub fn color_for(&self, id: u32) -> (c: Color)
        requires
            self.wf(),
        ensures
            c == self.spec_color_for(id as int),
    {
        let idx = (id as usize) % self.colors.len();
        self.colors[idx]
    }
}

/// Identity coloring is periodic in the palette size: `id` and
/// `id + size` always take the same color, for every palette and every
/// identity.
pub proof fn lemma_color_periodic(p: Palette, id: int)
    requires
        p.wf(),
        id >= 0,
    ensures
        p.spec_color_for(id) == p.spec_color_for(id + p.colors@.len()),
{
    vstd::arithmetic::div_mod::lemma_mod_add_multiples_vanish(id, p.colors@.len() as int);
}

} // verus!

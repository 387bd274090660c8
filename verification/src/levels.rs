//! The levels of the delivery game, and what a click on its title screen
//! asks for.

use crate::paths::{MapName, MapNameView};
use crate::text::{has_prefix, same_text, strip_prefix};
use vstd::prelude::*;
use vstd::string::*;

verus! {

/// A level of the game.
pub struct Level {
    pub title: &'static str,
    /// The map on which it is played.
    pub map: MapName,
    /// The node where the player starts.
    pub start: i64,
    pub minimap_zoom: usize,
    pub num_upzones: usize,
    /// What the player may ride.
    pub vehicles: Vec<&'static str>,
}

/// A `Level` as a mathematical value.
pub struct LevelView {
    pub title: Seq<char>,
    pub map: MapNameView,
    pub start: i64,
    pub minimap_zoom: usize,
    pub num_upzones: usize,
    pub vehicles: Seq<Seq<char>>,
}

impl View for Level {
    type V = LevelView;

    open spec fn view(&self) -> LevelView {
        LevelView {
            title: self.title@,
            map: self.map@,
            start: self.start,
            minimap_zoom: self.minimap_zoom,
            num_upzones: self.num_upzones,
            vehicles: Seq::new(self.vehicles@.len(), |k: int| self.vehicles@[k]@),
        }
    }
}

/// The Seattle map `map`.
pub open spec fn seattle(map: Seq<char>) -> MapNameView {
    MapNameView { country: "us"@, city: "seattle"@, map }
}

/// The three levels, in their order.
pub open spec fn levels() -> Seq<LevelView> {
    seq![
        LevelView {
            title: "Level 1 - a small neighborhood"@,
            map: seattle("montlake"@),
            start: 53084814,
            minimap_zoom: 1,
            num_upzones: 0,
            vehicles: seq!["sleigh"@],
        },
        LevelView {
            title: "Level 2 - a small neighborhood with upzones"@,
            map: seattle("montlake"@),
            start: 53084814,
            minimap_zoom: 1,
            num_upzones: 3,
            vehicles: seq!["bike"@, "cargo bike"@, "sleigh"@],
        },
        LevelView {
            title: "Level 3 - Magnolia"@,
            map: seattle("ballard"@),
            start: 53117102,
            minimap_zoom: 2,
            num_upzones: 5,
            vehicles: seq!["bike"@, "cargo bike"@, "sleigh"@],
        },
    ]
}

/// The levels of the game.
pub fn all_levels() -> (all: Vec<Level>)
    ensures
        all@.len() == 3,
        forall|k: int| 0 <= k < 3 ==> (#[trigger] all@[k])@ == levels()[k],
{
    let all = vec![
        Level {
            title: "Level 1 - a small neighborhood",
            map: MapName::seattle("montlake"),
            start: 53084814,
            minimap_zoom: 1,
            num_upzones: 0,
            vehicles: vec!["sleigh"],
        },
        Level {
            title: "Level 2 - a small neighborhood with upzones",
            map: MapName::seattle("montlake"),
            start: 53084814,
            minimap_zoom: 1,
            num_upzones: 3,
            vehicles: vec!["bike", "cargo bike", "sleigh"],
        },
        Level {
            title: "Level 3 - Magnolia",
            map: MapName::seattle("ballard"),
            start: 53117102,
            minimap_zoom: 2,
            num_upzones: 5,
            vehicles: vec!["bike", "cargo bike", "sleigh"],
        },
    ];
    proof {
        assert(all@[0]@.vehicles =~= levels()[0].vehicles);
        assert(all@[1]@.vehicles =~= levels()[1].vehicles);
        assert(all@[2]@.vehicles =~= levels()[2].vehicles);
    }
    all
}

/// What a click on the title screen asks for.
pub enum TitleAction {
    /// Leave the game.
    Quit,
    /// Show how the game is played.
    Instructions,
    /// Open this address in a browser.
    OpenUrl(String),
    /// Play the level at this place among the levels.
    Play(usize),
    /// Nothing that the title screen knows.
    Unknown,
}

/// The first level with the title `x` stands at place `k`.
pub open spec fn is_level(x: Seq<char>, k: int) -> bool {
    &&& 0 <= k < levels().len()
    &&& levels()[k].title == x
    &&& forall|j: int| 0 <= j < k ==> (#[trigger] levels()[j]).title != x
}

/// `action` is what the button named `x` asks for. The two fixed buttons go
/// first, then a button that opens an address, then the levels by their
/// titles.
pub open spec fn asks(x: Seq<char>, action: TitleAction) -> bool {
    if x == "quit"@ {
        action is Quit
    } else if x == "Instructions"@ {
        action is Instructions
    } else if has_prefix(x, "open "@) {
        action matches TitleAction::OpenUrl(url) && url@ == x.skip("open "@.len() as int)
    } else if exists|k: int| is_level(x, k) {
        action matches TitleAction::Play(k) && is_level(x, k as int)
    } else {
        action is Unknown
    }
}

/// What the button named `x` of the title screen asks for.
pub fn title_action(x: &str) -> (action: TitleAction)
    ensures
        asks(x@, action),
{
    if same_text(x, "quit") {
        return TitleAction::Quit;
    }
    if same_text(x, "Instructions") {
        return TitleAction::Instructions;
    }
    if let Some(url) = strip_prefix(x, "open ") {
        return TitleAction::OpenUrl(String::from_str(url));
    }
    let all = all_levels();
    let mut k: usize = 0;
    while k < all.len()
        invariant
            k <= all@.len(),
            all@.len() == 3,
            levels().len() == 3,
            x@ != "quit"@,
            x@ != "Instructions"@,
            !has_prefix(x@, "open "@),
            forall|j: int| 0 <= j < 3 ==> (#[trigger] all@[j])@ == levels()[j],
            forall|j: int| 0 <= j < k ==> (#[trigger] levels()[j]).title != x@,
        decreases all@.len() - k,
    {
        if same_text(x, all[k].title) {
            assert(all@[k as int]@ == levels()[k as int]);
            assert(is_level(x@, k as int));
            return TitleAction::Play(k);
        }
        assert(all@[k as int]@ == levels()[k as int]);
        k += 1;
    }
    assert forall|j: int| !is_level(x@, j) by {
        if 0 <= j < 3 {
            assert(levels()[j].title != x@);
        }
    }
    TitleAction::Unknown
}

} // verus!

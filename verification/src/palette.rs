//! The colors that the idle microphone icon can have.

use vstd::prelude::*;

use crate::text;

verus! {

/// A color of the palette: the name that the settings keep, its label in the menu, and its sRGB
/// components in thousandths.
#[derive(Clone, Copy, Debug)]
pub struct IconColor {
    pub id: &'static str,
    pub label: &'static str,
    pub red: u32,
    pub green: u32,
    pub blue: u32,
}

/// The palette.
pub open spec fn palette() -> Seq<IconColor> {
    seq![
        IconColor { id: "coral", label: "Korálová", red: 1000, green: 604, blue: 635 },
        IconColor { id: "peach", label: "Broskvová", red: 1000, green: 718, blue: 698 },
        IconColor { id: "yellow", label: "Žlutá", red: 992, green: 894, blue: 651 },
        IconColor { id: "mint", label: "Mátová", red: 710, green: 918, blue: 843 },
        IconColor { id: "sky", label: "Nebeská", red: 635, green: 824, blue: 1000 },
        IconColor { id: "lavender", label: "Levandulová", red: 780, green: 698, blue: 871 },
        IconColor { id: "pink", label: "Růžová", red: 1000, green: 718, blue: 871 },
    ]
}

/// The palette, in the order of the menu.
pub fn icon_colors() -> (colors: Vec<IconColor>)
    ensures
        colors@ == palette(),
{
    vec![
        IconColor { id: "coral", label: "Korálová", red: 1000, green: 604, blue: 635 },
        IconColor { id: "peach", label: "Broskvová", red: 1000, green: 718, blue: 698 },
        IconColor { id: "yellow", label: "Žlutá", red: 992, green: 894, blue: 651 },
        IconColor { id: "mint", label: "Mátová", red: 710, green: 918, blue: 843 },
        IconColor { id: "sky", label: "Nebeská", red: 635, green: 824, blue: 1000 },
        IconColor { id: "lavender", label: "Levandulová", red: 780, green: 698, blue: 871 },
        IconColor { id: "pink", label: "Růžová", red: 1000, green: 718, blue: 871 },
    ]
}

/// The first color from position `from` on that has an id.
pub open spec fn color_from(id: Seq<char>, from: nat) -> Option<IconColor>
    decreases palette().len() - from,
{
    if from >= palette().len() {
        None
    } else if palette()[from as int].id@ == id {
        Some(palette()[from as int])
    } else {
        color_from(id, from + 1)
    }
}

/// The color that the settings ask for; none where they ask for the default icon, or for a
/// color that the palette does not hold.
pub fn color_with_id(id: &str) -> (color: Option<IconColor>)
    ensures
        color == color_from(id@, 0),
{
    let colors = icon_colors();
    let mut i: usize = 0;
    while i < colors.len()
        invariant
            i <= colors@.len(),
            colors@ == palette(),
            color_from(id@, 0) == color_from(id@, i as nat),
        decreases colors.len() - i,
    {
        if text::spells(text::chars_of(colors[i].id).as_slice(), id) {
            return Some(colors[i]);
        }
        i += 1;
    }
    None
}

/// The ids of the palette are words, and no two of them are the same.
pub proof fn lemma_ids_are_told_apart()
    ensures
        forall|i: int|
            0 <= i < palette().len() ==> (#[trigger] palette()[i]).id@.len() > 0 && forall|k: int|
                0 <= k < palette()[i].id@.len() ==> !text::is_white(#[trigger] palette()[i].id@[k]),
        forall|i: int, j: int|
            0 <= i < palette().len() && 0 <= j < palette().len() && (#[trigger] palette()[i]).id@
                == (#[trigger] palette()[j]).id@ ==> i == j,
{
    reveal_strlit("coral");
    reveal_strlit("peach");
    reveal_strlit("yellow");
    reveal_strlit("mint");
    reveal_strlit("sky");
    reveal_strlit("lavender");
    reveal_strlit("pink");
    let colors = palette();
    assert(colors[0].id@[0] != colors[1].id@[0]);
    assert(colors[3].id@[0] != colors[6].id@[0]);
    assert(colors[0].id@.len() == 5 && colors[1].id@.len() == 5 && colors[2].id@.len() == 6);
    assert(colors[3].id@.len() == 4 && colors[4].id@.len() == 3 && colors[5].id@.len() == 8);
    assert(colors[6].id@.len() == 4);
}

/// Every color of the palette is found by its id.
pub proof fn lemma_color_is_found(i: int, from: nat)
    requires
        0 <= from <= i < palette().len(),
    ensures
        color_from(palette()[i].id@, from) == Some(palette()[i]),
    decreases i - from,
{
    lemma_ids_are_told_apart();
    if from < i {
        lemma_color_is_found(i, from + 1);
    }
}

/// An id that the palette does not hold finds no color.
pub proof fn lemma_no_color_is_found(id: Seq<char>, from: nat)
    requires
        forall|i: int| 0 <= i < palette().len() ==> (#[trigger] palette()[i]).id@ != id,
    ensures
        color_from(id, from) is None,
    decreases palette().len() - from,
{
    if from < palette().len() {
        assert(palette()[from as int].id@ != id);
        lemma_no_color_is_found(id, from + 1);
    }
}

} // verus!

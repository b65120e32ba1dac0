//! Characters other than the player, and their placement from the data of a
//! cutscene.

use vstd::prelude::*;
use crate::direction::{Direction, DirectionTable};
use crate::player::SheetHandle;
use crate::script::{ScriptedCharacter, ScriptedEvent};
use crate::sprite::SpriteFrameSet;

verus! {

/// A character standing on the map.
#[derive(Clone, Debug, PartialEq, Eq)]
pub struct Character {
    pub name: String,
    pub texture: SpriteFrameSet,
    /// The map cell the character stands in.
    pub x: i32,
    pub y: i32,
    /// Offset from the centre of the cell, in sub-pixel units.
    pub offset_x: i32,
    pub offset_y: i32,
    pub dir: Direction,
}

/// Whether `name` is the name by which scripts call the player. The player is
/// no character of the scene: it is drawn and moved by its own rules.
pub open spec fn is_farmer(name: Seq<char>) -> bool {
    name == "farmer"@
}

/// The sprite of a character on sheet `sheet`: frames of 16 by 32 pixels, one
/// row for each direction in the order of the ordinals.
pub open spec fn character_sprite(sheet: SheetHandle) -> SpriteFrameSet {
    SpriteFrameSet {
        texture: sheet.texture,
        sheet_width: sheet.width,
        index: 0,
        frame_size: (16, 32),
        draw_offset: (0, 0),
        rows: DirectionTable { down: Some(0), right: Some(1), up: Some(2), left: Some(3) },
    }
}

impl ScriptedCharacter {
    /// Whether the facing code is one that scripts use.
    pub open spec fn wf(&self) -> bool {
        self.dir < 4
    }

    /// The character as it stands on the map, drawn from `sheet`: in the
    /// middle of its cell, facing as the script says.
    pub open spec fn placed_spec(&self, sheet: SheetHandle) -> Character
        recommends
            self.wf(),
    {
        Character {
            name: self.name,
            texture: character_sprite(sheet),
            x: self.x,
            y: self.y,
            offset_x: 0,
            offset_y: 0,
            dir: Direction::from_script_code_spec(self.dir).unwrap(),
        }
    }

    /// Places the character on the map.
    pub fn placed(&self, sheet: SheetHandle) -> (character: Character)
        requires
            self.wf(),
        ensures
            character == self.placed_spec(sheet),
    {
        let dir = match Direction::from_script_code(self.dir) {
            Some(dir) => dir,
            None => Direction::Down,
        };
        Character {
            name: self.name.clone(),
            texture: SpriteFrameSet {
                texture: sheet.texture,
                sheet_width: sheet.width,
                index: 0,
                frame_size: (16, 32),
                draw_offset: (0, 0),
                rows: DirectionTable { down: Some(0), right: Some(1), up: Some(2), left: Some(3) },
            },
            x: self.x,
            y: self.y,
            offset_x: 0,
            offset_y: 0,
            dir,
        }
    }
}

/// The names of those among the first `n` scripted characters that are
/// characters of the scene, in their order.
pub open spec fn cast_names(characters: Seq<ScriptedCharacter>, n: int) -> Seq<String>
    decreases n,
{
    if n <= 0 {
        Seq::empty()
    } else if is_farmer(characters[n - 1].name@) {
        cast_names(characters, n - 1)
    } else {
        cast_names(characters, n - 1).push(characters[n - 1].name)
    }
}

/// The characters of the scene among the first `n` scripted characters, in
/// their order, the k-th of them drawn from the k-th sheet.
pub open spec fn cast_placed(
    characters: Seq<ScriptedCharacter>,
    sheets: Seq<SheetHandle>,
    n: int,
) -> Seq<Character>
    decreases n,
{
    if n <= 0 {
        Seq::empty()
    } else if is_farmer(characters[n - 1].name@) {
        cast_placed(characters, sheets, n - 1)
    } else {
        let before = cast_placed(characters, sheets, n - 1);
        before.push(characters[n - 1].placed_spec(sheets[before.len() as int]))
    }
}

/// As many characters are placed as names are cast.
pub proof fn lemma_cast_sizes(characters: Seq<ScriptedCharacter>, sheets: Seq<SheetHandle>, n: int)
    requires
        n <= characters.len(),
    ensures
        cast_placed(characters, sheets, n).len() == cast_names(characters, n).len(),
        cast_names(characters, n).len() <= if n < 0 {
            0
        } else {
            n
        },
    decreases n,
{
    if n > 0 {
        lemma_cast_sizes(characters, sheets, n - 1);
    }
}

/// The player is never among the placed characters, and every placed
/// character has the name of its turn in the cast.
pub proof fn lemma_cast_is_without_farmer(
    characters: Seq<ScriptedCharacter>,
    sheets: Seq<SheetHandle>,
    n: int,
    k: int,
)
    requires
        n <= characters.len(),
        0 <= k < cast_placed(characters, sheets, n).len(),
    ensures
        !is_farmer(cast_placed(characters, sheets, n)[k].name@),
        cast_placed(characters, sheets, n)[k].name == cast_names(characters, n)[k],
    decreases n,
{
    lemma_cast_sizes(characters, sheets, n);
    if n > 0 {
        lemma_cast_sizes(characters, sheets, n - 1);
        if k < cast_placed(characters, sheets, n - 1).len() {
            lemma_cast_is_without_farmer(characters, sheets, n - 1, k);
        }
    }
}

impl ScriptedEvent {
    /// Whether the facing code of every character of the scene is one that
    /// scripts use. The player's entry is not looked at: the player faces as
    /// its own rules say.
    pub open spec fn wf(&self) -> bool {
        forall|i: int|
            0 <= i < self.characters.len() && !is_farmer((#[trigger] self.characters[i]).name@)
                ==> self.characters[i].wf()
    }

    /// Whether the values are those of a usable event.
    pub fn check(&self) -> (ok: bool)
        ensures
            ok == self.wf(),
    {
        let farmer = "farmer".to_owned();
        let mut i: usize = 0;
        while i < self.characters.len()
            invariant
                i <= self.characters.len(),
                is_farmer(farmer@),
                forall|k: int|
                    0 <= k < i && !is_farmer((#[trigger] self.characters[k]).name@)
                        ==> self.characters[k].wf(),
            decreases self.characters.len() - i,
        {
            if self.characters[i].name != farmer && self.characters[i].dir >= 4 {
                return false;
            }
            i = i + 1;
        }
        true
    }

    /// The names of the characters for which a sheet has to be had, in the
    /// order in which `characters_for_event` takes the sheets.
    pub fn cast(&self) -> (names: Vec<String>)
        ensures
            names@ == cast_names(self.characters@, self.characters.len() as int),
    {
        let farmer = "farmer".to_owned();
        let mut names: Vec<String> = Vec::new();
        let mut i: usize = 0;
        while i < self.characters.len()
            invariant
                i <= self.characters.len(),
                is_farmer(farmer@),
                names@ == cast_names(self.characters@, i as int),
            decreases self.characters.len() - i,
        {
            if self.characters[i].name != farmer {
                names.push(self.characters[i].name.clone());
            }
            i = i + 1;
        }
        names
    }
}

/// Places the characters of a cutscene on the map, all but the player, each
/// drawn from the sheet of its turn in `sheets`.
pub fn characters_for_event(event: &ScriptedEvent, sheets: &Vec<SheetHandle>) -> (characters: Vec<
    Character,
>)
    requires
        event.wf(),
        sheets.len() == cast_names(event.characters@, event.characters.len() as int).len(),
    ensures
        characters@ == cast_placed(event.characters@, sheets@, event.characters.len() as int),
        characters.len() == sheets.len(),
{
    let farmer = "farmer".to_owned();
    let mut characters: Vec<Character> = Vec::new();
    let mut i: usize = 0;
    proof {
        lemma_cast_sizes(event.characters@, sheets@, event.characters.len() as int);
    }
    while i < event.characters.len()
        invariant
            i <= event.characters.len(),
            event.wf(),
            is_farmer(farmer@),
            sheets.len() == cast_names(event.characters@, event.characters.len() as int).len(),
            characters@ == cast_placed(event.characters@, sheets@, i as int),
            characters.len() == cast_names(event.characters@, i as int).len(),
        decreases event.characters.len() - i,
    {
        if event.characters[i].name != farmer {
            proof {
                lemma_cast_names_grow(
                    event.characters@,
                    i as int + 1,
                    event.characters.len() as int,
                );
            }
            let sheet = sheets[characters.len()];
            characters.push(event.characters[i].placed(sheet));
        }
        i = i + 1;
    }
    characters
}

/// The cast of a longer prefix is at least as long.
proof fn lemma_cast_names_grow(characters: Seq<ScriptedCharacter>, m: int, n: int)
    requires
        m <= n,
    ensures
        cast_names(characters, m).len() <= cast_names(characters, n).len(),
    decreases n - m,
{
    if m < n {
        lemma_cast_names_grow(characters, m, n - 1);
    }
}

} // verus!

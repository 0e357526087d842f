//! The level grid: an immutable-after-load rectangular array of tiles, a
//! mapping of collectible item positions to item kinds, the player start
//! coordinate, and the level's starting control slots, together with the
//! text-based level-format loader.

use vstd::prelude::*;

use crate::game::{Control, ControlType, Item, ItemType, Pos, Tile, TileType};

verus! {

/// Grid width of the standard level format.
pub const LEVEL_WIDTH: usize = 20;

/// Grid height of the standard level format.
pub const LEVEL_HEIGHT: usize = 15;

/// Number of control slots in the inventory and in a level's starting set.
pub const NUM_CONTROL_SLOTS: usize = 4;

/// Why a textual level description was rejected.
#[derive(Clone, Copy, PartialEq, Eq, Structural, Debug)]
pub enum LoadError {
    /// A terrain row holds more characters than the grid is wide.
    LineTooLong,
    /// A starting-control line does not begin with one of `<`, `>`, `^`, `v`
    /// followed by a space.
    BadControlSymbol,
    /// A starting-control line's energy field is missing, not a decimal
    /// number, or too large for a `u32`.
    BadEnergy,
}

/// A rectangular grid of tiles in row-major order, with the collectible
/// items, the player start position, and the starting control slots.
#[derive(PartialEq, Eq, Debug)]
pub struct Level {
    pub number: usize,
    pub width: usize,
    pub height: usize,
    pub player_start: Pos,
    /// Terrain, row-major: the tile at `(x, y)` is `tiles[y * width + x]`.
    pub tiles: Vec<Tile>,
    /// Collectible items, row-major like `tiles`; `None` where the cell
    /// holds no item.
    pub items: Vec<Option<Item>>,
    /// The inventory the player begins this level with.
    pub controls_start: Vec<Option<Control>>,
}

impl Level {
    /// Well-formedness: the grid is a non-empty rectangle, both grids have
    /// one entry per cell, the start lies inside, there are exactly four
    /// starting control slots, and items only ever lie on floor tiles.
    pub open spec fn wf(self) -> bool {
        &&& 0 < self.width
        &&& 0 < self.height
        &&& self.width * self.height <= usize::MAX
        &&& self.tiles@.len() == self.width * self.height
        &&& self.items@.len() == self.width * self.height
        &&& self.controls_start@.len() == NUM_CONTROL_SLOTS
        &&& self.player_start.x < self.width
        &&& self.player_start.y < self.height
        &&& forall|i: int|
            0 <= i < self.items@.len() && (#[trigger] self.items@[i]) is Some
                ==> self.tiles@[i].tile_type == TileType::Floor
    }

    /// The row-major index of cell `(x, y)`.
    pub open spec fn spec_index_of(self, x: int, y: int) -> int {
        y * self.width + x
    }

    /// The terrain at cell `(x, y)`.
    pub open spec fn spec_tile_at(self, x: int, y: int) -> TileType {
        self.tiles@[self.spec_index_of(x, y)].tile_type
    }

    /// The item (if any) at cell `(x, y)`.
    pub open spec fn spec_item_at(self, x: int, y: int) -> Option<Item> {
        self.items@[self.spec_index_of(x, y)]
    }

    /// An all-floor level of the given size with no items, the player start
    /// in the top-left corner, and four empty starting slots.
    pub fn empty(number: usize, width: usize, height: usize) -> (r: Level)
        requires
            0 < width,
            0 < height,
            width * height <= usize::MAX,
        ensures
            r.wf(),
            r.number == number,
            r.width == width,
            r.height == height,
            r.player_start == (Pos { x: 0, y: 0 }),
            forall|i: int| 0 <= i < width * height ==> (#[trigger] r.tiles@[i]).tile_type == TileType::Floor,
            forall|i: int| 0 <= i < width * height ==> (#[trigger] r.items@[i]) is None,
            forall|i: int| 0 <= i < NUM_CONTROL_SLOTS ==> (#[trigger] r.controls_start@[i]) is None,
    {
        let n = width * height;
        let mut tiles: Vec<Tile> = Vec::new();
        let mut items: Vec<Option<Item>> = Vec::new();
        let mut k: usize = 0;
        while k < n
            invariant
                k <= n,
                tiles@.len() == k,
                items@.len() == k,
                forall|i: int| 0 <= i < k ==> (#[trigger] tiles@[i]).tile_type == TileType::Floor,
                forall|i: int| 0 <= i < k ==> (#[trigger] items@[i]) is None,
            decreases n - k,
        {
            tiles.push(Tile { tile_type: TileType::Floor });
            items.push(None);
            k += 1;
        }
        let mut controls_start: Vec<Option<Control>> = Vec::new();
        let mut s: usize = 0;
        while s < NUM_CONTROL_SLOTS
            invariant
                s <= NUM_CONTROL_SLOTS,
                controls_start@.len() == s,
                forall|i: int| 0 <= i < s ==> (#[trigger] controls_start@[i]) is None,
            decreases NUM_CONTROL_SLOTS - s,
        {
            controls_start.push(None);
            s += 1;
        }
        Level {
            number,
            width,
            height,
            player_start: Pos { x: 0, y: 0 },
            tiles,
            items,
            controls_start,
        }
    }

    /// The standard-size level before anything is loaded into it: all floor,
    /// no items, no starting controls.
    pub fn new() -> (r: Level)
        ensures
            r.wf(),
            r.number == 0,
            r.width == LEVEL_WIDTH,
            r.height == LEVEL_HEIGHT,
            r.player_start == (Pos { x: 0, y: 0 }),
            forall|i: int| 0 <= i < r.tiles@.len() ==> (#[trigger] r.tiles@[i]).tile_type == TileType::Floor,
            forall|i: int| 0 <= i < r.items@.len() ==> (#[trigger] r.items@[i]) is None,
            forall|i: int| 0 <= i < NUM_CONTROL_SLOTS ==> (#[trigger] r.controls_start@[i]) is None,
    {
        Level::empty(0, LEVEL_WIDTH, LEVEL_HEIGHT)
    }

    /// Bounds-checked tile lookup; callers must pre-validate the coordinate.
    pub fn get(&self, x: usize, y: usize) -> (r: Option<Tile>)
        requires
            self.wf(),
            x < self.width,
            y < self.height,
        ensures
            r == Some(self.tiles@[self.spec_index_of(x as int, y as int)]),
    {
        proof {
            lemma_grid_index_in_range(self.width as int, self.height as int, x as int, y as int);
        }
        Some(self.tiles[y * self.width + x])
    }

    /// The item (if any) at cell `(x, y)`.
    pub fn item_at(&self, x: usize, y: usize) -> (r: Option<Item>)
        requires
            self.wf(),
            x < self.width,
            y < self.height,
        ensures
            r == self.spec_item_at(x as int, y as int),
    {
        proof {
            lemma_grid_index_in_range(self.width as int, self.height as int, x as int, y as int);
        }
        self.items[y * self.width + x]
    }
}

// ----------------------------------------------------------------------
// The textual level format.
//
// A level description is a list of lines: first `height` terrain rows of up
// to `width` characters each, then up to four lines describing the starting
// control slots.  In a terrain row, `#` is a wall, `>` is the exit, and any
// other character is floor; `@` marks the player start (the terrain under it
// is floor), and `u`, `r`, `d`, `l` place an up/right/down/left-control item
// on a floor cell.  A control line is `<symbol> <energy>` with symbol one of
// `<`, `>`, `^`, `v`, or empty for an empty slot.
// ----------------------------------------------------------------------

/// The terrain character of cell `(x, y)`, taking a missing row or a row
/// shorter than the grid as blank (floor).
pub open spec fn char_at(lines: Seq<String>, x: int, y: int) -> char {
    if 0 <= y < lines.len() && 0 <= x < lines[y]@.len() {
        lines[y]@[x]
    } else {
        ' '
    }
}

/// The terrain a character denotes.
pub open spec fn tile_of_char(c: char) -> TileType {
    if c == '#' {
        TileType::Wall
    } else if c == '>' {
        TileType::Exit
    } else {
        TileType::Floor
    }
}

/// The item a character places, if any.
pub open spec fn item_of_char(c: char) -> Option<Item> {
    if c == 'u' {
        Some(Item { item_type: ItemType::UpControl })
    } else if c == 'r' {
        Some(Item { item_type: ItemType::RightControl })
    } else if c == 'd' {
        Some(Item { item_type: ItemType::DownControl })
    } else if c == 'l' {
        Some(Item { item_type: ItemType::LeftControl })
    } else {
        None
    }
}

/// The player start the description designates: the last `@` in row-major
/// order among the first `n` cells, or the top-left corner if there is none.
pub open spec fn start_scan(lines: Seq<String>, width: int, n: int) -> Pos
    decreases n,
{
    if n <= 0 || width <= 0 {
        Pos { x: 0, y: 0 }
    } else {
        let i = n - 1;
        let x = i % width;
        let y = i / width;
        if char_at(lines, x, y) == '@' {
            Pos { x: x as usize, y: y as usize }
        } else {
            start_scan(lines, width, n - 1)
        }
    }
}

/// The player start of a whole `width` by `height` description.
pub open spec fn start_pos(lines: Seq<String>, width: int, height: int) -> Pos {
    start_scan(lines, width, width * height)
}

/// Whether a character is a starting-control direction symbol.
pub open spec fn is_control_symbol(c: char) -> bool {
    c == '<' || c == '>' || c == '^' || c == 'v'
}

/// The direction a starting-control symbol denotes.
pub open spec fn control_type_of_symbol(c: char) -> ControlType {
    if c == '<' {
        ControlType::Left
    } else if c == '>' {
        ControlType::Right
    } else if c == 'v' {
        ControlType::Down
    } else {
        ControlType::Up
    }
}

/// The first position at or after `from` holding a space, or the line's
/// length if there is none.
pub open spec fn token_end(line: Seq<char>, from: int) -> int
    decreases line.len() - from,
{
    if from < 0 || from >= line.len() {
        line.len() as int
    } else if line[from] == ' ' {
        from
    } else {
        token_end(line, from + 1)
    }
}

/// Whether a character is a decimal digit (code 48 through 57).
pub open spec fn is_digit(c: char) -> bool {
    48 <= c as int <= 57
}

/// The value of a decimal digit character.
pub open spec fn digit_val(c: char) -> int {
    c as int - 48
}

/// Whether a non-empty character sequence consists of decimal digits only.
pub open spec fn all_digits(s: Seq<char>) -> bool {
    s.len() > 0 && forall|i: int| 0 <= i < s.len() ==> is_digit(#[trigger] s[i])
}

/// The number a sequence of decimal digits denotes.
pub open spec fn digits_val(s: Seq<char>) -> int
    decreases s.len(),
{
    if s.len() == 0 {
        0
    } else {
        digits_val(s.drop_last()) * 10 + digit_val(s.last())
    }
}

/// The energy field of a control line: the characters from position 2 up to
/// the next space.
pub open spec fn energy_token(line: Seq<char>) -> Seq<char> {
    line.subrange(2, token_end(line, 2))
}

/// A control line opens with a lone direction symbol: either the whole line
/// is that one character, or a space follows it.
pub open spec fn symbol_ok(line: Seq<char>) -> bool {
    &&& line.len() >= 1
    &&& is_control_symbol(line[0])
    &&& (line.len() == 1 || line[1] == ' ')
}

/// A control line's energy field is a decimal number that fits in a `u32`.
pub open spec fn energy_ok(line: Seq<char>) -> bool {
    &&& line.len() >= 3
    &&& all_digits(energy_token(line))
    &&& digits_val(energy_token(line)) <= u32::MAX
}

/// Why a control line is rejected, or `None` for a well-formed one.
pub open spec fn control_line_err(line: Seq<char>) -> Option<LoadError> {
    if line.len() == 0 {
        None
    } else if !symbol_ok(line) {
        Some(LoadError::BadControlSymbol)
    } else if !energy_ok(line) {
        Some(LoadError::BadEnergy)
    } else {
        None
    }
}

/// The starting control a well-formed control line denotes: `None` for an
/// empty line (an empty slot), the symbol's direction and the parsed energy
/// otherwise.
pub open spec fn control_of_line(line: Seq<char>) -> Option<Control> {
    if line.len() == 0 {
        None
    } else {
        Some(
            Control {
                energy: digits_val(energy_token(line)) as u32,
                control_type: control_type_of_symbol(line[0]),
            },
        )
    }
}

/// Every terrain row fits the grid's width.
pub open spec fn terrain_ok(lines: Seq<String>, width: int, height: int) -> bool {
    forall|y: int| 0 <= y < height && y < lines.len() ==> (#[trigger] lines[y])@.len() <= width
}

/// How many starting-control lines the description carries (at most four).
pub open spec fn num_control_lines(lines: Seq<String>, height: int) -> int {
    if lines.len() <= height {
        0
    } else if lines.len() >= height + 4 {
        4
    } else {
        lines.len() - height
    }
}

/// The error of the first rejected control line at or after slot `i`.
pub open spec fn first_control_err(lines: Seq<String>, height: int, i: int) -> Option<LoadError>
    decreases 4 - i,
{
    if i < 0 || i >= num_control_lines(lines, height) {
        None
    } else if control_line_err(lines[height + i]@) is Some {
        control_line_err(lines[height + i]@)
    } else {
        first_control_err(lines, height, i + 1)
    }
}

/// Why a whole description is rejected, or `None` when it loads: an
/// over-long terrain row is reported first, then the first rejected control
/// line.
pub open spec fn load_err(lines: Seq<String>, width: int, height: int) -> Option<LoadError> {
    if !terrain_ok(lines, width, height) {
        Some(LoadError::LineTooLong)
    } else {
        first_control_err(lines, height, 0)
    }
}

/// What a successful load yields: the level whose terrain, items, player
/// start, and starting controls are exactly those the description denotes.
pub open spec fn is_parse_of(
    lvl: Level,
    number: int,
    width: int,
    height: int,
    lines: Seq<String>,
) -> bool {
    &&& lvl.wf()
    &&& lvl.number == number
    &&& lvl.width == width
    &&& lvl.height == height
    &&& forall|x: int, y: int|
        0 <= x < width && 0 <= y < height ==> (#[trigger] lvl.tiles@[y * width + x]).tile_type
            == tile_of_char(char_at(lines, x, y))
    &&& forall|x: int, y: int|
        0 <= x < width && 0 <= y < height ==> #[trigger] lvl.items@[y * width + x]
            == item_of_char(char_at(lines, x, y))
    &&& lvl.player_start == start_pos(lines, width, height)
    &&& forall|i: int|
        0 <= i < 4 ==> #[trigger] lvl.controls_start@[i] == (if i < num_control_lines(
            lines,
            height,
        ) {
            control_of_line(lines[height + i]@)
        } else {
            None
        })
}

/// `token_end` names the first space at or after `from`: it lies between
/// `from` and the line's length, everything before it is not a space, and it
/// points at a space unless it is the length.
proof fn lemma_token_end(line: Seq<char>, from: int)
    requires
        0 <= from <= line.len(),
    ensures
        from <= token_end(line, from) <= line.len(),
        forall|j: int| from <= j < token_end(line, from) ==> line[j] != ' ',
        token_end(line, from) < line.len() ==> line[token_end(line, from)] == ' ',
    decreases line.len() - from,
{
    if from < line.len() && line[from] != ' ' {
        lemma_token_end(line, from + 1);
    }
}

/// A sequence of decimal digits denotes a non-negative number.
proof fn lemma_digits_nonneg(s: Seq<char>)
    requires
        forall|i: int| 0 <= i < s.len() ==> is_digit(#[trigger] s[i]),
    ensures
        digits_val(s) >= 0,
    decreases s.len(),
{
    if s.len() > 0 {
        lemma_digits_nonneg(s.drop_last());
    }
}

/// Dropping trailing digits never increases the denoted number.
proof fn lemma_digits_prefix_le(s: Seq<char>, k: int)
    requires
        forall|i: int| 0 <= i < s.len() ==> is_digit(#[trigger] s[i]),
        0 <= k <= s.len(),
    ensures
        digits_val(s.take(k)) <= digits_val(s),
    decreases s.len(),
{
    if k == s.len() {
        assert(s.take(k) =~= s);
    } else {
        assert(s.drop_last() =~= s.take(s.len() - 1));
        assert(s.take(k) =~= s.drop_last().take(k));
        lemma_digits_prefix_le(s.drop_last(), k);
        lemma_digits_nonneg(s.drop_last());
    }
}

/// Parses one starting-control line: empty for an empty slot, otherwise a
/// direction symbol, a space, and a decimal energy; anything after a second
/// space is ignored.
pub fn parse_control_line(line: &str) -> (r: Result<Option<Control>, LoadError>)
    ensures
        r matches Ok(c) ==> control_line_err(line@) is None && c == control_of_line(line@),
        r matches Err(e) ==> control_line_err(line@) == Some(e),
{
    let n = line.unicode_len();
    if n == 0 {
        return Ok(None);
    }
    let c0 = line.get_char(0);
    let symbol_is_known = c0 == '<' || c0 == '>' || c0 == '^' || c0 == 'v';
    if !(symbol_is_known && (n == 1 || line.get_char(1) == ' ')) {
        return Err(LoadError::BadControlSymbol);
    }
    if n < 3 {
        return Err(LoadError::BadEnergy);
    }
    // Find where the energy field ends: the next space, or the line's end.
    let mut end: usize = 2;
    while end < n && line.get_char(end) != ' '
        invariant
            2 <= end <= n,
            n == line@.len(),
            token_end(line@, 2) == token_end(line@, end as int),
        decreases n - end,
    {
        end += 1;
    }
    proof {
        lemma_token_end(line@, 2);
        assert(token_end(line@, end as int) == end);
    }
    let ghost tok = energy_token(line@);
    if end == 2 {
        // The energy field is empty.
        return Err(LoadError::BadEnergy);
    }
    let mut val: u32 = 0;
    let mut i: usize = 2;
    while i < end
        invariant
            2 <= i <= end <= n,
            n == line@.len(),
            symbol_ok(line@),
            end == token_end(line@, 2),
            tok == energy_token(line@),
            forall|j: int| 0 <= j < i - 2 ==> is_digit(#[trigger] tok[j]),
            val == digits_val(tok.take(i - 2)),
        decreases end - i,
    {
        let c = line.get_char(i);
        let code = c as u32;
        proof {
            assert(tok[i - 2] == line@[i as int]);
        }
        if code < 48 || code > 57 {
            // A non-digit in the energy field.
            assert(!all_digits(tok));
            return Err(LoadError::BadEnergy);
        }
        let d = code - 48;
        if val > (u32::MAX - d) / 10 {
            // The energy does not fit in a `u32`.
            proof {
                assert(val * 10 + d > u32::MAX);
                assert(tok.take(i - 2 + 1).drop_last() =~= tok.take(i - 2));
                assert(digits_val(tok.take(i - 2 + 1)) == val * 10 + d);
                if all_digits(tok) {
                    lemma_digits_prefix_le(tok, i - 2 + 1);
                }
            }
            return Err(LoadError::BadEnergy);
        }
        proof {
            assert(tok.take(i - 2 + 1).drop_last() =~= tok.take(i - 2));
        }
        val = val * 10 + d;
        i += 1;
    }
    proof {
        assert(tok.take(end - 2) =~= tok);
        assert(all_digits(tok));
    }
    let control_type = if c0 == '<' {
        ControlType::Left
    } else if c0 == '>' {
        ControlType::Right
    } else if c0 == 'v' {
        ControlType::Down
    } else {
        ControlType::Up
    };
    Ok(Some(Control { energy: val, control_type }))
}

impl Level {
    /// Writes one character of a terrain row into the grid: the cell's tile
    /// becomes what the character denotes, `@` moves the player start here,
    /// and `u`, `r`, `d`, `l` place an item here.  The cell must not already
    /// hold an item; the loader writes each cell exactly once.
    fn set_from_char(&mut self, col: usize, row: usize, c: char)
        requires
            old(self).wf(),
            col < old(self).width,
            row < old(self).height,
            old(self).spec_item_at(col as int, row as int) is None,
        ensures
            final(self).wf(),
            final(self).tiles@ == old(self).tiles@.update(
                row as int * old(self).width + col as int,
                Tile { tile_type: tile_of_char(c) },
            ),
            final(self).items@ == old(self).items@.update(
                row as int * old(self).width + col as int,
                item_of_char(c),
            ),
            final(self).player_start == (if c == '@' {
                Pos { x: col, y: row }
            } else {
                old(self).player_start
            }),
            final(self).width == old(self).width,
            final(self).height == old(self).height,
            final(self).number == old(self).number,
            final(self).controls_start == old(self).controls_start,
    {
        proof {
            lemma_grid_index_in_range(self.width as int, self.height as int, col as int, row as int);
        }
        let idx = row * self.width + col;
        let tile_type = if c == '#' {
            TileType::Wall
        } else if c == '>' {
            TileType::Exit
        } else {
            TileType::Floor
        };
        self.tiles.set(idx, Tile::new(tile_type));
        if c == '@' {
            self.player_start = Pos { x: col, y: row };
        } else if c == 'u' {
            self.items.set(idx, Some(Item::new(ItemType::UpControl)));
        } else if c == 'r' {
            self.items.set(idx, Some(Item::new(ItemType::RightControl)));
        } else if c == 'd' {
            self.items.set(idx, Some(Item::new(ItemType::DownControl)));
        } else if c == 'l' {
            self.items.set(idx, Some(Item::new(ItemType::LeftControl)));
        }
        proof {
            assert(self.items@ =~= old(self).items@.update(idx as int, item_of_char(c)));
        }
    }
}

/// If no control line from slot `k` on is rejected, the scan finds no error.
proof fn lemma_first_control_err_none(lines: Seq<String>, height: int, k: int)
    requires
        0 <= k,
        forall|j: int|
            k <= j < num_control_lines(lines, height) ==> (#[trigger] control_line_err(
                lines[height + j]@,
            )) is None,
    ensures
        first_control_err(lines, height, k) is None,
    decreases 4 - k,
{
    if k < num_control_lines(lines, height) {
        lemma_first_control_err_none(lines, height, k + 1);
    }
}

/// If every control line before slot `i` is accepted and slot `i` is
/// rejected, the scan from slot `k` reports slot `i`'s error.
proof fn lemma_first_control_err_at(lines: Seq<String>, height: int, k: int, i: int)
    requires
        0 <= k <= i < num_control_lines(lines, height),
        forall|j: int|
            k <= j < i ==> (#[trigger] control_line_err(lines[height + j]@)) is None,
        control_line_err(lines[height + i]@) is Some,
    ensures
        first_control_err(lines, height, k) == control_line_err(lines[height + i]@),
    decreases i - k,
{
    if k < i {
        lemma_first_control_err_at(lines, height, k + 1, i);
    }
}

impl Level {
    /// Loads a level from its textual description, given as the file's
    /// lines: `height` terrain rows (missing rows and missing trailing
    /// characters count as blank, hence floor), then up to four
    /// starting-control lines; anything further is ignored.  Returns the
    /// level the description denotes, or the first error found: an
    /// over-long terrain row, then the first rejected control line.
    pub fn load(number: usize, width: usize, height: usize, lines: &Vec<String>) -> (r: Result<
        Level,
        LoadError,
    >)
        requires
            0 < width,
            0 < height,
            width * height <= usize::MAX,
        ensures
            r matches Ok(lvl) ==> is_parse_of(lvl, number as int, width as int, height as int, lines@),
            r is Ok <==> load_err(lines@, width as int, height as int) is None,
            r matches Err(e) ==> load_err(lines@, width as int, height as int) == Some(e),
    {
        let ghost w = width as int;
        let ghost h = height as int;
        // Reject any over-long terrain row.
        let rows = if lines.len() < height {
            lines.len()
        } else {
            height
        };
        let mut y: usize = 0;
        while y < rows
            invariant
                y <= rows,
                w == width as int,
                h == height as int,
                rows == (if lines@.len() < h {
                    lines@.len() as int
                } else {
                    h
                }),
                forall|yy: int| 0 <= yy < y ==> (#[trigger] lines@[yy])@.len() <= w,
            decreases rows - y,
        {
            if lines[y].as_str().unicode_len() > width {
                assert(!terrain_ok(lines@, w, h));
                return Err(LoadError::LineTooLong);
            }
            y += 1;
        }
        assert(terrain_ok(lines@, w, h));
        // Parse the starting-control lines.
        let mut controls: Vec<Option<Control>> = Vec::new();
        let mut i: usize = 0;
        while i < NUM_CONTROL_SLOTS
            invariant
                i <= NUM_CONTROL_SLOTS,
                w == width as int,
                h == height as int,
                controls@.len() == i,
                terrain_ok(lines@, w, h),
                forall|j: int|
                    0 <= j < i ==> #[trigger] controls@[j] == (if j < num_control_lines(lines@, h) {
                        control_of_line(lines@[h + j]@)
                    } else {
                        None::<Control>
                    }),
                forall|j: int|
                    0 <= j < i && j < num_control_lines(lines@, h) ==> (#[trigger] control_line_err(
                        lines@[h + j]@,
                    )) is None,
            decreases NUM_CONTROL_SLOTS - i,
        {
            let has_line = lines.len() > height && i < lines.len() - height;
            let slot = if has_line {
                match parse_control_line(lines[height + i].as_str()) {
                    Ok(c) => c,
                    Err(e) => {
                        proof {
                            lemma_first_control_err_at(lines@, h, 0, i as int);
                        }
                        return Err(e);
                    }
                }
            } else {
                None
            };
            controls.push(slot);
            i += 1;
        }
        proof {
            lemma_first_control_err_none(lines@, h, 0);
        }
        // Fill the grid cell by cell, in row-major order.
        let mut level = Level::empty(number, width, height);
        level.controls_start = controls;
        let ghost cs = controls@;
        let mut row: usize = 0;
        while row < height
            invariant
                row <= height,
                0 < width,
                0 < height,
                w == width as int,
                h == height as int,
                width * height <= usize::MAX,
                level.wf(),
                level.width == width,
                level.height == height,
                level.number == number,
                level.controls_start@ == cs,
                forall|i: int|
                    0 <= i < row * w ==> (#[trigger] level.tiles@[i]).tile_type == tile_of_char(
                        char_at(lines@, i % w, i / w),
                    ),
                forall|i: int|
                    0 <= i < row * w ==> #[trigger] level.items@[i] == item_of_char(
                        char_at(lines@, i % w, i / w),
                    ),
                forall|i: int|
                    row * w <= i < w * h ==> (#[trigger] level.tiles@[i]).tile_type
                        == TileType::Floor,
                forall|i: int| row * w <= i < w * h ==> (#[trigger] level.items@[i]) is None,
                level.player_start == start_scan(lines@, w, row * w),
            decreases height - row,
        {
            let row_chars = if row < lines.len() {
                lines[row].as_str().unicode_len()
            } else {
                0
            };
            let mut col: usize = 0;
            while col < width
                invariant
                    col <= width,
                    row < height,
                    0 < width,
                    0 < height,
                    w == width as int,
                    h == height as int,
                    width * height <= usize::MAX,
                    row_chars == (if row < lines@.len() {
                        lines@[row as int]@.len() as int
                    } else {
                        0
                    }),
                    level.wf(),
                    level.width == width,
                    level.height == height,
                    level.number == number,
                    level.controls_start@ == cs,
                    forall|i: int|
                        0 <= i < row * w + col ==> (#[trigger] level.tiles@[i]).tile_type
                            == tile_of_char(char_at(lines@, i % w, i / w)),
                    forall|i: int|
                        0 <= i < row * w + col ==> #[trigger] level.items@[i] == item_of_char(
                            char_at(lines@, i % w, i / w),
                        ),
                    forall|i: int|
                        row * w + col <= i < w * h ==> (#[trigger] level.tiles@[i]).tile_type
                            == TileType::Floor,
                    forall|i: int| row * w + col <= i < w * h ==> (#[trigger] level.items@[i]) is None,
                    level.player_start == start_scan(lines@, w, row * w + col),
                decreases width - col,
            {
                let ghost n = row * w + col;
                proof {
                    lemma_grid_index_in_range(w, h, col as int, row as int);
                    lemma_cell_index(w, col as int, row as int);
                }
                let c = if row < lines.len() && col < row_chars {
                    lines[row].as_str().get_char(col)
                } else {
                    ' '
                };
                assert(c == char_at(lines@, col as int, row as int));
                level.set_from_char(col, row, c);
                proof {
                    assert(level.player_start == start_scan(lines@, w, n + 1));
                }
                col += 1;
            }
            proof {
                assert((row + 1) * w == row * w + w) by (nonlinear_arith);
            }
            row += 1;
        }
        proof {
            assert(height as int * w == w * h) by (nonlinear_arith)
                requires
                    h == height as int,
            ;
            assert forall|x: int, yy: int|
                0 <= x < w && 0 <= yy < h implies (#[trigger] level.tiles@[yy * w + x]).tile_type
                    == tile_of_char(char_at(lines@, x, yy)) by {
                lemma_grid_index_in_range(w, h, x, yy);
                lemma_cell_index(w, x, yy);
            }
            assert forall|x: int, yy: int|
                0 <= x < w && 0 <= yy < h implies #[trigger] level.items@[yy * w + x]
                    == item_of_char(char_at(lines@, x, yy)) by {
                lemma_grid_index_in_range(w, h, x, yy);
                lemma_cell_index(w, x, yy);
            }
        }
        Ok(level)
    }
}

/// If some cell among the first `n` holds `@`, the scan lands on a cell that
/// holds `@`.
proof fn lemma_start_scan_hit(lines: Seq<String>, width: int, n: int)
    requires
        0 < width <= usize::MAX,
        n <= usize::MAX,
        exists|i: int|
            0 <= i < n && #[trigger] char_at(lines, i % width, i / width) == '@',
    ensures
        ({
            let s = start_scan(lines, width, n);
            &&& char_at(lines, s.x as int, s.y as int) == '@'
            &&& s.x < width
            &&& s.y * width + s.x < n
        }),
    decreases n,
{
    let j = n - 1;
    let xj = j % width;
    let yj = j / width;
    let i = choose|i: int| 0 <= i < n && #[trigger] char_at(lines, i % width, i / width) == '@';
    vstd::arithmetic::div_mod::lemma_fundamental_div_mod(j, width);
    vstd::arithmetic::div_mod::lemma_mod_bound(j, width);
    if char_at(lines, xj, yj) == '@' {
        assert(yj * width == width * yj) by (nonlinear_arith);
    } else {
        assert(i < j);
        lemma_start_scan_hit(lines, width, n - 1);
    }
}

/// A loaded level never starts on its exit: if the description designates
/// the player start with `@` anywhere in the terrain region, the tile under
/// the start is floor, because `@` itself denotes floor.  (A description
/// with no `@` leaves the start at the top-left corner, whose terrain is
/// whatever the description puts there.)
pub proof fn lemma_loaded_start_is_floor(
    lvl: Level,
    number: int,
    width: int,
    height: int,
    lines: Seq<String>,
)
    requires
        is_parse_of(lvl, number, width, height, lines),
        exists|x: int, y: int|
            0 <= x < width && 0 <= y < height && #[trigger] char_at(lines, x, y) == '@',
    ensures
        lvl.spec_tile_at(lvl.player_start.x as int, lvl.player_start.y as int) == TileType::Floor,
{
    let (x0, y0) = choose|x: int, y: int|
        0 <= x < width && 0 <= y < height && #[trigger] char_at(lines, x, y) == '@';
    lemma_grid_index_in_range(width, height, x0, y0);
    lemma_cell_index(width, x0, y0);
    let i0 = y0 * width + x0;
    assert(char_at(lines, i0 % width, i0 / width) == '@');
    lemma_start_scan_hit(lines, width, width * height);
    let s = start_pos(lines, width, height);
    assert(0 <= s.y * width + s.x < width * height);
    assert(s.y < height) by (nonlinear_arith)
        requires
            0 < width,
            0 <= s.x,
            0 <= s.y,
            s.y * width + s.x < width * height,
    ;
    assert(lvl.tiles@[s.y * width + s.x].tile_type == tile_of_char(char_at(lines, s.x as int, s.y as int)));
}

/// The row-major cell index `y * width + x` decomposes back into `x` and `y`.
pub proof fn lemma_cell_index(width: int, x: int, y: int)
    requires
        0 <= x < width,
        0 <= y,
    ensures
        (y * width + x) % width == x,
        (y * width + x) / width == y,
{
    vstd::arithmetic::div_mod::lemma_fundamental_div_mod_converse(y * width + x, width, y, x);
}

/// A cell's row-major index lies inside the grid.
pub proof fn lemma_grid_index_in_range(width: int, height: int, x: int, y: int)
    requires
        0 <= x < width,
        0 <= y < height,
    ensures
        0 <= y * width + x < width * height,
{
    assert(0 <= y * width + x < width * height) by (nonlinear_arith)
        requires
            0 <= x < width,
            0 <= y < height,
    ;
}

} // verus!

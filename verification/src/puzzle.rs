//! A 3 by 3 sliding-tile board: eight numbered tiles and one empty spot,
//! with parsing, printing, a solved-check and the classic inversion-parity
//! solvability test.

use vstd::prelude::*;
use vstd::string::StrSliceExecFns;

verus! {

/// A tile: empty, or a number from 1 to 8.
#[derive(Clone, Copy, Debug, PartialEq, Eq, Hash, Structural)]
pub struct Tile(u8);

impl Tile {
    /// The tile's raw value: its number, or 0 when empty.
    pub closed spec fn spec_value(&self) -> u8 {
        self.0
    }

    /// A tile from `Some(1..=8)`, or the empty tile from `None`.
    pub fn new(maybe_value: Option<u8>) -> (r: Self)
        requires
            maybe_value matches Some(n) ==> 1 <= n <= 8,
        ensures
            r.spec_value() == (match maybe_value {
                Some(n) => n,
                None => 0,
            }),
    {
        if let Some(n) = maybe_value {
            Self(n)
        } else {
            Self(0)
        }
    }

    /// The empty tile.
    pub fn empty() -> (r: Self)
        ensures
            r.spec_value() == 0,
    {
        Self(0)
    }

    /// `Some(number)` for a numbered tile, `None` for the empty one.
    pub fn number(&self) -> (r: Option<u8>)
        ensures
            self.spec_value() > 0 ==> r == Some(self.spec_value()),
            self.spec_value() == 0 ==> r is None,
    {
        if self.0 > 0 {
            Some(self.0)
        } else {
            None
        }
    }

    /// Whether this is the empty tile.
    pub fn is_empty(&self) -> (r: bool)
        ensures
            r == (self.spec_value() == 0),
    {
        self.0 == 0
    }
}

/// The tile value a character denotes: its digit for '1' through '8', and
/// the empty tile for anything else.
pub open spec fn value_of_char(c: char) -> u8 {
    if c == '1' {
        1
    } else if c == '2' {
        2
    } else if c == '3' {
        3
    } else if c == '4' {
        4
    } else if c == '5' {
        5
    } else if c == '6' {
        6
    } else if c == '7' {
        7
    } else if c == '8' {
        8
    } else {
        0
    }
}

/// The character denoting a tile value: its digit, or '.' for the empty
/// tile (and for any out-of-range value).
pub open spec fn char_of_value(v: u8) -> char {
    if v == 1 {
        '1'
    } else if v == 2 {
        '2'
    } else if v == 3 {
        '3'
    } else if v == 4 {
        '4'
    } else if v == 5 {
        '5'
    } else if v == 6 {
        '6'
    } else if v == 7 {
        '7'
    } else if v == 8 {
        '8'
    } else {
        '.'
    }
}

/// The nine tile values of a 3 by 3 tile matrix, in reading order.
pub open spec fn values_of_tiles(tiles: [[Tile; 3]; 3]) -> Seq<u8> {
    seq![
        tiles@[0]@[0].spec_value(),
        tiles@[0]@[1].spec_value(),
        tiles@[0]@[2].spec_value(),
        tiles@[1]@[0].spec_value(),
        tiles@[1]@[1].spec_value(),
        tiles@[1]@[2].spec_value(),
        tiles@[2]@[0].spec_value(),
        tiles@[2]@[1].spec_value(),
        tiles@[2]@[2].spec_value(),
    ]
}

/// The nine tile values a 12-character board string denotes: three per
/// line, each line closed by its newline character.
pub open spec fn values_of_string(s: Seq<char>) -> Seq<u8> {
    seq![
        value_of_char(s[0]),
        value_of_char(s[1]),
        value_of_char(s[2]),
        value_of_char(s[4]),
        value_of_char(s[5]),
        value_of_char(s[6]),
        value_of_char(s[8]),
        value_of_char(s[9]),
        value_of_char(s[10]),
    ]
}

/// No two of the nine values are equal.
pub open spec fn values_distinct(vs: Seq<u8>) -> bool {
    forall|a: int, b: int| 0 <= a < b < vs.len() ==> vs[a] != vs[b]
}

/// A 3 by 3 board of tiles.
#[derive(Clone, Copy, Debug, PartialEq, Eq, Hash)]
pub struct Board {
    tiles: [[Tile; 3]; 3],
}

impl Board {
    /// The tile value at a position.
    pub closed spec fn value_at(&self, row: int, col: int) -> u8 {
        self.tiles@[row]@[col].spec_value()
    }

    /// The nine tile values, in reading order.
    pub closed spec fn values(&self) -> Seq<u8> {
        values_of_tiles(self.tiles)
    }

    /// A board from a 3 by 3 tile matrix; no tile may occur twice.
    pub fn new(tiles: [[Tile; 3]; 3]) -> (b: Self)
        requires
            values_distinct(values_of_tiles(tiles)),
        ensures
            b.values() == values_of_tiles(tiles),
            values_distinct(b.values()),
    {
        Self { tiles }
    }

    /// The tile at `(row, col)`.
    pub fn get(&self, row: usize, col: usize) -> (t: Tile)
        requires
            row <= 2,
            col <= 2,
        ensures
            t.spec_value() == self.value_at(row as int, col as int),
    {
        self.tiles[row][col]
    }

    /// Swaps the tiles at the two given positions.
    pub fn swap(&mut self, r1: usize, c1: usize, r2: usize, c2: usize)
        requires
            r1 <= 2,
            c1 <= 2,
            r2 <= 2,
            c2 <= 2,
        ensures
            final(self).value_at(r1 as int, c1 as int) == old(self).value_at(
                r2 as int,
                c2 as int,
            ),
            final(self).value_at(r2 as int, c2 as int) == old(self).value_at(
                r1 as int,
                c1 as int,
            ),
            forall|i: int, j: int|
                0 <= i <= 2 && 0 <= j <= 2 && !(i == r1 && j == c1) && !(i == r2 && j == c2)
                    ==> final(self).value_at(i, j) == old(self).value_at(i, j),
    {
        let tile = self.tiles[r1][c1];
        let other = self.tiles[r2][c2];
        let mut row = self.tiles[r1];
        row[c1] = other;
        self.tiles[r1] = row;
        let mut row2 = self.tiles[r2];
        row2[c2] = tile;
        self.tiles[r2] = row2;
    }

    /// Parses a board from its 12-character text form: three lines of three
    /// characters, each line closed by a newline, a digit for a numbered
    /// tile and any other character (usually '.') for the empty spot. The
    /// nine denoted tiles must be pairwise distinct.
    pub fn from_string(s: &str) -> (b: Self)
        requires
            s@.len() == 12,
            vstd::string::is_ascii(s),
            values_distinct(values_of_string(s@)),
        ensures
            b.values() == values_of_string(s@),
            values_distinct(b.values()),
    {
        let tiles: [[Tile; 3]; 3] = [
            [
                tile_from_char(s.get_char(0)),
                tile_from_char(s.get_char(1)),
                tile_from_char(s.get_char(2)),
            ],
            [
                tile_from_char(s.get_char(4)),
                tile_from_char(s.get_char(5)),
                tile_from_char(s.get_char(6)),
            ],
            [
                tile_from_char(s.get_char(8)),
                tile_from_char(s.get_char(9)),
                tile_from_char(s.get_char(10)),
            ],
        ];
        proof {
            assert(values_of_tiles(tiles) =~= values_of_string(s@));
        }
        Board { tiles }
    }

    /// The 12-character text form of this board: the inverse of
    /// `from_string` for every board whose empty tile is written '.'.
    pub fn to_string(&self) -> (r: String)
        ensures
            r@ == seq![
                char_of_value(self.value_at(0, 0)),
                char_of_value(self.value_at(0, 1)),
                char_of_value(self.value_at(0, 2)),
                '\n',
                char_of_value(self.value_at(1, 0)),
                char_of_value(self.value_at(1, 1)),
                char_of_value(self.value_at(1, 2)),
                '\n',
                char_of_value(self.value_at(2, 0)),
                char_of_value(self.value_at(2, 1)),
                char_of_value(self.value_at(2, 2)),
                '\n',
            ],
    {
        let mut out = String::new();
        let ghost goal = seq![
            char_of_value(self.value_at(0, 0)),
            char_of_value(self.value_at(0, 1)),
            char_of_value(self.value_at(0, 2)),
            '\n',
            char_of_value(self.value_at(1, 0)),
            char_of_value(self.value_at(1, 1)),
            char_of_value(self.value_at(1, 2)),
            '\n',
            char_of_value(self.value_at(2, 0)),
            char_of_value(self.value_at(2, 1)),
            char_of_value(self.value_at(2, 2)),
            '\n',
        ];
        push_char(&mut out, char_of_tile(self.tiles[0][0]));
        push_char(&mut out, char_of_tile(self.tiles[0][1]));
        push_char(&mut out, char_of_tile(self.tiles[0][2]));
        push_char(&mut out, '\n');
        push_char(&mut out, char_of_tile(self.tiles[1][0]));
        push_char(&mut out, char_of_tile(self.tiles[1][1]));
        push_char(&mut out, char_of_tile(self.tiles[1][2]));
        push_char(&mut out, '\n');
        push_char(&mut out, char_of_tile(self.tiles[2][0]));
        push_char(&mut out, char_of_tile(self.tiles[2][1]));
        push_char(&mut out, char_of_tile(self.tiles[2][2]));
        push_char(&mut out, '\n');
        proof {
            assert(out@ =~= goal);
        }
        out
    }

    /// Whether the board is solved: the tiles read 1 through 8 with the
    /// empty spot last.
    pub fn is_solved(&self) -> (r: bool)
        ensures
            r == (self.values() == seq![1u8, 2u8, 3u8, 4u8, 5u8, 6u8, 7u8, 8u8, 0u8]),
    {
        let solved = self.tiles[0][0].0 == 1 && self.tiles[0][1].0 == 2 && self.tiles[0][2].0 == 3
            && self.tiles[1][0].0 == 4 && self.tiles[1][1].0 == 5 && self.tiles[1][2].0 == 6
            && self.tiles[2][0].0 == 7 && self.tiles[2][1].0 == 8 && self.tiles[2][2].0 == 0;
        proof {
            if solved {
                assert(self.values() =~= seq![1u8, 2u8, 3u8, 4u8, 5u8, 6u8, 7u8, 8u8, 0u8]);
            } else {
                assert(!(self.values() =~= seq![1u8, 2u8, 3u8, 4u8, 5u8, 6u8, 7u8, 8u8, 0u8]));
            }
        }
        solved
    }
}

/// The tile a board character denotes.
fn tile_from_char(c: char) -> (t: Tile)
    ensures
        t.spec_value() == value_of_char(c),
{
    if c == '1' {
        Tile(1)
    } else if c == '2' {
        Tile(2)
    } else if c == '3' {
        Tile(3)
    } else if c == '4' {
        Tile(4)
    } else if c == '5' {
        Tile(5)
    } else if c == '6' {
        Tile(6)
    } else if c == '7' {
        Tile(7)
    } else if c == '8' {
        Tile(8)
    } else {
        Tile(0)
    }
}

/// The character denoting a tile.
fn char_of_tile(t: Tile) -> (c: char)
    ensures
        c == char_of_value(t.spec_value()),
{
    if t.0 == 1 {
        '1'
    } else if t.0 == 2 {
        '2'
    } else if t.0 == 3 {
        '3'
    } else if t.0 == 4 {
        '4'
    } else if t.0 == 5 {
        '5'
    } else if t.0 == 6 {
        '6'
    } else if t.0 == 7 {
        '7'
    } else if t.0 == 8 {
        '8'
    } else {
        '.'
    }
}

/// Relies on String::push: it appends exactly the given character.
#[verifier::external_body]
fn push_char(s: &mut String, c: char)
    ensures
        final(s)@ == old(s)@.push(c),
{
    s.push(c);
}

/// Solves a board. Only the already-solved board is recognized, with the
/// empty move sequence; every other board is reported unsolvable.
pub fn solve(start: Board) -> (r: Option<Vec<Board>>)
    ensures
        start.values() == seq![1u8, 2u8, 3u8, 4u8, 5u8, 6u8, 7u8, 8u8, 0u8] ==> (r matches Some(v)
            && v@.len() == 0),
        start.values() != seq![1u8, 2u8, 3u8, 4u8, 5u8, 6u8, 7u8, 8u8, 0u8] ==> r is None,
{
    if start.is_solved() {
        return Some(Vec::new());
    }
    None
}

/// Whether an inversion - a pair of nonzero values in the wrong order -
/// occurs between `a` (earlier) and `b` (later).
pub open spec fn pair_inversion(a: u8, b: u8) -> int {
    if a != 0 && b != 0 && a > b {
        1int
    } else {
        0int
    }
}

/// The inversions `x` forms with the values after it.
pub open spec fn inversions_against(x: u8, s: Seq<u8>) -> int
    decreases s.len(),
{
    if s.len() == 0 {
        0
    } else {
        pair_inversion(x, s[0]) + inversions_against(x, s.drop_first())
    }
}

/// The number of inversions in `s`: pairs of nonzero values where the
/// earlier one is larger.
pub open spec fn inversions(s: Seq<u8>) -> int
    decreases s.len(),
{
    if s.len() == 0 {
        0
    } else {
        inversions_against(s[0], s.drop_first()) + inversions(s.drop_first())
    }
}

proof fn lemma_inversions_against_push(x: u8, s: Seq<u8>, y: u8)
    ensures
        inversions_against(x, s.push(y)) == inversions_against(x, s) + pair_inversion(x, y),
    decreases s.len(),
{
    if s.len() == 0 {
        assert(s.push(y).drop_first() =~= s);
    } else {
        assert(s.push(y).drop_first() =~= s.drop_first().push(y));
        lemma_inversions_against_push(x, s.drop_first(), y);
    }
}

/// The inversion-parity solvability test for a board given as a flat list
/// of values: solvable boards are exactly those with an even number of
/// inversions.
pub fn is_solvable(arr: &[u8]) -> (r: bool)
    ensures
        r == (inversions(arr@) % 2 == 0),
{
    let mut even = true;
    let ghost mut acc: int = 0;
    let len = arr.len();
    let mut i: usize = 0;
    proof {
        assert(arr@.skip(0) =~= arr@);
    }
    while i < len
        invariant
            i <= len,
            len == arr@.len(),
            even == (acc % 2 == 0),
            acc + inversions(arr@.skip(i as int)) == inversions(arr@),
        decreases len - i,
    {
        let mut j: usize = i + 1;
        proof {
            let rest = arr@.skip(i as int);
            assert(rest[0] == arr@[i as int]);
            assert(rest.drop_first() =~= arr@.skip(i + 1));
            assert(inversions(rest) == inversions_against(arr@[i as int], arr@.skip(i + 1))
                + inversions(arr@.skip(i + 1)));
            assert(arr@.subrange(i + 1, len as int).skip(0) =~= arr@.subrange(i + 1, len as int));
            assert(arr@.subrange(i + 1, len as int) =~= arr@.skip(i + 1));
        }
        while j < len
            invariant
                i < j <= len,
                len == arr@.len(),
                even == (acc % 2 == 0),
                acc + inversions_against(arr@[i as int], arr@.subrange(i + 1, len as int).skip(
                    j - i - 1,
                )) + inversions(arr@.skip(i + 1)) == inversions(arr@),
            decreases len - j,
        {
            proof {
                let tail = arr@.subrange(i + 1, len as int).skip(j - i - 1);
                assert(tail[0] == arr@[j as int]);
                assert(tail.drop_first() =~= arr@.subrange(i + 1, len as int).skip(j - i));
            }
            if arr[i] != 0 && arr[j] != 0 && arr[i] > arr[j] {
                even = !even;
                proof {
                    acc = acc + 1;
                }
            } else {
                proof {
                    acc = acc + 0;
                }
            }
            j += 1;
        }
        proof {
            assert(arr@.subrange(i + 1, len as int).skip(len - i - 1) =~= Seq::<u8>::empty());
        }
        i += 1;
    }
    proof {
        assert(arr@.skip(len as int) =~= Seq::<u8>::empty());
    }
    even
}

} // verus!

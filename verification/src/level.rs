//! The level-data model and its loader.
//!
//! A level source is a named rectangular grid of space-separated tile
//! tokens, declared top-to-bottom but mapped so tile-Y increases upward
//! (source row 0 is the top, highest Y), plus an explicit patrol path and an
//! explicit button-to-gate association. Recognized tokens: `P` player start,
//! `S` hazard start, `D` goal/door, `=` wall (optionally style-tagged as
//! `=0` through `=9`), `X` pushable block, `B` button, `G` gate, `.` empty.
//! Loading fails fatally on an unrecognized token, a level missing a player
//! or hazard start, a level with zero goals, a patrol waypoint outside the
//! tile range, or an association naming a missing button or gate; the error
//! identifies the offending level (and token). Each failure check runs in
//! that order, and the first failing level reports.

use vstd::prelude::*;

use crate::geom::{Vec2, TILE_LIMIT};

verus! {

/// One recognized grid token, or `Unknown` for anything else.
#[derive(Clone, Copy, PartialEq, Eq, Structural, Debug)]
pub enum Token {
    Player,
    Hazard,
    Door,
    Wall(u8),
    Push,
    Button,
    Gate,
    Empty,
    Unknown,
}

/// The token a run of characters denotes.
pub open spec fn token_kind(t: Seq<char>) -> Token {
    if t.len() == 1 {
        if t[0] == 'P' {
            Token::Player
        } else if t[0] == 'S' {
            Token::Hazard
        } else if t[0] == 'D' {
            Token::Door
        } else if t[0] == '=' {
            Token::Wall(0)
        } else if t[0] == 'X' {
            Token::Push
        } else if t[0] == 'B' {
            Token::Button
        } else if t[0] == 'G' {
            Token::Gate
        } else if t[0] == '.' {
            Token::Empty
        } else {
            Token::Unknown
        }
    } else if t.len() == 2 && t[0] == '=' && 48 <= t[1] as u32 <= 57 {
        Token::Wall(((t[1] as u32) - 48) as u8)
    } else {
        Token::Unknown
    }
}

/// A row split on single spaces: `n` spaces give `n + 1` tokens, so runs of
/// spaces and empty rows yield empty (hence unrecognized) tokens.
pub open spec fn split_row(s: Seq<char>) -> Seq<Seq<char>>
    decreases s.len(),
{
    if s.len() == 0 {
        seq![Seq::<char>::empty()]
    } else if s[0] == ' ' {
        seq![Seq::<char>::empty()] + split_row(s.skip(1))
    } else {
        let r = split_row(s.skip(1));
        seq![seq![s[0]] + r[0]] + r.skip(1)
    }
}

/// A split row holds between one and `len + 1` tokens.
pub proof fn lemma_split_row_len(s: Seq<char>)
    ensures
        1 <= split_row(s).len() <= s.len() + 1,
    decreases s.len(),
{
    if s.len() == 0 {
    } else {
        lemma_split_row_len(s.skip(1));
    }
}

/// Splitting a suffix that starts at a token boundary: the characters from
/// `i` up to the next space (or the end) at `j` form one token, and the
/// remaining tokens are those of the suffix after that space.
pub proof fn lemma_split_step(s: Seq<char>, i: int, j: int)
    requires
        0 <= i <= j <= s.len(),
        forall|m: int| i <= m < j ==> s[m] != ' ',
        j == s.len() || s[j] == ' ',
    ensures
        split_row(s.skip(i)) == seq![s.subrange(i, j)] + (if j < s.len() {
            split_row(s.skip(j + 1))
        } else {
            Seq::<Seq<char>>::empty()
        }),
    decreases j - i,
{
    let suf = s.skip(i);
    if i == j {
        if j == s.len() {
            assert(suf.len() == 0);
            assert(s.subrange(i, j) =~= Seq::<char>::empty());
            assert(split_row(suf) =~= seq![s.subrange(i, j)] + Seq::<Seq<char>>::empty());
        } else {
            assert(suf[0] == s[i] && s[i] == ' ');
            assert(suf.skip(1) =~= s.skip(j + 1));
            assert(s.subrange(i, j) =~= Seq::<char>::empty());
        }
    } else {
        assert(suf[0] == s[i] && s[i] != ' ');
        assert(suf.skip(1) =~= s.skip(i + 1));
        lemma_split_step(s, i + 1, j);
        let r = split_row(s.skip(i + 1));
        assert(r[0] == s.subrange(i + 1, j));
        assert(seq![s[i]] + r[0] =~= s.subrange(i, j));
        assert(r.skip(1) =~= (if j < s.len() {
            split_row(s.skip(j + 1))
        } else {
            Seq::<Seq<char>>::empty()
        }));
        assert(split_row(suf) =~= seq![s.subrange(i, j)] + (if j < s.len() {
            split_row(s.skip(j + 1))
        } else {
            Seq::<Seq<char>>::empty()
        }));
    }
}

/// The tokens of one row.
pub open spec fn row_kinds(s: Seq<char>) -> Seq<Token> {
    split_row(s).map_values(|t: Seq<char>| token_kind(t))
}

/// The index of the first unrecognized token of `ts` at or after `from`.
pub open spec fn row_first_bad(ts: Seq<Token>, from: int) -> Option<int>
    decreases ts.len() - from,
{
    if !(0 <= from < ts.len()) {
        Option::None
    } else if ts[from] == Token::Unknown {
        Option::Some(from)
    } else {
        row_first_bad(ts, from + 1)
    }
}

/// Skipping over recognized tokens does not change the first bad index.
pub proof fn lemma_first_bad_skip(ts: Seq<Token>, from: int, x: int)
    requires
        0 <= from <= x <= ts.len(),
        forall|y: int| from <= y < x ==> ts[y] != Token::Unknown,
    ensures
        row_first_bad(ts, from) == row_first_bad(ts, x),
    decreases x - from,
{
    if from < x {
        lemma_first_bad_skip(ts, from + 1, x);
    }
}

/// Classify the characters `[from, to)` of a row.
fn classify(s: &str, from: usize, to: usize) -> (r: Token)
    requires
        from <= to <= s@.len(),
    ensures
        r == token_kind(s@.subrange(from as int, to as int)),
{
    let n = to - from;
    if n == 1 {
        let c = s.get_char(from);
        if c == 'P' {
            Token::Player
        } else if c == 'S' {
            Token::Hazard
        } else if c == 'D' {
            Token::Door
        } else if c == '=' {
            Token::Wall(0)
        } else if c == 'X' {
            Token::Push
        } else if c == 'B' {
            Token::Button
        } else if c == 'G' {
            Token::Gate
        } else if c == '.' {
            Token::Empty
        } else {
            Token::Unknown
        }
    } else if n == 2 {
        let c0 = s.get_char(from);
        let c1 = s.get_char(from + 1);
        if c0 == '=' && (c1 as u32) >= 48 && (c1 as u32) <= 57 {
            Token::Wall(((c1 as u32) - 48) as u8)
        } else {
            Token::Unknown
        }
    } else {
        Token::Unknown
    }
}

/// Parse one row into tokens: the token list when every token is
/// recognized, otherwise the text of the first unrecognized one.
pub fn parse_row(s: &str) -> (r: Result<Vec<Token>, String>)
    ensures
        match r {
            Result::Ok(v) => row_first_bad(row_kinds(s@), 0) is None && v@ == row_kinds(s@),
            Result::Err(tok) => row_first_bad(row_kinds(s@), 0) matches Option::Some(x) && tok@
                == split_row(s@)[x],
        },
{
    let len = s.unicode_len();
    let ghost ts = split_row(s@);
    let ghost ks = row_kinds(s@);
    proof {
        lemma_split_row_len(s@);
        assert(s@.skip(0) =~= s@);
        assert(ts.skip(0) =~= ts);
    }
    let mut kinds: Vec<Token> = Vec::new();
    let mut i: usize = 0;
    loop
        invariant
            len == s@.len(),
            ts == split_row(s@),
            ks == row_kinds(s@),
            ks.len() == ts.len(),
            0 <= i <= len,
            kinds@.len() <= ts.len(),
            i == 0 || s@[i - 1] == ' ',
            ts.skip(kinds@.len() as int) == split_row(s@.skip(i as int)),
            kinds@.len() < ts.len(),
            forall|y: int| 0 <= y < kinds@.len() ==> kinds@[y] == ks[y] && ks[y] != Token::Unknown,
        decreases len - i,
    {
        let ghost x = kinds@.len() as int;
        let mut j: usize = i;
        while j < len && s.get_char(j) != ' '
            invariant
                len == s@.len(),
                i <= j <= len,
                forall|m: int| i <= m < j ==> s@[m] != ' ',
            decreases len - j,
        {
            j += 1;
        }
        proof {
            lemma_split_step(s@, i as int, j as int);
            assert(ts.skip(x)[0] == s@.subrange(i as int, j as int));
            assert(ts[x] == s@.subrange(i as int, j as int));
        }
        let tok = classify(s, i, j);
        match tok {
            Token::Unknown => {
                proof {
                    lemma_first_bad_skip(ks, 0, x);
                    assert(ks[x] == Token::Unknown);
                    assert(row_first_bad(ks, 0) == Option::Some(x));
                }
                let text = s.substring_char(i, j).to_owned();
                return Err(text);
            },
            _ => {},
        }
        kinds.push(tok);
        proof {
            assert(ks[x] == token_kind(ts[x]));
            assert(ks[x] != Token::Unknown);
        }
        if j == len {
            proof {
                assert(ts.skip(x) == seq![ts[x]] + Seq::<Seq<char>>::empty());
                assert(ts.skip(x).len() == 1);
                assert(kinds@.len() == ts.len());
                assert(kinds@ =~= ks);
                lemma_first_bad_skip(ks, 0, ks.len() as int);
            }
            return Ok(kinds);
        }
        proof {
            assert(ts.skip(x) == seq![ts[x]] + split_row(s@.skip(j + 1)));
            assert(ts.skip(x + 1) =~= ts.skip(x).skip(1));
            assert(ts.skip(x).skip(1) =~= split_row(s@.skip(j + 1)));
            lemma_split_row_len(s@.skip(j + 1));
            assert(ts.len() - (x + 1) >= 1);
        }
        i = j + 1;
    }
}


/// Which token category a grid scan collects.
#[derive(Clone, Copy, PartialEq, Eq, Structural, Debug)]
pub enum TokenSel {
    Player,
    Hazard,
    Door,
    Push,
    Button,
    Gate,
}

/// Whether a token belongs to the selected category.
pub open spec fn token_matches(sel: TokenSel, t: Token) -> bool {
    match sel {
        TokenSel::Player => t == Token::Player,
        TokenSel::Hazard => t == Token::Hazard,
        TokenSel::Door => t == Token::Door,
        TokenSel::Push => t == Token::Push,
        TokenSel::Button => t == Token::Button,
        TokenSel::Gate => t == Token::Gate,
    }
}

/// The tile positions (in subtile units) of the selected tokens of one row
/// at tile height `y`, from column `x` on, in column order.
pub open spec fn row_positions(row: Seq<Token>, y: int, sel: TokenSel, x: int) -> Seq<Vec2>
    decreases row.len() - x,
{
    if !(0 <= x < row.len()) {
        Seq::empty()
    } else {
        (if token_matches(sel, row[x]) {
            seq![Vec2::spec_of_tile(x, y)]
        } else {
            Seq::empty()
        }) + row_positions(row, y, sel, x + 1)
    }
}

/// The tile positions of the selected tokens of the whole grid, from source
/// row `r` on, in top-to-bottom, left-to-right declaration order; source row
/// `r` sits at tile height `height - 1 - r`.
pub open spec fn grid_positions(g: Seq<Seq<Token>>, height: int, sel: TokenSel, r: int) -> Seq<
    Vec2,
>
    decreases g.len() - r,
{
    if !(0 <= r < g.len()) {
        Seq::empty()
    } else {
        row_positions(g[r], height - 1 - r, sel, 0) + grid_positions(g, height, sel, r + 1)
    }
}

/// A wall: a visual style tag and a tile position.
#[derive(Clone, Copy, PartialEq, Eq, Structural, Debug)]
pub struct Wall {
    pub style: u8,
    pub pos: Vec2,
}

/// The walls of one row at tile height `y`, from column `x` on.
pub open spec fn row_walls(row: Seq<Token>, y: int, x: int) -> Seq<Wall>
    decreases row.len() - x,
{
    if !(0 <= x < row.len()) {
        Seq::empty()
    } else {
        (match row[x] {
            Token::Wall(st) => seq![Wall { style: st, pos: Vec2::spec_of_tile(x, y) }],
            _ => Seq::empty(),
        }) + row_walls(row, y, x + 1)
    }
}

/// The walls of the whole grid, from source row `r` on.
pub open spec fn grid_walls(g: Seq<Seq<Token>>, height: int, r: int) -> Seq<Wall>
    decreases g.len() - r,
{
    if !(0 <= r < g.len()) {
        Seq::empty()
    } else {
        row_walls(g[r], height - 1 - r, 0) + grid_walls(g, height, r + 1)
    }
}

/// The larger of two integers.
pub open spec fn spec_max(a: int, b: int) -> int {
    if a >= b {
        a
    } else {
        b
    }
}

/// The token count of the longest row from `r` on.
pub open spec fn grid_width(g: Seq<Seq<Token>>, r: int) -> int
    decreases g.len() - r,
{
    if !(0 <= r < g.len()) {
        0
    } else {
        spec_max(g[r].len() as int, grid_width(g, r + 1))
    }
}

/// The width of a grid suffix is never negative.
pub proof fn lemma_grid_width_nonneg(g: Seq<Seq<Token>>, r: int)
    ensures
        grid_width(g, r) >= 0,
    decreases g.len() - r,
{
    if 0 <= r < g.len() {
        lemma_grid_width_nonneg(g, r + 1);
    }
}

/// The token grids of a stack of row vectors.
pub open spec fn grid_view(kinds: Seq<Vec<Token>>) -> Seq<Seq<Token>> {
    kinds.map_values(|v: Vec<Token>| v@)
}

/// Whether a token belongs to the selected category.
fn token_matches_exec(sel: TokenSel, t: Token) -> (r: bool)
    ensures
        r == token_matches(sel, t),
{
    match (sel, t) {
        (TokenSel::Player, Token::Player) => true,
        (TokenSel::Hazard, Token::Hazard) => true,
        (TokenSel::Door, Token::Door) => true,
        (TokenSel::Push, Token::Push) => true,
        (TokenSel::Button, Token::Button) => true,
        (TokenSel::Gate, Token::Gate) => true,
        _ => false,
    }
}

/// Collect the tile positions of the selected tokens of the whole grid, in
/// declaration order.
fn collect_positions(kinds: &Vec<Vec<Token>>, sel: TokenSel) -> (out: Vec<Vec2>)
    requires
        kinds@.len() <= 1_000_000,
        forall|r: int| 0 <= r < kinds@.len() ==> (#[trigger] kinds@[r])@.len() <= 1_000_000,
    ensures
        out@ == grid_positions(grid_view(kinds@), kinds@.len() as int, sel, 0),
        forall|k: int| 0 <= k < out@.len() ==> (#[trigger] out@[k]).in_limit(),
{
    let h = kinds.len();
    let ghost g = grid_view(kinds@);
    let mut out: Vec<Vec2> = Vec::new();
    let mut r: usize = 0;
    while r < h
        invariant
            h == kinds@.len(),
            h <= 1_000_000,
            forall|rr: int| 0 <= rr < h ==> (#[trigger] kinds@[rr])@.len() <= 1_000_000,
            g == grid_view(kinds@),
            0 <= r <= h,
            grid_positions(g, h as int, sel, 0) == out@ + grid_positions(g, h as int, sel, r as int),
            forall|k: int| 0 <= k < out@.len() ==> (#[trigger] out@[k]).in_limit(),
        decreases h - r,
    {
        let row = &kinds[r];
        let rl = row.len();
        let y = h - 1 - r;
        let mut x: usize = 0;
        proof {
            assert(g[r as int] == kinds@[r as int]@);
        }
        while x < rl
            invariant
                h == kinds@.len(),
                h <= 1_000_000,
                g == grid_view(kinds@),
                0 <= r < h,
                rl == g[r as int].len(),
                rl <= 1_000_000,
                row@ == g[r as int],
                y == h - 1 - r,
                0 <= x <= rl,
                grid_positions(g, h as int, sel, 0) == out@ + row_positions(
                    g[r as int],
                    y as int,
                    sel,
                    x as int,
                ) + grid_positions(g, h as int, sel, r as int + 1),
                forall|k: int| 0 <= k < out@.len() ==> (#[trigger] out@[k]).in_limit(),
            decreases rl - x,
        {
            let ghost out0 = out@;
            if token_matches_exec(sel, row[x]) {
                let p = Vec2::of_tile(x as i64, y as i64);
                out.push(p);
                proof {
                    assert(row_positions(g[r as int], y as int, sel, x as int) == seq![
                        Vec2::spec_of_tile(x as int, y as int),
                    ] + row_positions(g[r as int], y as int, sel, x as int + 1));
                    assert(out0 + row_positions(g[r as int], y as int, sel, x as int)
                        + grid_positions(g, h as int, sel, r as int + 1) =~= out@ + row_positions(
                        g[r as int],
                        y as int,
                        sel,
                        x as int + 1,
                    ) + grid_positions(g, h as int, sel, r as int + 1));
                }
            } else {
                proof {
                    assert(row_positions(g[r as int], y as int, sel, x as int) == Seq::<
                        Vec2,
                    >::empty() + row_positions(g[r as int], y as int, sel, x as int + 1));
                    assert(out0 + row_positions(g[r as int], y as int, sel, x as int)
                        + grid_positions(g, h as int, sel, r as int + 1) =~= out@ + row_positions(
                        g[r as int],
                        y as int,
                        sel,
                        x as int + 1,
                    ) + grid_positions(g, h as int, sel, r as int + 1));
                }
            }
            x += 1;
        }
        proof {
            assert(row_positions(g[r as int], y as int, sel, rl as int) =~= Seq::<Vec2>::empty());
            assert(out@ + row_positions(g[r as int], y as int, sel, rl as int) + grid_positions(
                g,
                h as int,
                sel,
                r as int + 1,
            ) =~= out@ + grid_positions(g, h as int, sel, r as int + 1));
        }
        r += 1;
    }
    out
}

/// Collect the walls of the whole grid, in declaration order.
fn collect_walls(kinds: &Vec<Vec<Token>>) -> (out: Vec<Wall>)
    requires
        kinds@.len() <= 1_000_000,
        forall|r: int| 0 <= r < kinds@.len() ==> (#[trigger] kinds@[r])@.len() <= 1_000_000,
    ensures
        out@ == grid_walls(grid_view(kinds@), kinds@.len() as int, 0),
        forall|k: int| 0 <= k < out@.len() ==> (#[trigger] out@[k]).pos.in_limit(),
{
    let h = kinds.len();
    let ghost g = grid_view(kinds@);
    let mut out: Vec<Wall> = Vec::new();
    let mut r: usize = 0;
    while r < h
        invariant
            h == kinds@.len(),
            h <= 1_000_000,
            forall|rr: int| 0 <= rr < h ==> (#[trigger] kinds@[rr])@.len() <= 1_000_000,
            g == grid_view(kinds@),
            0 <= r <= h,
            grid_walls(g, h as int, 0) == out@ + grid_walls(g, h as int, r as int),
            forall|k: int| 0 <= k < out@.len() ==> (#[trigger] out@[k]).pos.in_limit(),
        decreases h - r,
    {
        let row = &kinds[r];
        let rl = row.len();
        let y = h - 1 - r;
        let mut x: usize = 0;
        proof {
            assert(g[r as int] == kinds@[r as int]@);
        }
        while x < rl
            invariant
                h == kinds@.len(),
                h <= 1_000_000,
                g == grid_view(kinds@),
                0 <= r < h,
                rl == g[r as int].len(),
                rl <= 1_000_000,
                row@ == g[r as int],
                y == h - 1 - r,
                0 <= x <= rl,
                grid_walls(g, h as int, 0) == out@ + row_walls(g[r as int], y as int, x as int)
                    + grid_walls(g, h as int, r as int + 1),
                forall|k: int| 0 <= k < out@.len() ==> (#[trigger] out@[k]).pos.in_limit(),
            decreases rl - x,
        {
            let ghost out0 = out@;
            match row[x] {
                Token::Wall(st) => {
                    let p = Vec2::of_tile(x as i64, y as i64);
                    out.push(Wall { style: st, pos: p });
                    proof {
                        assert(row_walls(g[r as int], y as int, x as int) == seq![
                            Wall { style: st, pos: Vec2::spec_of_tile(x as int, y as int) },
                        ] + row_walls(g[r as int], y as int, x as int + 1));
                        assert(out0 + row_walls(g[r as int], y as int, x as int) + grid_walls(
                            g,
                            h as int,
                            r as int + 1,
                        ) =~= out@ + row_walls(g[r as int], y as int, x as int + 1) + grid_walls(
                            g,
                            h as int,
                            r as int + 1,
                        ));
                    }
                },
                _ => {
                    proof {
                        assert(row_walls(g[r as int], y as int, x as int) == Seq::<Wall>::empty()
                            + row_walls(g[r as int], y as int, x as int + 1));
                        assert(out0 + row_walls(g[r as int], y as int, x as int) + grid_walls(
                            g,
                            h as int,
                            r as int + 1,
                        ) =~= out@ + row_walls(g[r as int], y as int, x as int + 1) + grid_walls(
                            g,
                            h as int,
                            r as int + 1,
                        ));
                    }
                },
            }
            x += 1;
        }
        proof {
            assert(row_walls(g[r as int], y as int, rl as int) =~= Seq::<Wall>::empty());
            assert(out@ + row_walls(g[r as int], y as int, rl as int) + grid_walls(
                g,
                h as int,
                r as int + 1,
            ) =~= out@ + grid_walls(g, h as int, r as int + 1));
        }
        r += 1;
    }
    out
}


/// One level as the outside format hands it over: a name, the grid rows,
/// the patrol path in tile coordinates, and the explicit button-to-gate
/// association as (button ordinal, gate ordinal) pairs over the grid's
/// buttons and gates in declaration order.
pub struct LevelSource {
    pub name: String,
    pub tiles: Vec<String>,
    pub path: Vec<(i64, i64)>,
    pub links: Vec<(usize, usize)>,
}

/// Why a level failed to load; each error identifies the offending level by
/// its index in the loaded collection, and an unknown token by its text.
#[derive(Clone, PartialEq, Eq, Debug)]
pub enum LoadError {
    UnknownToken { level: usize, token: String },
    NoGoals { level: usize },
    MissingPlayer { level: usize },
    MissingHazard { level: usize },
    BadWaypoint { level: usize },
    BadLink { level: usize },
}

/// Static per-level data, immutable after load and consumed once to spawn
/// the world: positions are in subtile units, `blocks` are the styled
/// walls, and `links` associates button ordinals with gate ordinals.
pub struct Level {
    pub name: String,
    pub midpoint: Vec2,
    pub player_pos: Vec2,
    pub stalker_pos: Vec2,
    pub doors: Vec<Vec2>,
    pub blocks: Vec<Wall>,
    pub push_blocks: Vec<Vec2>,
    pub buttons: Vec<Vec2>,
    pub gates: Vec<Vec2>,
    pub initial_stalker_path: Vec<Vec2>,
    pub links: Vec<(usize, usize)>,
}

impl Level {
    /// Every position is in limit, the patrol path is nonempty, and every
    /// link names a button and a gate the level has.
    pub open spec fn wf(self) -> bool {
        &&& self.midpoint.in_limit()
        &&& self.player_pos.in_limit()
        &&& self.stalker_pos.in_limit()
        &&& (forall|k: int| 0 <= k < self.doors@.len() ==> (#[trigger] self.doors@[k]).in_limit())
        &&& (forall|k: int|
            0 <= k < self.blocks@.len() ==> (#[trigger] self.blocks@[k]).pos.in_limit())
        &&& (forall|k: int|
            0 <= k < self.push_blocks@.len() ==> (#[trigger] self.push_blocks@[k]).in_limit())
        &&& (forall|k: int|
            0 <= k < self.buttons@.len() ==> (#[trigger] self.buttons@[k]).in_limit())
        &&& (forall|k: int| 0 <= k < self.gates@.len() ==> (#[trigger] self.gates@[k]).in_limit())
        &&& self.initial_stalker_path@.len() >= 1
        &&& (forall|k: int|
            0 <= k < self.initial_stalker_path@.len() ==> (
            #[trigger] self.initial_stalker_path@[k]).in_limit())
        &&& (forall|k: int|
            0 <= k < self.links@.len() ==> (#[trigger] self.links@[k]).0 < self.buttons@.len()
                && self.links@[k].1 < self.gates@.len())
    }
}

/// The token grid of a level's rows.
pub open spec fn grid_of(tiles: Seq<String>) -> Seq<Seq<Token>> {
    tiles.map_values(|s: String| row_kinds(s@))
}

/// The first grid cell (source row, token index) holding an unrecognized
/// token, scanning rows from `r` on.
pub open spec fn grid_first_bad(g: Seq<Seq<Token>>, r: int) -> Option<(int, int)>
    decreases g.len() - r,
{
    if !(0 <= r < g.len()) {
        Option::None
    } else {
        match row_first_bad(g[r], 0) {
            Option::Some(x) => Option::Some((r, x)),
            Option::None => grid_first_bad(g, r + 1),
        }
    }
}

/// Skipping over clean rows does not change the first bad cell.
pub proof fn lemma_grid_first_bad_skip(g: Seq<Seq<Token>>, from: int, x: int)
    requires
        0 <= from <= x <= g.len(),
        forall|r: int| from <= r < x ==> row_first_bad(#[trigger] g[r], 0) is None,
    ensures
        grid_first_bad(g, from) == grid_first_bad(g, x),
    decreases x - from,
{
    if from < x {
        lemma_grid_first_bad_skip(g, from + 1, x);
    }
}

/// Every patrol waypoint lies within the tile range.
pub open spec fn path_ok(path: Seq<(i64, i64)>) -> bool {
    forall|k: int|
        0 <= k < path.len() ==> -TILE_LIMIT <= (#[trigger] path[k]).0 <= TILE_LIMIT && -TILE_LIMIT
            <= path[k].1 <= TILE_LIMIT
}

/// Every association names a button and a gate the grid declares.
pub open spec fn links_ok(links: Seq<(usize, usize)>, buttons: int, gates: int) -> bool {
    forall|k: int| 0 <= k < links.len() ==> (#[trigger] links[k]).0 < buttons && links[k].1 < gates
}

/// A level source that loads: all tokens recognized, at least one goal, a
/// player and a hazard start present, the patrol path within range, and
/// every link valid.
pub open spec fn source_ok(s: LevelSource) -> bool {
    let g = grid_of(s.tiles@);
    let h = s.tiles@.len() as int;
    &&& grid_first_bad(g, 0) is None
    &&& grid_positions(g, h, TokenSel::Door, 0).len() >= 1
    &&& grid_positions(g, h, TokenSel::Player, 0).len() >= 1
    &&& grid_positions(g, h, TokenSel::Hazard, 0).len() >= 1
    &&& path_ok(s.path@)
    &&& links_ok(
        s.links@,
        grid_positions(g, h, TokenSel::Button, 0).len() as int,
        grid_positions(g, h, TokenSel::Gate, 0).len() as int,
    )
}

/// The error a failing level reports, checked in this order: unknown token,
/// zero goals, missing player start, missing hazard start, waypoint out of
/// range, association naming a missing button or gate.
pub open spec fn source_error_matches(e: LoadError, i: int, s: LevelSource) -> bool {
    let g = grid_of(s.tiles@);
    let h = s.tiles@.len() as int;
    if grid_first_bad(g, 0) is Some {
        let rx = grid_first_bad(g, 0)->Some_0;
        &&& e matches LoadError::UnknownToken { level, token } && level == i && token@ == split_row(
            s.tiles@[rx.0]@,
        )[rx.1]
    } else if grid_positions(g, h, TokenSel::Door, 0).len() == 0 {
        e matches LoadError::NoGoals { level } && level == i
    } else if grid_positions(g, h, TokenSel::Player, 0).len() == 0 {
        e matches LoadError::MissingPlayer { level } && level == i
    } else if grid_positions(g, h, TokenSel::Hazard, 0).len() == 0 {
        e matches LoadError::MissingHazard { level } && level == i
    } else if !path_ok(s.path@) {
        e matches LoadError::BadWaypoint { level } && level == i
    } else {
        e matches LoadError::BadLink { level } && level == i
    }
}

/// What the loaded level of a source holds: name, width/height-derived
/// camera midpoint, the last-declared player and hazard starts, every
/// token's positions in declaration order, the scaled patrol path (the
/// hazard start when none was given), and the links as declared.
pub open spec fn level_matches(s: LevelSource, l: Level) -> bool {
    let g = grid_of(s.tiles@);
    let h = s.tiles@.len() as int;
    let w = grid_width(g, 0);
    &&& l.name == s.name
    &&& l.midpoint == Vec2 { x: (w * 500) as i64, y: (h * 500 - 500) as i64 }
    &&& l.player_pos == grid_positions(g, h, TokenSel::Player, 0).last()
    &&& l.stalker_pos == grid_positions(g, h, TokenSel::Hazard, 0).last()
    &&& l.doors@ == grid_positions(g, h, TokenSel::Door, 0)
    &&& l.blocks@ == grid_walls(g, h, 0)
    &&& l.push_blocks@ == grid_positions(g, h, TokenSel::Push, 0)
    &&& l.buttons@ == grid_positions(g, h, TokenSel::Button, 0)
    &&& l.gates@ == grid_positions(g, h, TokenSel::Gate, 0)
    &&& l.initial_stalker_path@ == (if s.path@.len() > 0 {
        s.path@.map_values(|p: (i64, i64)| Vec2::spec_of_tile(p.0 as int, p.1 as int))
    } else {
        seq![grid_positions(g, h, TokenSel::Hazard, 0).last()]
    })
    &&& l.links@ == s.links@
}

/// A source's rows fit the tile range the loader works in.
pub open spec fn source_size_ok(s: LevelSource) -> bool {
    &&& s.tiles@.len() <= 1_000_000
    &&& forall|r: int| 0 <= r < s.tiles@.len() ==> (#[trigger] s.tiles@[r])@.len() < 1_000_000
}

/// The first source that fails to load, from `from` on.
pub open spec fn first_bad_source(ss: Seq<LevelSource>, from: int) -> Option<int>
    decreases ss.len() - from,
{
    if !(0 <= from < ss.len()) {
        Option::None
    } else if !source_ok(ss[from]) {
        Option::Some(from)
    } else {
        first_bad_source(ss, from + 1)
    }
}

/// Skipping over loadable sources does not change the first failing one.
pub proof fn lemma_first_bad_source_skip(ss: Seq<LevelSource>, from: int, x: int)
    requires
        0 <= from <= x <= ss.len(),
        forall|y: int| from <= y < x ==> source_ok(#[trigger] ss[y]),
    ensures
        first_bad_source(ss, from) == first_bad_source(ss, x),
    decreases x - from,
{
    if from < x {
        lemma_first_bad_source_skip(ss, from + 1, x);
    }
}

/// Build one level from its source, or report why it cannot load.
pub fn build_level(idx: usize, src: &LevelSource) -> (r: Result<Level, LoadError>)
    requires
        source_size_ok(*src),
    ensures
        match r {
            Result::Ok(l) => source_ok(*src) && level_matches(*src, l) && l.wf(),
            Result::Err(e) => !source_ok(*src) && source_error_matches(e, idx as int, *src),
        },
{
    let ghost g = grid_of(src.tiles@);
    let h = src.tiles.len();
    let mut kinds: Vec<Vec<Token>> = Vec::new();
    let mut r: usize = 0;
    while r < h
        invariant
            h == src.tiles@.len(),
            source_size_ok(*src),
            g == grid_of(src.tiles@),
            g.len() == h,
            0 <= r <= h,
            kinds@.len() == r,
            forall|rr: int| 0 <= rr < r ==> (#[trigger] kinds@[rr])@ == g[rr],
            forall|rr: int| 0 <= rr < r ==> row_first_bad(#[trigger] g[rr], 0) is None,
        decreases h - r,
    {
        let row_str: &String = &src.tiles[r];
        match parse_row(row_str.as_str()) {
            Ok(v) => {
                proof {
                    assert(g[r as int] == row_kinds(src.tiles@[r as int]@));
                }
                kinds.push(v);
            },
            Err(tok) => {
                proof {
                    assert(g[r as int] == row_kinds(src.tiles@[r as int]@));
                    lemma_grid_first_bad_skip(g, 0, r as int);
                    assert(row_first_bad(g[r as int], 0) is Some);
                    assert(grid_first_bad(g, r as int) matches Option::Some(rx) && rx.0 == r as int
                        && rx.1 == row_first_bad(g[r as int], 0)->Some_0);
                }
                return Err(LoadError::UnknownToken { level: idx, token: tok });
            },
        }
        r += 1;
    }
    proof {
        lemma_grid_first_bad_skip(g, 0, h as int);
        assert(grid_first_bad(g, 0) is None);
        assert(grid_view(kinds@) =~= g);
        assert forall|rr: int| 0 <= rr < kinds@.len() implies (#[trigger] kinds@[rr])@.len()
            <= 1_000_000 by {
            lemma_split_row_len(src.tiles@[rr]@);
        }
    }
    let doors = collect_positions(&kinds, TokenSel::Door);
    if doors.len() == 0 {
        return Err(LoadError::NoGoals { level: idx });
    }
    let players = collect_positions(&kinds, TokenSel::Player);
    if players.len() == 0 {
        return Err(LoadError::MissingPlayer { level: idx });
    }
    let hazards = collect_positions(&kinds, TokenSel::Hazard);
    if hazards.len() == 0 {
        return Err(LoadError::MissingHazard { level: idx });
    }
    let mut k: usize = 0;
    let plen = src.path.len();
    while k < plen
        invariant
            plen == src.path@.len(),
            0 <= k <= plen,
            g == grid_of(src.tiles@),
            h == src.tiles@.len(),
            grid_first_bad(g, 0) is None,
            grid_positions(g, h as int, TokenSel::Door, 0).len() >= 1,
            grid_positions(g, h as int, TokenSel::Player, 0).len() >= 1,
            grid_positions(g, h as int, TokenSel::Hazard, 0).len() >= 1,
            forall|kk: int|
                0 <= kk < k ==> -TILE_LIMIT <= (#[trigger] src.path@[kk]).0 <= TILE_LIMIT
                    && -TILE_LIMIT <= src.path@[kk].1 <= TILE_LIMIT,
        decreases plen - k,
    {
        let p = src.path[k];
        if p.0 < -TILE_LIMIT || p.0 > TILE_LIMIT || p.1 < -TILE_LIMIT || p.1 > TILE_LIMIT {
            return Err(LoadError::BadWaypoint { level: idx });
        }
        k += 1;
    }
    let buttons = collect_positions(&kinds, TokenSel::Button);
    let gates = collect_positions(&kinds, TokenSel::Gate);
    let mut k: usize = 0;
    let llen = src.links.len();
    while k < llen
        invariant
            llen == src.links@.len(),
            0 <= k <= llen,
            buttons@.len() == grid_positions(g, h as int, TokenSel::Button, 0).len(),
            gates@.len() == grid_positions(g, h as int, TokenSel::Gate, 0).len(),
            g == grid_of(src.tiles@),
            h == src.tiles@.len(),
            grid_first_bad(g, 0) is None,
            grid_positions(g, h as int, TokenSel::Door, 0).len() >= 1,
            grid_positions(g, h as int, TokenSel::Player, 0).len() >= 1,
            grid_positions(g, h as int, TokenSel::Hazard, 0).len() >= 1,
            path_ok(src.path@),
            forall|kk: int|
                0 <= kk < k ==> (#[trigger] src.links@[kk]).0 < buttons@.len() && src.links@[kk].1
                    < gates@.len(),
        decreases llen - k,
    {
        let l = src.links[k];
        if l.0 >= buttons.len() || l.1 >= gates.len() {
            return Err(LoadError::BadLink { level: idx });
        }
        k += 1;
    }
    let mut width: usize = 0;
    let mut r: usize = 0;
    proof {
        lemma_grid_width_nonneg(g, 0);
    }
    while r < h
        invariant
            h == kinds@.len(),
            g == grid_view(kinds@),
            0 <= r <= h,
            width <= 1_000_000,
            forall|rr: int| 0 <= rr < h ==> (#[trigger] kinds@[rr])@.len() <= 1_000_000,
            grid_width(g, 0) == spec_max(width as int, grid_width(g, r as int)),
        decreases h - r,
    {
        proof {
            assert(g[r as int] == kinds@[r as int]@);
            lemma_grid_width_nonneg(g, r as int + 1);
        }
        let rl = kinds[r].len();
        if rl > width {
            width = rl;
        }
        r += 1;
    }
    proof {
        assert(grid_width(g, h as int) == 0);
        assert(grid_width(g, 0) == width as int);
        assert(h >= 1) by {
            if h == 0 {
                assert(doors@.len() == 0);
            }
        }
    }
    let midpoint = Vec2 { x: (width as i64) * 500, y: (h as i64) * 500 - 500 };
    let player_pos = players[players.len() - 1];
    let stalker_pos = hazards[hazards.len() - 1];
    let mut patrol: Vec<Vec2> = Vec::new();
    if src.path.len() > 0 {
        let mut k: usize = 0;
        while k < plen
            invariant
                plen == src.path@.len(),
                path_ok(src.path@),
                0 <= k <= plen,
                patrol@.len() == k,
                forall|kk: int|
                    0 <= kk < k ==> (#[trigger] patrol@[kk]) == Vec2::spec_of_tile(
                        src.path@[kk].0 as int,
                        src.path@[kk].1 as int,
                    ) && patrol@[kk].in_limit(),
            decreases plen - k,
        {
            let p = src.path[k];
            patrol.push(Vec2::of_tile(p.0, p.1));
            k += 1;
        }
        proof {
            assert(patrol@ =~= src.path@.map_values(
                |p: (i64, i64)| Vec2::spec_of_tile(p.0 as int, p.1 as int),
            ));
        }
    } else {
        patrol.push(stalker_pos);
        proof {
            assert(patrol@ =~= seq![
                grid_positions(g, h as int, TokenSel::Hazard, 0).last(),
            ]);
        }
    }
    let walls = collect_walls(&kinds);
    let pushes = collect_positions(&kinds, TokenSel::Push);
    let mut links: Vec<(usize, usize)> = Vec::new();
    let mut k: usize = 0;
    while k < llen
        invariant
            llen == src.links@.len(),
            0 <= k <= llen,
            links@.len() == k,
            forall|kk: int| 0 <= kk < k ==> #[trigger] links@[kk] == src.links@[kk],
        decreases llen - k,
    {
        links.push(src.links[k]);
        k += 1;
    }
    proof {
        assert(links@ =~= src.links@);
    }
    Ok(
        Level {
            name: src.name.clone(),
            midpoint,
            player_pos,
            stalker_pos,
            doors,
            blocks: walls,
            push_blocks: pushes,
            buttons,
            gates,
            initial_stalker_path: patrol,
            links,
        },
    )
}

/// Load every declared level, in declaration order, or report the first
/// failure.
pub fn load_levels(sources: &Vec<LevelSource>) -> (r: Result<Vec<Level>, LoadError>)
    requires
        forall|i: int| 0 <= i < sources@.len() ==> source_size_ok(#[trigger] sources@[i]),
    ensures
        r is Ok <==> (forall|i: int| 0 <= i < sources@.len() ==> source_ok(#[trigger] sources@[i])),
        r matches Result::Ok(ls) ==> ls@.len() == sources@.len() && (forall|i: int|
            0 <= i < sources@.len() ==> level_matches(sources@[i], #[trigger] ls@[i])
                && ls@[i].wf()),
        r matches Result::Err(e) ==> (first_bad_source(sources@, 0) matches Option::Some(i)
            && source_error_matches(e, i, sources@[i])),
{
    let n = sources.len();
    let mut out: Vec<Level> = Vec::new();
    let mut i: usize = 0;
    while i < n
        invariant
            n == sources@.len(),
            forall|j: int| 0 <= j < n ==> source_size_ok(#[trigger] sources@[j]),
            0 <= i <= n,
            out@.len() == i,
            forall|j: int| 0 <= j < i ==> source_ok(#[trigger] sources@[j]),
            forall|j: int|
                0 <= j < i ==> level_matches(sources@[j], #[trigger] out@[j]) && out@[j].wf(),
        decreases n - i,
    {
        match build_level(i, &sources[i]) {
            Ok(l) => {
                out.push(l);
            },
            Err(e) => {
                proof {
                    lemma_first_bad_source_skip(sources@, 0, i as int);
                }
                return Err(e);
            },
        }
        i += 1;
    }
    proof {
        lemma_first_bad_source_skip(sources@, 0, n as int);
    }
    Ok(out)
}

} // verus!

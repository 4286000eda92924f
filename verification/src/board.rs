use vstd::prelude::*;

verus! {

/// Marker stored in an empty cell.
pub const EMPTY: u8 = 0;

/// Marker stored for the first player's stones.
pub const PLAYER_ONE: u8 = 1;

/// Marker stored for the second player's stones.
pub const PLAYER_TWO: u8 = 2;

/// Smallest board edge the label alphabet supports comfortably.
pub const MIN_SIZE: usize = 16;

/// Largest board edge: one label character per row and per column.
pub const MAX_SIZE: usize = 62;

/// Mathematical model of a board: the edge length, the grid of markers,
/// and the coordinates of the most recent placement.
pub ghost struct GameView {
    pub size: nat,
    pub cells: Seq<Seq<u8>>,
    pub last_x: nat,
    pub last_y: nat,
}

impl GameView {
    /// Well-formedness: the grid is square with edge `size` in the supported
    /// range, every cell holds one of the three markers, and the recorded
    /// last placement lies on the board.
    pub open spec fn wf(self) -> bool {
        &&& MIN_SIZE <= self.size <= MAX_SIZE
        &&& self.cells.len() == self.size
        &&& forall|i: int| 0 <= i < self.size ==> (#[trigger] self.cells[i]).len() == self.size
        &&& forall|i: int, j: int|
            0 <= i < self.size && 0 <= j < self.size ==> is_marker(#[trigger] self.cells[i][j])
        &&& self.last_x < self.size
        &&& self.last_y < self.size
    }
}

/// The three values a cell may hold.
pub open spec fn is_marker(dot: u8) -> bool {
    dot == EMPTY || dot == PLAYER_ONE || dot == PLAYER_TWO
}

/// Number of contiguous cells holding `dot`, starting at `(x, y)` and
/// stepping by `(dx, dy)`, stopping at the first cell that leaves the board
/// or differs from `dot`. The step must be a unit step along one of the four
/// axes (possibly reversed); anything else counts nothing.
pub open spec fn chain(v: GameView, dot: u8, x: int, y: int, dx: int, dy: int) -> nat
    decreases chain_measure(v, x, y, dx, dy),
{
    if !(-1 <= dx <= 1) || !(-1 <= dy <= 1) || (dx == 0 && dy == 0) || x < 0 || x >= v.size || y < 0
        || y >= v.size || v.cells[x][y] != dot {
        0
    } else {
        1 + chain(v, dot, x + dx, y + dy, dx, dy)
    }
}

/// Length of the maximal run of the anchor's marker through the anchor cell
/// along the axis with direction `(dx, dy)`: the contiguous cells scanned
/// backward from the anchor (the anchor itself counted here, once) plus
/// those scanned forward from the anchor's successor.
pub open spec fn run_through(v: GameView, dx: int, dy: int) -> nat {
    let dot = v.cells[v.last_x as int][v.last_y as int];
    chain(v, dot, v.last_x as int, v.last_y as int, -dx, -dy) + chain(
        v,
        dot,
        v.last_x as int + dx,
        v.last_y as int + dy,
        dx,
        dy,
    )
}

/// The most recent placement completed five in a row: its marker is a real
/// stone (an empty anchor never matches, so an untouched board reports no
/// win) and one of the four axes through the anchor carries a run of at
/// least five.
pub open spec fn has_win(v: GameView) -> bool {
    &&& v.cells[v.last_x as int][v.last_y as int] != EMPTY
    &&& {
        ||| run_through(v, 1, 0) >= 5
        ||| run_through(v, 0, 1) >= 5
        ||| run_through(v, 1, 1) >= 5
        ||| run_through(v, -1, 1) >= 5
    }
}

/// The measure that bounds a chain scan: how many unit steps fit between
/// `(x, y)` and the edge of the board in direction `(dx, dy)`.
pub open spec fn chain_measure(v: GameView, x: int, y: int, dx: int, dy: int) -> int {
    (if dx >= 0 {
        v.size - x
    } else {
        x + 1
    }) + (if dy >= 0 {
        v.size - y
    } else {
        y + 1
    })
}

/// A chain never counts more cells than fit between its start and the edge
/// of the board.
pub proof fn lemma_chain_bound(v: GameView, dot: u8, x: int, y: int, dx: int, dy: int)
    ensures
        chain(v, dot, x, y, dx, dy) <= vstd::math::max(chain_measure(v, x, y, dx, dy), 0),
    decreases chain_measure(v, x, y, dx, dy),
{
    if !(-1 <= dx <= 1) || !(-1 <= dy <= 1) || (dx == 0 && dy == 0) || x < 0 || x >= v.size
        || y < 0 || y >= v.size || v.cells[x][y] != dot {
    } else {
        lemma_chain_bound(v, dot, x + dx, y + dy, dx, dy);
    }
}

/// What the win check returns: the anchor's marker when it completed a run
/// of five, nothing otherwise.
pub open spec fn check_spec(v: GameView) -> Option<u8> {
    if has_win(v) {
        Some(v.cells[v.last_x as int][v.last_y as int])
    } else {
        None
    }
}

/// A placement whose own four axes carry no run of five yields no win,
/// however long the runs elsewhere on the board may be: the check looks
/// only at the lines through the most recent placement.
pub proof fn lemma_no_run_through_anchor_no_win(v: GameView)
    requires
        run_through(v, 1, 0) < 5,
        run_through(v, 0, 1) < 5,
        run_through(v, 1, 1) < 5,
        run_through(v, -1, 1) < 5,
    ensures
        check_spec(v) == None::<u8>,
{
}

/// Five stones of one marker filling `(0, 0)` through `(0, 4)`, the last of
/// them placed last, win for that marker on the horizontal axis.
pub proof fn lemma_row_of_five_wins(v: GameView, m: u8)
    requires
        v.wf(),
        m != EMPTY,
        v.last_x == 0,
        v.last_y == 4,
        forall|j: int| 0 <= j <= 4 ==> v.cells[0][j] == m,
    ensures
        check_spec(v) == Some(m),
{
    reveal_with_fuel(chain, 7);
    assert(chain(v, m, 0, 4, 0, -1) == 5);
    assert(run_through(v, 0, 1) >= 5);
}

/// The vertical analogue: stones at `(0, 0)` through `(4, 0)`, the last of
/// them placed last, win on the vertical axis.
pub proof fn lemma_column_of_five_wins(v: GameView, m: u8)
    requires
        v.wf(),
        m != EMPTY,
        v.last_x == 4,
        v.last_y == 0,
        forall|i: int| 0 <= i <= 4 ==> v.cells[i][0] == m,
    ensures
        check_spec(v) == Some(m),
{
    reveal_with_fuel(chain, 7);
    assert(chain(v, m, 4, 0, -1, 0) == 5);
    assert(run_through(v, 1, 0) >= 5);
}

/// The falling-diagonal analogue: stones at `(0, 0)` through `(4, 4)`, the
/// last of them placed last, win on that diagonal.
pub proof fn lemma_diagonal_of_five_wins(v: GameView, m: u8)
    requires
        v.wf(),
        m != EMPTY,
        v.last_x == 4,
        v.last_y == 4,
        forall|i: int| 0 <= i <= 4 ==> v.cells[i][i] == m,
    ensures
        check_spec(v) == Some(m),
{
    reveal_with_fuel(chain, 7);
    assert(chain(v, m, 4, 4, -1, -1) == 5);
    assert(run_through(v, 1, 1) >= 5);
}

/// The rising-diagonal analogue: stones at `(0, 4)`, `(1, 3)`, `(2, 2)`,
/// `(3, 1)` and `(4, 0)`, the last of them placed last, win on that
/// diagonal.
pub proof fn lemma_anti_diagonal_of_five_wins(v: GameView, m: u8)
    requires
        v.wf(),
        m != EMPTY,
        v.last_x == 4,
        v.last_y == 0,
        forall|i: int| 0 <= i <= 4 ==> v.cells[i][4 - i] == m,
    ensures
        check_spec(v) == Some(m),
{
    reveal_with_fuel(chain, 7);
    assert(chain(v, m, 4, 0, 1, -1) == 1);
    assert(chain(v, m, 3, 1, -1, 1) == 4);
    assert(run_through(v, -1, 1) >= 5);
}

/// A square five-in-a-row board: a grid of markers plus the coordinates of
/// the most recent placement, which anchors the win check.
pub struct Game {
    size: usize,
    chess: Vec<Vec<u8>>,
    last_x: usize,
    last_y: usize,
}

impl View for Game {
    type V = GameView;

    closed spec fn view(&self) -> GameView {
        GameView {
            size: self.size as nat,
            cells: Seq::new(self.chess@.len(), |i: int| self.chess@[i]@),
            last_x: self.last_x as nat,
            last_y: self.last_y as nat,
        }
    }
}

impl Game {
    /// A fresh board: every cell empty, the last-placement anchor parked at
    /// the origin until a real placement overwrites it.
    pub fn new(size: usize) -> (g: Game)
        requires
            MIN_SIZE <= size <= MAX_SIZE,
        ensures
            g@.wf(),
            g@.size == size,
            g@.last_x == 0,
            g@.last_y == 0,
            forall|i: int, j: int| 0 <= i < size && 0 <= j < size ==> g@.cells[i][j] == EMPTY,
    {
        let mut chess: Vec<Vec<u8>> = Vec::new();
        let mut i: usize = 0;
        while i < size
            invariant
                i <= size,
                chess@.len() == i,
                forall|r: int| 0 <= r < i ==> (#[trigger] chess@[r])@.len() == size,
                forall|r: int, c: int|
                    0 <= r < i && 0 <= c < size ==> #[trigger] chess@[r]@[c] == EMPTY,
            decreases size - i,
        {
            let mut line: Vec<u8> = Vec::new();
            let mut j: usize = 0;
            while j < size
                invariant
                    j <= size,
                    line@.len() == j,
                    forall|c: int| 0 <= c < j ==> line@[c] == EMPTY,
                decreases size - j,
            {
                line.push(EMPTY);
                j += 1;
            }
            chess.push(line);
            i += 1;
        }
        Game { size, chess, last_x: 0, last_y: 0 }
    }

    /// The board's edge length.
    pub fn size(&self) -> (s: usize)
        ensures
            s == self@.size,
    {
        self.size
    }

    /// Writes `dot` into cell `(x, y)` and records that cell as the most
    /// recent placement. No other cell changes. Overwriting an occupied cell
    /// is permitted: rejecting such moves is a caller's policy, not the
    /// board's.
    pub fn set_dot(&mut self, x: usize, y: usize, dot: u8)
        requires
            old(self)@.wf(),
            x < old(self)@.size,
            y < old(self)@.size,
            is_marker(dot),
        ensures
            final(self)@.wf(),
            final(self)@.size == old(self)@.size,
            final(self)@.last_x == x,
            final(self)@.last_y == y,
            final(self)@.cells[x as int][y as int] == dot,
            forall|i: int, j: int|
                0 <= i < old(self)@.size && 0 <= j < old(self)@.size && !(i == x && j == y)
                    ==> final(self)@.cells[i][j] == old(self)@.cells[i][j],
    {
        self.last_x = x;
        self.last_y = y;
        proof {
            assert(old(self)@.cells[x as int] == self.chess@[x as int]@);
            assert(self.chess@[x as int]@.len() == old(self)@.size);
        }
        let line = &mut self.chess[x];
        line[y] = dot;
        proof {
            assert forall|i: int| 0 <= i < old(self)@.size implies (#[trigger] self@.cells[i]).len()
                == old(self)@.size by {
                assert(self@.cells[i] == self.chess@[i]@);
                assert(old(self)@.cells[i] == old(self).chess@[i]@);
                if i == x {
                    assert(self.chess@[i]@ == old(self).chess@[i]@.update(y as int, dot));
                }
            }
            assert forall|i: int, j: int|
                0 <= i < old(self)@.size && 0 <= j < old(self)@.size implies {
                &&& (!(i == x && j == y) ==> #[trigger] self@.cells[i][j] == old(self)@.cells[i][j])
                &&& (i == x && j == y ==> self@.cells[i][j] == dot)
                &&& is_marker(self@.cells[i][j])
            } by {
                assert(self@.cells[i] == self.chess@[i]@);
                assert(old(self)@.cells[i] == old(self).chess@[i]@);
                if i == x {
                    assert(self.chess@[i]@ == old(self).chess@[i]@.update(y as int, dot));
                }
                assert(is_marker(old(self)@.cells[i][j]));
            }
        }
    }

    /// Counts the contiguous cells holding `dot` from `(x0, y0)` onward in
    /// direction `(dx, dy)`, stopping at the board's edge or at the first
    /// other marker.
    #[verifier::loop_isolation(false)]
    fn scan(&self, x0: i32, y0: i32, dx: i32, dy: i32, dot: u8) -> (n: u32)
        requires
            self@.wf(),
            -1 <= dx <= 1,
            -1 <= dy <= 1,
            !(dx == 0 && dy == 0),
            -63 <= x0 <= 63,
            -63 <= y0 <= 63,
        ensures
            n == chain(self@, dot, x0 as int, y0 as int, dx as int, dy as int),
            n <= 256,
    {
        proof {
            assert(self.chess@.len() == self@.size);
            assert forall|i: int, j: int|
                0 <= i < self@.size && 0 <= j < self@.size implies #[trigger] self.chess@[i]@[j]
                == self@.cells[i][j] && self.chess@[i]@.len() == self@.size by {
                assert(self@.cells[i] == self.chess@[i]@);
            }
            lemma_chain_bound(self@, dot, x0 as int, y0 as int, dx as int, dy as int);
        }
        let mut x = x0;
        let mut y = y0;
        let mut n: u32 = 0;
        while 0 <= x && x < self.size as i32 && 0 <= y && y < self.size as i32
            && self.chess[x as usize][y as usize] == dot
            invariant
                -63 <= x <= 63,
                -63 <= y <= 63,
                chain(self@, dot, x0 as int, y0 as int, dx as int, dy as int) == n + chain(
                    self@,
                    dot,
                    x as int,
                    y as int,
                    dx as int,
                    dy as int,
                ),
            decreases chain(self@, dot, x as int, y as int, dx as int, dy as int),
        {
            proof {
                assert(self@.cells[x as int][y as int] == dot);
                assert(chain(self@, dot, x as int, y as int, dx as int, dy as int) == 1 + chain(
                    self@,
                    dot,
                    x as int + dx as int,
                    y as int + dy as int,
                    dx as int,
                    dy as int,
                ));
            }
            n = n + 1;
            x = x + dx;
            y = y + dy;
        }
        n
    }

    /// Examines the four axes through the most recent placement, in the
    /// fixed order horizontal, vertical, then the two diagonals, and returns
    /// the anchor's marker as soon as one of them carries a run of at least
    /// five contiguous cells of that marker. Returns nothing when no axis
    /// does, and in particular whenever the anchor cell is empty.
    pub fn check(&self) -> (r: Option<u8>)
        requires
            self@.wf(),
        ensures
            r == check_spec(self@),
    {
        let dot = self.get_dot(self.last_x, self.last_y);
        if dot == EMPTY {
            return None;
        }
        let x = self.last_x as i32;
        let y = self.last_y as i32;
        let n_h = self.scan(x, y, -1, 0, dot) + self.scan(x + 1, y, 1, 0, dot);
        if n_h >= 5 {
            return Some(dot);
        }
        let n_v = self.scan(x, y, 0, -1, dot) + self.scan(x, y + 1, 0, 1, dot);
        if n_v >= 5 {
            return Some(dot);
        }
        let n_d = self.scan(x, y, -1, -1, dot) + self.scan(x + 1, y + 1, 1, 1, dot);
        if n_d >= 5 {
            return Some(dot);
        }
        let n_a = self.scan(x, y, 1, -1, dot) + self.scan(x - 1, y + 1, -1, 1, dot);
        if n_a >= 5 {
            return Some(dot);
        }
        None
    }

    /// Reads the marker at cell `(x, y)`.
    pub fn get_dot(&self, x: usize, y: usize) -> (dot: u8)
        requires
            self@.wf(),
            x < self@.size,
            y < self@.size,
        ensures
            dot == self@.cells[x as int][y as int],
    {
        proof {
            assert(self@.cells[x as int] == self.chess@[x as int]@);
        }
        self.chess[x][y]
    }
}

} // verus!

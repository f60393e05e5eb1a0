//! The tableau: placed cards, occupancy, the legal moves, and what a move and
//! the reveal make of the cards.

use vstd::prelude::*;
use vstd::arithmetic::div_mod::lemma_fundamental_div_mod_converse;
use crate::card::Card;

verus! {

/// A cell of the tableau: column `x` and row `y`, both counted from zero.
/// Rows grow downward.
#[derive(Debug, Clone, Copy, Hash, PartialEq, Eq, Structural)]
pub struct GridPosition {
    /// The column.
    pub x: u8,
    /// The row.
    pub y: u8,
}

/// Whether a placed card lies face down or face up.
#[derive(Debug, Clone, Copy, PartialEq, Eq, Structural)]
pub enum Visibility {
    /// Face down.
    Hidden,
    /// Face up.
    Shown,
}

/// A card on the tableau.
#[derive(Debug, Clone, Copy, PartialEq, Eq, Structural)]
pub struct PlacedCard {
    /// The card.
    pub card: Card,
    /// The cell that the card occupies.
    pub position: GridPosition,
    /// Whether the card is face down or face up.
    pub visibility: Visibility,
}

/// A move of one card: the cell it leaves and the cell it lands on.
pub type LegalMove = (GridPosition, GridPosition);

/// The number of columns of the tableau.
pub const COLUMNS: u8 = 10;

/// The last row that a cell can have.
pub const LAST_ROW: u8 = 255;

/// The cell directly beneath `p`.
pub open spec fn below(p: GridPosition) -> GridPosition {
    GridPosition { x: p.x, y: (p.y + 1) as u8 }
}

/// Whether some card, hidden or shown, occupies the cell `p`.
pub open spec fn occupied(cards: Seq<PlacedCard>, p: GridPosition) -> bool {
    exists|i: int| 0 <= i < cards.len() && (#[trigger] cards[i]).position == p
}

/// Whether there is a cell beneath `p` and a card in it.
pub open spec fn covered(cards: Seq<PlacedCard>, p: GridPosition) -> bool {
    p.y < LAST_ROW && occupied(cards, below(p))
}

/// Whether card `i` may be put directly beneath card `j`: both are shown,
/// card `i` is exactly one rank below card `j`, and the cell beneath card `j`
/// exists and is free. Suits play no part.
pub open spec fn pair_legal(cards: Seq<PlacedCard>, i: int, j: int) -> bool {
    &&& 0 <= i < cards.len()
    &&& 0 <= j < cards.len()
    &&& cards[i].visibility == Visibility::Shown
    &&& cards[j].visibility == Visibility::Shown
    &&& cards[j].card.value.spec_next() == Some(cards[i].card.value)
    &&& cards[j].position.y < LAST_ROW
    &&& !occupied(cards, below(cards[j].position))
}

/// The move that puts card `i` directly beneath card `j`.
pub open spec fn pair_move(cards: Seq<PlacedCard>, i: int, j: int) -> LegalMove {
    (cards[i].position, below(cards[j].position))
}

/// Whether the move from `src` to `dst` is legal: some shown card at `src` may
/// be put beneath some shown card whose cell lies directly above `dst`.
pub open spec fn is_legal(cards: Seq<PlacedCard>, src: GridPosition, dst: GridPosition) -> bool {
    exists|i: int, j: int| #[trigger]
        pair_legal(cards, i, j) && pair_move(cards, i, j) == (src, dst)
}

/// The legal moves among the first `t` pairs of cards, in the order of the
/// pairs. Pairs are counted with the moving card first: pair number `u` puts
/// card `u div n` beneath card `u mod n`, where `n` is the number of cards.
pub open spec fn moves_among(cards: Seq<PlacedCard>, t: int) -> Seq<LegalMove>
    decreases t,
{
    if t <= 0 {
        Seq::empty()
    } else {
        let front = moves_among(cards, t - 1);
        if numbered_pair_legal(cards, t - 1) {
            front.push(numbered_pair_move(cards, t - 1))
        } else {
            front
        }
    }
}

/// Whether pair number `u` is a legal pair.
pub open spec fn numbered_pair_legal(cards: Seq<PlacedCard>, u: int) -> bool {
    pair_legal(cards, u / (cards.len() as int), u % (cards.len() as int))
}

/// The move of pair number `u`.
pub open spec fn numbered_pair_move(cards: Seq<PlacedCard>, u: int) -> LegalMove {
    pair_move(cards, u / (cards.len() as int), u % (cards.len() as int))
}

/// The list of all legal moves: one entry for each legal pair of cards, the
/// pairs taken card by card in the order of the cards.
pub open spec fn all_moves(cards: Seq<PlacedCard>) -> Seq<LegalMove> {
    moves_among(cards, (cards.len() * cards.len()) as int)
}

/// The first move of a list that starts at `pos`, if there is one.
pub open spec fn first_move_from(moves: Seq<LegalMove>, pos: GridPosition) -> Option<LegalMove>
    decreases moves.len(),
{
    if moves.len() == 0 {
        None
    } else if moves[0].0 == pos {
        Some(moves[0])
    } else {
        first_move_from(moves.drop_first(), pos)
    }
}

/// Whether a card belongs to the run that moves with the card at `src`: it is
/// shown, stands in the column of `src`, and not above `src`.
pub open spec fn in_run(c: PlacedCard, src: GridPosition) -> bool {
    c.visibility == Visibility::Shown && c.position.x == src.x && c.position.y >= src.y
}

/// Whether every card of the run at `src` finds a row when the run is put
/// down at `dst`.
pub open spec fn run_fits(cards: Seq<PlacedCard>, src: GridPosition, dst: GridPosition) -> bool {
    forall|i: int|
        0 <= i < cards.len() && in_run(#[trigger] cards[i], src) ==> dst.y + (cards[i].position.y
            - src.y) <= LAST_ROW
}

/// A card after the run at `src` was put down at `dst`: a card of the run
/// stands in the column of `dst`, as far beneath `dst` as it stood beneath
/// `src`; any other card is unchanged.
pub open spec fn relocate(c: PlacedCard, src: GridPosition, dst: GridPosition) -> PlacedCard {
    if in_run(c, src) {
        PlacedCard {
            card: c.card,
            position: GridPosition { x: dst.x, y: (dst.y + (c.position.y - src.y)) as u8 },
            visibility: c.visibility,
        }
    } else {
        c
    }
}

/// The cards after the run at `src` was put down at `dst`.
pub open spec fn relocated(cards: Seq<PlacedCard>, src: GridPosition, dst: GridPosition) -> Seq<
    PlacedCard,
> {
    Seq::new(cards.len(), |i: int| relocate(cards[i], src, dst))
}

/// A card after the reveal: a hidden card with nothing beneath it is shown;
/// any other card is unchanged.
pub open spec fn reveal_one(cards: Seq<PlacedCard>, c: PlacedCard) -> PlacedCard {
    if c.visibility == Visibility::Hidden && !covered(cards, c.position) {
        PlacedCard { card: c.card, position: c.position, visibility: Visibility::Shown }
    } else {
        c
    }
}

/// The cards after the reveal.
pub open spec fn revealed(cards: Seq<PlacedCard>) -> Seq<PlacedCard> {
    Seq::new(cards.len(), |i: int| reveal_one(cards, cards[i]))
}

/// Whether no two cards stand in the same cell.
pub open spec fn cells_distinct(cards: Seq<PlacedCard>) -> bool {
    forall|i: int, j: int|
        0 <= i < cards.len() && 0 <= j < cards.len() && i != j ==> (#[trigger] cards[i]).position
            != (#[trigger] cards[j]).position
}

/// Whether the run at `src` lands on free cells at `dst`: no card that stays
/// where it is stands at `dst` or beneath it.
pub open spec fn landing_free(cards: Seq<PlacedCard>, src: GridPosition, dst: GridPosition) -> bool {
    forall|k: int|
        0 <= k < cards.len() && !in_run(#[trigger] cards[k], src) ==> !(cards[k].position.x
            == dst.x && cards[k].position.y >= dst.y)
}

/// Whether every card stands in one of the ten columns.
pub open spec fn in_columns(cards: Seq<PlacedCard>) -> bool {
    forall|i: int| 0 <= i < cards.len() ==> (#[trigger] cards[i]).position.x < COLUMNS
}

impl GridPosition {
    /// The cell directly beneath this one: same column, next row.
    pub fn next_row(&self) -> (r: GridPosition)
        requires
            self.y < LAST_ROW,
        ensures
            r == below(*self),
            r.x == self.x,
            r.y == self.y + 1,
    {
        GridPosition { x: self.x, y: self.y + 1 }
    }
}

/// Whether some card occupies the cell `p`.
pub fn is_occupied(cards: &Vec<PlacedCard>, p: GridPosition) -> (b: bool)
    ensures
        b == occupied(cards@, p),
{
    let mut i: usize = 0;
    while i < cards.len()
        invariant
            i <= cards.len(),
            forall|k: int| 0 <= k < i ==> (#[trigger] cards@[k]).position != p,
        decreases cards.len() - i,
    {
        if cards[i].position == p {
            return true;
        }
        i += 1;
    }
    false
}

/// All legal moves on the given cards, in the order of the pairs of cards
/// that give them: every pair of a shown card and the free cell beneath a
/// shown card of the next-higher rank, and nothing else.
pub fn calculate_legal_moves(cards: &Vec<PlacedCard>) -> (moves: Vec<LegalMove>)
    ensures
        moves@ == all_moves(cards@),
        forall|k: int|
            0 <= k < moves@.len() ==> is_legal(cards@, (#[trigger] moves@[k]).0, moves@[k].1),
        forall|src: GridPosition, dst: GridPosition|
            is_legal(cards@, src, dst) ==> #[trigger] moves@.contains((src, dst)),
{
    let n = cards.len();
    let mut moves: Vec<LegalMove> = Vec::new();
    let mut i: usize = 0;
    while i < n
        invariant
            n == cards.len(),
            i <= n,
            moves@ == moves_among(cards@, i * n),
        decreases n - i,
    {
        let c = cards[i];
        let mut j: usize = 0;
        while j < n
            invariant
                n == cards.len(),
                i < n,
                j <= n,
                c == cards@[i as int],
                moves@ == moves_among(cards@, i * n + j),
            decreases n - j,
        {
            let r = cards[j];
            let mut legal = false;
            if c.visibility == Visibility::Shown && r.visibility == Visibility::Shown && r.position.y
                < LAST_ROW {
                if let Some(value) = r.card.value.next() {
                    if value == c.card.value {
                        let target = r.position.next_row();
                        if !is_occupied(cards, target) {
                            legal = true;
                        }
                    }
                }
            }
            proof {
                lemma_fundamental_div_mod_converse(i * n + j, n as int, i as int, j as int);
            }
            if legal {
                let target = r.position.next_row();
                moves.push((c.position, target));
            }
            j += 1;
        }
        assert(i * n + n == (i + 1) * n) by (nonlinear_arith);
        i += 1;
    }
    proof {
        assert forall|k: int| 0 <= k < moves@.len() implies is_legal(
            cards@,
            (#[trigger] moves@[k]).0,
            moves@[k].1,
        ) by {
            lemma_all_moves(cards@, moves@[k].0, moves@[k].1);
        }
        assert forall|src: GridPosition, dst: GridPosition|
            is_legal(cards@, src, dst) implies #[trigger] moves@.contains((src, dst)) by {
            lemma_all_moves(cards@, src, dst);
        }
    }
    moves
}

/// Whether the move from `src` to `dst` is among the legal moves.
pub fn is_legal_move(cards: &Vec<PlacedCard>, src: GridPosition, dst: GridPosition) -> (b: bool)
    ensures
        b == is_legal(cards@, src, dst),
{
    let moves = calculate_legal_moves(cards);
    let mut k: usize = 0;
    while k < moves.len()
        invariant
            k <= moves.len(),
            forall|m: int| 0 <= m < k ==> #[trigger] moves@[m] != (src, dst),
            forall|m: int|
                0 <= m < moves@.len() ==> is_legal(cards@, (#[trigger] moves@[m]).0, moves@[m].1),
        decreases moves.len() - k,
    {
        let m = moves[k];
        if m.0 == src && m.1 == dst {
            return true;
        }
        k += 1;
    }
    assert(!moves@.contains((src, dst)));
    false
}

/// A move is among the first `t` pairs' moves exactly if one of those pairs
/// is legal and gives it.
pub proof fn lemma_moves_among(cards: Seq<PlacedCard>, t: int, m: LegalMove)
    ensures
        moves_among(cards, t).contains(m) <==> exists|u: int|
            0 <= u < t && #[trigger] numbered_pair_legal(cards, u) && numbered_pair_move(cards, u)
                == m,
    decreases t,
{
    if t > 0 {
        let front = moves_among(cards, t - 1);
        let all = moves_among(cards, t);
        lemma_moves_among(cards, t - 1, m);
        if exists|u: int|
            0 <= u < t && #[trigger] numbered_pair_legal(cards, u) && numbered_pair_move(cards, u)
                == m {
            let u = choose|u: int|
                0 <= u < t && #[trigger] numbered_pair_legal(cards, u) && numbered_pair_move(
                    cards,
                    u,
                ) == m;
            if u < t - 1 {
                let k = choose|k: int| 0 <= k < front.len() && front[k] == m;
                assert(all[k] == m);
            } else {
                assert(all[all.len() - 1] == m);
            }
        }
    }
}

/// The list of all legal moves holds exactly the legal moves.
pub proof fn lemma_all_moves(cards: Seq<PlacedCard>, src: GridPosition, dst: GridPosition)
    ensures
        all_moves(cards).contains((src, dst)) <==> is_legal(cards, src, dst),
{
    let n = cards.len() as int;
    lemma_moves_among(cards, n * n, (src, dst));
    if is_legal(cards, src, dst) {
        let (i, j) = choose|i: int, j: int| #[trigger]
            pair_legal(cards, i, j) && pair_move(cards, i, j) == (src, dst);
        let u = i * n + j;
        lemma_fundamental_div_mod_converse(u, n, i, j);
        assert(0 <= u < n * n) by (nonlinear_arith)
            requires
                0 <= i < n,
                0 <= j < n,
                u == i * n + j,
        ;
        assert(numbered_pair_legal(cards, u));
    }
}

/// A legal move starts at an occupied cell and ends at a free cell that lies
/// directly beneath an occupied one, and it leaves the first row to the deal.
pub proof fn lemma_legal_move_cells(cards: Seq<PlacedCard>, src: GridPosition, dst: GridPosition)
    requires
        is_legal(cards, src, dst),
    ensures
        occupied(cards, src),
        !occupied(cards, dst),
        dst.y >= 1,
        occupied(cards, GridPosition { x: dst.x, y: (dst.y - 1) as u8 }),
{
}

/// Two layouts whose cards stand in the same cells occupy the same cells.
pub proof fn lemma_same_cells_same_occupancy(
    a: Seq<PlacedCard>,
    b: Seq<PlacedCard>,
    p: GridPosition,
)
    requires
        a.len() == b.len(),
        forall|i: int| 0 <= i < a.len() ==> (#[trigger] a[i]).position == b[i].position,
    ensures
        occupied(a, p) == occupied(b, p),
{
    if occupied(b, p) {
        let i = choose|i: int| 0 <= i < b.len() && (#[trigger] b[i]).position == p;
        assert(a[i].position == p);
    }
}

/// The reveal is idempotent: a second reveal right after the first changes
/// nothing.
pub proof fn lemma_reveal_idempotent(cards: Seq<PlacedCard>)
    ensures
        revealed(revealed(cards)) == revealed(cards),
{
    let r = revealed(cards);
    assert forall|i: int| 0 <= i < r.len() implies reveal_one(r, r[i]) == r[i] by {
        if r[i].visibility == Visibility::Hidden && r[i].position.y < LAST_ROW {
            lemma_same_cells_same_occupancy(cards, r, below(r[i].position));
        }
    }
}

/// Neither a move nor the reveal takes a card away, changes what card it is
/// or turns a shown card face down; the reveal moves no card, and a move
/// shifts each card of the run by the same number of rows.
pub proof fn lemma_cards_stay_face_up(
    cards: Seq<PlacedCard>,
    src: GridPosition,
    dst: GridPosition,
    i: int,
)
    requires
        0 <= i < cards.len(),
    ensures
        revealed(cards).len() == cards.len(),
        revealed(cards)[i].card == cards[i].card,
        revealed(cards)[i].position == cards[i].position,
        cards[i].visibility == Visibility::Shown ==> revealed(cards)[i].visibility
            == Visibility::Shown,
        relocated(cards, src, dst).len() == cards.len(),
        relocated(cards, src, dst)[i].card == cards[i].card,
        relocated(cards, src, dst)[i].visibility == cards[i].visibility,
        in_run(cards[i], src) && run_fits(cards, src, dst) ==> relocated(
            cards,
            src,
            dst,
        )[i].position.x == dst.x && relocated(cards, src, dst)[i].position.y - dst.y
            == cards[i].position.y - src.y,
        !in_run(cards[i], src) ==> relocated(cards, src, dst)[i] == cards[i],
{
}

/// The reveal keeps every card in a cell of its own, and so does a move whose
/// run finds its rows and lands on free cells.
pub proof fn lemma_cells_stay_distinct(cards: Seq<PlacedCard>, src: GridPosition, dst: GridPosition)
    requires
        cells_distinct(cards),
    ensures
        cells_distinct(revealed(cards)),
        run_fits(cards, src, dst) && landing_free(cards, src, dst) ==> cells_distinct(
            relocated(cards, src, dst),
        ),
{
}

} // verus!

//! The state of a game and what changes it: setup, moves, the reveal and the
//! dealing of reserve groups.

use vstd::prelude::*;
use crate::card::{Card, CardSuit};
use crate::deck::{one_suit_deck, standard_deck, two_suit_deck, Deck};
use crate::tableau::{
    all_moves, cells_distinct, first_move_from, in_columns, in_run, is_legal, is_legal_move,
    is_occupied, lemma_all_moves, occupied, relocated, revealed, run_fits, GridPosition,
    PlacedCard, Visibility, COLUMNS, LAST_ROW,
};

verus! {

/// How hard a game is: the number of suits in play.
#[derive(Debug, Clone, Copy, PartialEq, Eq, Structural)]
pub enum Difficulty {
    /// One suit.
    Easy,
    /// Two suits.
    Medium,
    /// Four suits.
    Hard,
}

/// A group of ten cards that waits to be dealt, one card for each column.
#[derive(Debug, Clone, Copy, PartialEq, Eq)]
pub struct Available {
    /// The cards, the card for the first column first.
    pub cards: [Card; 10],
}

/// The state of a game: the cards on the tableau and the groups that wait to
/// be dealt, the next one first.
#[derive(Debug, Clone, PartialEq, Eq)]
pub struct Game {
    /// The cards on the tableau. A cell is occupied exactly if one of them
    /// stands in it.
    pub cards: Vec<PlacedCard>,
    /// The groups that wait to be dealt, the next one first.
    pub reserve: Vec<Available>,
}

/// The number of cards dealt face down at the start.
pub const HIDDEN_AT_START: usize = 44;

/// The number of cards on the tableau at the start.
pub const PLACED_AT_START: usize = 54;

/// The deck that a game of the given difficulty is played with, before it is
/// shuffled: two decks of the difficulty's suits, one after the other.
pub open spec fn doubled_deck(difficulty: Difficulty) -> Seq<Card> {
    match difficulty {
        Difficulty::Easy => one_suit_deck(CardSuit::Spades) + one_suit_deck(CardSuit::Spades),
        Difficulty::Medium => two_suit_deck(CardSuit::Spades, CardSuit::Hearts) + two_suit_deck(
            CardSuit::Spades,
            CardSuit::Hearts,
        ),
        Difficulty::Hard => standard_deck() + standard_deck(),
    }
}

/// The `k`-th card of the deck `d` as it lies on the tableau at the start:
/// in column `k mod 10` and row `k div 10`, the first 44 face down.
pub open spec fn initial_card(d: Seq<Card>, k: int) -> PlacedCard {
    PlacedCard {
        card: d[k],
        position: GridPosition { x: (k % 10) as u8, y: (k / 10) as u8 },
        visibility: if k < HIDDEN_AT_START {
            Visibility::Hidden
        } else {
            Visibility::Shown
        },
    }
}

/// The tableau at the start of a game played with the deck `d`.
pub open spec fn initial_tableau(d: Seq<Card>) -> Seq<PlacedCard> {
    Seq::new(PLACED_AT_START as nat, |k: int| initial_card(d, k))
}

/// Whether `reserve` holds what the deck `d` leaves for it at the start: the
/// cards after the first 54, in order, in full groups of ten.
pub open spec fn is_initial_reserve(reserve: Seq<Available>, d: Seq<Card>) -> bool {
    &&& reserve.len() == (d.len() - PLACED_AT_START) / 10
    &&& forall|g: int, c: int|
        0 <= g < reserve.len() && 0 <= c < 10 ==> #[trigger] reserve[g].cards@[c]
            == d[PLACED_AT_START + 10 * g + c]
}

/// The height of column `c`: one more than the greatest row of a card in it,
/// and zero if no card stands in it.
pub open spec fn col_height(cards: Seq<PlacedCard>, c: int) -> int
    decreases cards.len(),
{
    if cards.len() == 0 {
        0
    } else {
        let h = col_height(cards.drop_last(), c);
        let last = cards.last();
        if last.position.x == c && last.position.y >= h {
            last.position.y + 1
        } else {
            h
        }
    }
}

/// The move that an attempt to move from the cell `pos` takes: the first
/// move in the list of legal moves that starts there.
pub open spec fn chosen_move(cards: Seq<PlacedCard>, pos: GridPosition) -> Option<
    (GridPosition, GridPosition),
> {
    first_move_from(all_moves(cards), pos)
}

/// Whether a group can be dealt: one waits, and every column has a row left.
pub open spec fn can_deal(cards: Seq<PlacedCard>, reserve: Seq<Available>) -> bool {
    reserve.len() > 0 && forall|c: int| 0 <= c < COLUMNS ==> col_height(cards, c) <= LAST_ROW
}

/// The cards of a group as they land on the tableau: the card for column `c`
/// face up in column `c`, in the row that is the column's height.
pub open spec fn dealt_row(cards: Seq<PlacedCard>, set: Available) -> Seq<PlacedCard> {
    Seq::new(
        COLUMNS as nat,
        |c: int|
            PlacedCard {
                card: set.cards@[c],
                position: GridPosition { x: c as u8, y: col_height(cards, c) as u8 },
                visibility: Visibility::Shown,
            },
    )
}

/// Whether the run at `src` stays within the rows when it is put down at `dst`.
fn fits(cards: &Vec<PlacedCard>, src: GridPosition, dst: GridPosition) -> (b: bool)
    ensures
        b == run_fits(cards@, src, dst),
{
    let mut i: usize = 0;
    while i < cards.len()
        invariant
            i <= cards.len(),
            forall|k: int|
                0 <= k < i && in_run(#[trigger] cards@[k], src) ==> dst.y + (cards@[k].position.y
                    - src.y) <= LAST_ROW,
        decreases cards.len() - i,
    {
        let c = cards[i];
        if c.visibility == Visibility::Shown && c.position.x == src.x && c.position.y >= src.y {
            if c.position.y - src.y > LAST_ROW - dst.y {
                return false;
            }
        }
        i += 1;
    }
    true
}

/// Puts the run at `src` down at `dst`.
fn relocate_all(cards: &Vec<PlacedCard>, src: GridPosition, dst: GridPosition) -> (out: Vec<
    PlacedCard,
>)
    requires
        run_fits(cards@, src, dst),
    ensures
        out@ == relocated(cards@, src, dst),
{
    let n = cards.len();
    let mut out: Vec<PlacedCard> = Vec::with_capacity(n);
    let mut i: usize = 0;
    while i < n
        invariant
            n == cards.len(),
            i <= n,
            run_fits(cards@, src, dst),
            out@ =~= relocated(cards@, src, dst).take(i as int),
        decreases n - i,
    {
        let c = cards[i];
        if c.visibility == Visibility::Shown && c.position.x == src.x && c.position.y >= src.y {
            let y: u8 = dst.y + (c.position.y - src.y);
            out.push(
                PlacedCard {
                    card: c.card,
                    position: GridPosition { x: dst.x, y },
                    visibility: c.visibility,
                },
            );
        } else {
            out.push(c);
        }
        i += 1;
    }
    out
}

/// The height of each of the ten columns.
pub fn find_max_rows(cards: &Vec<PlacedCard>) -> (rows: [u16; 10])
    ensures
        forall|c: int| 0 <= c < COLUMNS ==> #[trigger] rows@[c] == col_height(cards@, c),
{
    let mut rows: [u16; 10] = [0, 0, 0, 0, 0, 0, 0, 0, 0, 0];
    let mut i: usize = 0;
    while i < cards.len()
        invariant
            i <= cards.len(),
            forall|c: int|
                0 <= c < COLUMNS ==> #[trigger] rows@[c] == col_height(cards@.take(i as int), c),
            forall|c: int| 0 <= c < COLUMNS ==> #[trigger] rows@[c] <= LAST_ROW + 1,
        decreases cards.len() - i,
    {
        let p = cards[i].position;
        assert(cards@.take(i as int + 1).drop_last() =~= cards@.take(i as int));
        if p.x < COLUMNS {
            let x: usize = p.x as usize;
            let y: u16 = p.y as u16;
            if y >= rows[x] {
                rows[x] = y + 1;
            }
        }
        i += 1;
    }
    assert(cards@.take(cards@.len() as int) =~= cards@);
    rows
}

impl Game {
    /// Whether the state is well formed: every card stands in one of the ten
    /// columns.
    pub open spec fn wf(&self) -> bool {
        in_columns(self.cards@)
    }

    /// Lays out a game from a deck: the first 44 cards face down and the next
    /// ten face up, row by row across the ten columns; the cards after them
    /// wait in groups of ten.
    pub fn from_deck(deck: Deck) -> (game: Game)
        requires
            deck@.len() >= PLACED_AT_START,
        ensures
            game.cards@ == initial_tableau(deck@),
            is_initial_reserve(game.reserve@, deck@),
            game.wf(),
    {
        let mut cards: Vec<PlacedCard> = Vec::with_capacity(PLACED_AT_START);
        let mut k: usize = 0;
        while k < PLACED_AT_START
            invariant
                k <= PLACED_AT_START,
                deck@.len() >= PLACED_AT_START,
                cards@ =~= initial_tableau(deck@).take(k as int),
            decreases PLACED_AT_START - k,
        {
            let position = GridPosition { x: (k % 10) as u8, y: (k / 10) as u8 };
            let visibility = if k < HIDDEN_AT_START {
                Visibility::Hidden
            } else {
                Visibility::Shown
            };
            cards.push(PlacedCard { card: deck.cards[k], position, visibility });
            k += 1;
        }
        let groups: usize = (deck.cards.len() - PLACED_AT_START) / 10;
        let mut reserve: Vec<Available> = Vec::with_capacity(groups);
        let mut g: usize = 0;
        while g < groups
            invariant
                g <= groups,
                groups == (deck@.len() - PLACED_AT_START) / 10,
                PLACED_AT_START + 10 * groups <= deck@.len() == deck.cards.len(),
                reserve@.len() == g,
                forall|a: int, c: int|
                    0 <= a < g && 0 <= c < 10 ==> #[trigger] reserve@[a].cards@[c]
                        == deck@[PLACED_AT_START + 10 * a + c],
            decreases groups - g,
        {
            let b: usize = PLACED_AT_START + 10 * g;
            let d = &deck.cards;
            let set = Available {
                cards: [
                    d[b],
                    d[b + 1],
                    d[b + 2],
                    d[b + 3],
                    d[b + 4],
                    d[b + 5],
                    d[b + 6],
                    d[b + 7],
                    d[b + 8],
                    d[b + 9],
                ],
            };
            reserve.push(set);
            g += 1;
        }
        Game { cards, reserve }
    }

    /// Starts a game: builds the deck for the difficulty twice over, shuffles
    /// the 104 cards and lays them out. Which order the shuffle gives is left
    /// to chance: the game is laid out from some order of those cards.
    pub fn new_game(difficulty: Difficulty) -> (game: Game)
        ensures
            exists|d: Seq<Card>|
                #![trigger initial_tableau(d)]
                d.to_multiset() == doubled_deck(difficulty).to_multiset() && game.cards@
                    == initial_tableau(d) && is_initial_reserve(game.reserve@, d),
            game.cards@.len() == PLACED_AT_START,
            game.reserve@.len() == 5,
            game.wf(),
    {
        let mut deck = match difficulty {
            Difficulty::Easy => Deck::from_suit(CardSuit::Spades),
            Difficulty::Medium => Deck::from_suits(CardSuit::Spades, CardSuit::Hearts),
            Difficulty::Hard => Deck::new(),
        };
        let second = match difficulty {
            Difficulty::Easy => Deck::from_suit(CardSuit::Spades),
            Difficulty::Medium => Deck::from_suits(CardSuit::Spades, CardSuit::Hearts),
            Difficulty::Hard => Deck::new(),
        };
        deck.combine(second);
        deck.shuffle();
        Game::from_deck(deck)
    }

    /// The card that occupies the cell `pos`, by its place among the cards;
    /// the first such card if several stand there, and none if the cell is
    /// free.
    pub fn card_at(&self, pos: GridPosition) -> (found: Option<usize>)
        ensures
            found is Some <==> occupied(self.cards@, pos),
            found matches Some(i) ==> i < self.cards@.len() && self.cards@[i as int].position
                == pos && forall|k: int| 0 <= k < i ==> (#[trigger] self.cards@[k]).position != pos,
    {
        let mut i: usize = 0;
        while i < self.cards.len()
            invariant
                i <= self.cards.len(),
                forall|k: int| 0 <= k < i ==> (#[trigger] self.cards@[k]).position != pos,
            decreases self.cards.len() - i,
        {
            if self.cards[i].position == pos {
                return Some(i);
            }
            i += 1;
        }
        None
    }

    /// All legal moves in this state.
    pub fn calculate_legal_moves(&self) -> (moves: Vec<(GridPosition, GridPosition)>)
        ensures
            forall|k: int|
                0 <= k < moves@.len() ==> is_legal(
                    self.cards@,
                    (#[trigger] moves@[k]).0,
                    moves@[k].1,
                ),
            forall|src: GridPosition, dst: GridPosition|
                is_legal(self.cards@, src, dst) ==> #[trigger] moves@.contains((src, dst)),
            moves@ == all_moves(self.cards@),
    {
        crate::tableau::calculate_legal_moves(&self.cards)
    }

    /// The reveal: every hidden card with nothing beneath it is turned face
    /// up. No card moves, and no shown card is hidden.
    pub fn show_revealed_cards(&mut self)
        ensures
            final(self).cards@ == revealed(old(self).cards@),
            final(self).reserve@ == old(self).reserve@,
            old(self).wf() ==> final(self).wf(),
    {
        let n = self.cards.len();
        let mut out: Vec<PlacedCard> = Vec::with_capacity(n);
        let mut i: usize = 0;
        while i < n
            invariant
                n == self.cards.len(),
                i <= n,
                out@ =~= revealed(self.cards@).take(i as int),
            decreases n - i,
        {
            let c = self.cards[i];
            let mut visibility = c.visibility;
            if c.visibility == Visibility::Hidden {
                let under = c.position.y < LAST_ROW && is_occupied(
                    &self.cards,
                    c.position.next_row(),
                );
                if !under {
                    visibility = Visibility::Shown;
                }
            }
            out.push(PlacedCard { card: c.card, position: c.position, visibility });
            i += 1;
        }
        self.cards = out;
    }

    /// Carries out the move from `src` to `dst` if it is legal in this state
    /// and the run finds its rows: the card at `src` and every shown card
    /// beneath it in its column go to the column of `dst`, as far beneath
    /// `dst` as they stood beneath `src`, whatever their ranks and suits; then
    /// the reveal takes place. Otherwise nothing changes.
    pub fn apply_move(&mut self, src: GridPosition, dst: GridPosition) -> (applied: bool)
        ensures
            applied == (is_legal(old(self).cards@, src, dst) && run_fits(
                old(self).cards@,
                src,
                dst,
            )),
            applied ==> final(self).cards@ == revealed(relocated(old(self).cards@, src, dst)),
            !applied ==> final(self).cards@ == old(self).cards@,
            final(self).reserve@ == old(self).reserve@,
            old(self).wf() ==> final(self).wf(),
    {
        if !is_legal_move(&self.cards, src, dst) {
            return false;
        }
        if !fits(&self.cards, src, dst) {
            return false;
        }
        let moved = relocate_all(&self.cards, src, dst);
        self.cards = moved;
        self.show_revealed_cards();
        true
    }

    /// Attempts a move from the cell `pos`: the first move in the list of
    /// legal moves that starts there is carried out as `apply_move` does. If
    /// no legal move starts at `pos`, or the run of that first move does not
    /// find its rows, nothing changes.
    pub fn handle_grid_input(&mut self, pos: GridPosition) -> (moved: Option<
        (GridPosition, GridPosition),
    >)
        ensures
            moved == match chosen_move(old(self).cards@, pos) {
                Some(m) => if run_fits(old(self).cards@, pos, m.1) {
                    Some(m)
                } else {
                    None
                },
                None => None,
            },
            moved matches Some(m) ==> m.0 == pos && final(self).cards@ == revealed(
                relocated(old(self).cards@, pos, m.1),
            ),
            moved is None ==> final(self).cards@ == old(self).cards@,
            final(self).reserve@ == old(self).reserve@,
            old(self).wf() ==> final(self).wf(),
    {
        let moves = self.calculate_legal_moves();
        let mut k: usize = 0;
        assert(moves@.skip(0) =~= moves@);
        while k < moves.len()
            invariant
                k <= moves.len(),
                *self == *old(self),
                moves@ == all_moves(self.cards@),
                first_move_from(moves@, pos) == first_move_from(moves@.skip(k as int), pos),
                forall|m: int|
                    0 <= m < moves@.len() ==> is_legal(
                        self.cards@,
                        (#[trigger] moves@[m]).0,
                        moves@[m].1,
                    ),
            decreases moves.len() - k,
        {
            let m = moves[k];
            assert(moves@.skip(k as int).drop_first() =~= moves@.skip(k as int + 1));
            if m.0 == pos {
                if self.apply_move(m.0, m.1) {
                    return Some(m);
                } else {
                    return None;
                }
            }
            k += 1;
        }
        None
    }

    /// Deals the next group, if one waits and every column has a row left:
    /// the group leaves the reserve and its cards land face up, one at the
    /// foot of each column. Otherwise nothing changes.
    pub fn handle_available_input(&mut self) -> (dealt: bool)
        ensures
            dealt == can_deal(old(self).cards@, old(self).reserve@),
            dealt ==> final(self).reserve@ == old(self).reserve@.remove(0) && final(self).cards@
                == old(self).cards@ + dealt_row(old(self).cards@, old(self).reserve@[0]),
            !dealt ==> final(self).cards@ == old(self).cards@ && final(self).reserve@ == old(
                self,
            ).reserve@,
            old(self).wf() ==> final(self).wf(),
    {
        if self.reserve.len() == 0 {
            return false;
        }
        let rows = find_max_rows(&self.cards);
        let mut c: usize = 0;
        while c < 10
            invariant
                c <= 10,
                forall|k: int| 0 <= k < c ==> #[trigger] rows@[k] <= LAST_ROW,
                forall|k: int|
                    0 <= k < COLUMNS ==> #[trigger] rows@[k] == col_height(self.cards@, k),
            decreases 10 - c,
        {
            if rows[c] > 255 {
                return false;
            }
            c += 1;
        }
        let ghost before = self.cards@;
        let set = self.reserve.remove(0);
        let mut x: u8 = 0;
        while x < 10
            invariant
                x <= 10,
                old(self).reserve@.len() > 0,
                before == old(self).cards@,
                forall|k: int| 0 <= k < COLUMNS ==> #[trigger] rows@[k] <= LAST_ROW,
                forall|k: int| 0 <= k < COLUMNS ==> #[trigger] rows@[k] == col_height(before, k),
                self.cards@ =~= before + dealt_row(before, set).take(x as int),
                self.reserve@ == old(self).reserve@.remove(0),
            decreases 10 - x,
        {
            let y: u8 = rows[x as usize] as u8;
            self.cards.push(
                PlacedCard {
                    card: set.cards[x as usize],
                    position: GridPosition { x, y },
                    visibility: Visibility::Shown,
                },
            );
            x += 1;
        }
        assert forall|k: int| 0 <= k < COLUMNS implies col_height(before, k) <= LAST_ROW by {
            assert(rows@[k] <= LAST_ROW);
        }
        true
    }
}

/// The first move of a list that starts at `pos` is a move of the list that
/// starts at `pos`, and there is one exactly if some move of the list starts
/// there.
pub proof fn lemma_first_move_from(moves: Seq<(GridPosition, GridPosition)>, pos: GridPosition)
    ensures
        first_move_from(moves, pos) matches Some(m) ==> m.0 == pos && moves.contains(m),
        first_move_from(moves, pos) is None <==> forall|k: int|
            0 <= k < moves.len() ==> (#[trigger] moves[k]).0 != pos,
    decreases moves.len(),
{
    if moves.len() > 0 {
        let rest = moves.drop_first();
        lemma_first_move_from(rest, pos);
        if moves[0].0 != pos && first_move_from(rest, pos) is None {
            assert forall|k: int| 0 <= k < moves.len() implies (#[trigger] moves[k]).0 != pos by {
                if k > 0 {
                    assert(rest[k - 1] == moves[k]);
                }
            }
        }
    }
}

/// An attempt to move from a cell takes a legal move that starts there, and
/// it finds one exactly if some legal move starts there.
pub proof fn lemma_chosen_move(cards: Seq<PlacedCard>, pos: GridPosition)
    ensures
        chosen_move(cards, pos) matches Some(m) ==> m.0 == pos && is_legal(cards, pos, m.1),
        chosen_move(cards, pos) is Some <==> exists|dst: GridPosition| is_legal(cards, pos, dst),
{
    let moves = all_moves(cards);
    lemma_first_move_from(moves, pos);
    if let Some(m) = chosen_move(cards, pos) {
        lemma_all_moves(cards, pos, m.1);
    }
    if exists|dst: GridPosition| is_legal(cards, pos, dst) {
        let dst = choose|dst: GridPosition| is_legal(cards, pos, dst);
        lemma_all_moves(cards, pos, dst);
    }
}

/// The height of a column is the least row beneath all its cards: every card
/// of the column stands in a row above it, and unless it is zero a card of
/// the column stands in the row just above it.
pub proof fn lemma_col_height(cards: Seq<PlacedCard>, c: int)
    ensures
        0 <= col_height(cards, c) <= LAST_ROW + 1,
        forall|i: int|
            0 <= i < cards.len() && (#[trigger] cards[i]).position.x == c ==> cards[i].position.y
                < col_height(cards, c),
        col_height(cards, c) == 0 || exists|i: int|
            0 <= i < cards.len() && (#[trigger] cards[i]).position.x == c && cards[i].position.y
                == col_height(cards, c) - 1,
    decreases cards.len(),
{
    if cards.len() > 0 {
        let front = cards.drop_last();
        lemma_col_height(front, c);
        let h = col_height(front, c);
        let last = cards.last();
        assert forall|i: int| 0 <= i < cards.len() && (#[trigger] cards[i]).position.x
            == c implies cards[i].position.y < col_height(cards, c) by {
            if i < front.len() {
                assert(front[i] == cards[i]);
            }
        }
    }
}

/// While a group is dealt, the columns that already got their card are one
/// row higher and the others are as they were.
pub proof fn lemma_deal_prefix(cards: Seq<PlacedCard>, set: Available, k: int, c: int)
    requires
        0 <= k <= COLUMNS,
        0 <= c < COLUMNS,
        forall|x: int| 0 <= x < COLUMNS ==> col_height(cards, x) <= LAST_ROW,
    ensures
        col_height(cards + dealt_row(cards, set).take(k), c) == col_height(cards, c) + if c < k {
            1int
        } else {
            0int
        },
    decreases k,
{
    let row = dealt_row(cards, set);
    let now = cards + row.take(k);
    if k > 0 {
        lemma_deal_prefix(cards, set, k - 1, c);
        lemma_col_height(cards, k - 1);
        assert(now.drop_last() =~= cards + row.take(k - 1));
    }
}

/// Dealing a group makes each of the ten columns exactly one row higher.
pub proof fn lemma_deal_raises_columns(cards: Seq<PlacedCard>, set: Available, c: int)
    requires
        0 <= c < COLUMNS,
        forall|x: int| 0 <= x < COLUMNS ==> col_height(cards, x) <= LAST_ROW,
    ensures
        col_height(cards + dealt_row(cards, set), c) == col_height(cards, c) + 1,
{
    lemma_deal_prefix(cards, set, COLUMNS as int, c);
    assert(dealt_row(cards, set).take(COLUMNS as int) =~= dealt_row(cards, set));
}

/// At the start every card has a cell of its own within the ten columns and
/// the first six rows; the first 44 cards lie face down, the other ten face
/// up.
pub proof fn lemma_initial_tableau_cells(d: Seq<Card>, k: int, l: int)
    requires
        0 <= k < PLACED_AT_START,
        0 <= l < PLACED_AT_START,
    ensures
        initial_tableau(d).len() == PLACED_AT_START,
        in_columns(initial_tableau(d)),
        initial_tableau(d)[k].card == d[k],
        initial_tableau(d)[k].position.x == k % 10,
        initial_tableau(d)[k].position.y == k / 10,
        initial_tableau(d)[k].position.y <= 5,
        initial_tableau(d)[k].visibility == Visibility::Hidden <==> k < HIDDEN_AT_START,
        k != l ==> initial_tableau(d)[k].position != initial_tableau(d)[l].position,
        cells_distinct(initial_tableau(d)),
{
}

/// Dealing a group keeps every card in a cell of its own: each new card lands
/// beneath all cards of its column.
pub proof fn lemma_deal_keeps_cells_distinct(cards: Seq<PlacedCard>, set: Available)
    requires
        cells_distinct(cards),
        forall|x: int| 0 <= x < COLUMNS ==> col_height(cards, x) <= LAST_ROW,
    ensures
        cells_distinct(cards + dealt_row(cards, set)),
{
    let row = dealt_row(cards, set);
    let now = cards + row;
    assert forall|i: int, j: int| 0 <= i < now.len() && 0 <= j < now.len() && i != j implies (
    #[trigger] now[i]).position != (#[trigger] now[j]).position by {
        if i < cards.len() && j >= cards.len() {
            lemma_col_height(cards, j - cards.len());
        } else if j < cards.len() && i >= cards.len() {
            lemma_col_height(cards, i - cards.len());
        }
    }
}

} // verus!

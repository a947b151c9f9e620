//! What the contract keeps between calls: the pause switch, the stake
//! terms, the pairing slot and the matches.
use vstd::prelude::*;
use crate::board::{standard_cells, valid_cells, Board, Color};

verus! {

/// Number of a match. The first match has number 1.
pub type GameId = usize;

/// The identity of a player: an account address of thirty-two bytes, held
/// as four words, the first of them the most significant.
#[derive(Clone, Copy, PartialEq, Eq, Debug, Structural)]
pub struct Address(pub u64, pub u64, pub u64, pub u64);

/// Where a match stands. Only `Ongoing` can change.
#[derive(Clone, Copy, PartialEq, Eq, Debug, Structural)]
pub enum GameState {
    Ongoing,
    WhiteWon,
    BlackWon,
    Draw,
}

impl GameState {
    pub open spec fn spec_index(self) -> u8 {
        match self {
            GameState::Ongoing => 0,
            GameState::WhiteWon => 1,
            GameState::BlackWon => 2,
            GameState::Draw => 3,
        }
    }

    /// The number a stored match keeps for its state.
    #[verifier::when_used_as_spec(spec_index)]
    pub fn index(self) -> (i: u8)
        ensures
            i == self.spec_index(),
    {
        match self {
            GameState::Ongoing => 0,
            GameState::WhiteWon => 1,
            GameState::BlackWon => 2,
            GameState::Draw => 3,
        }
    }

    /// Inverse of [`GameState::index`]; `None` for a number that names no
    /// state.
    pub fn from_index(i: u8) -> (state: Option<GameState>)
        ensures
            state matches Some(s) ==> s.spec_index() == i,
            state is Some <==> i <= 3,
    {
        if i == 0 {
            Some(GameState::Ongoing)
        } else if i == 1 {
            Some(GameState::WhiteWon)
        } else if i == 2 {
            Some(GameState::BlackWon)
        } else if i == 3 {
            Some(GameState::Draw)
        } else {
            None
        }
    }

    /// The state in which `color` has won.
    pub open spec fn won_by(color: Color) -> GameState {
        match color {
            Color::White => GameState::WhiteWon,
            Color::Black => GameState::BlackWon,
        }
    }
}

/// A match.
#[derive(Clone, Copy, PartialEq, Debug)]
pub struct Game {
    pub game_id: GameId,
    pub white_player: Address,
    pub black_player: Address,
    /// The side to move.
    pub player_turn: Color,
    /// The epoch of the last accepted move, or of the pairing.
    pub last_move_epoch: u64,
    pub state: GameState,
    /// Who has offered a draw that is still pending.
    pub draw_offer: Option<Address>,
    pub board: Board,
}

/// A match as the contracts speak of it: the number is a natural number
/// and the board is its sequence of cells.
pub struct GameView {
    pub game_id: nat,
    pub white_player: Address,
    pub black_player: Address,
    pub player_turn: Color,
    pub last_move_epoch: u64,
    pub state: GameState,
    pub draw_offer: Option<Address>,
    pub board: Seq<u8>,
}

impl GameView {
    /// The player who has the given side.
    pub open spec fn player_of(self, color: Color) -> Address {
        match color {
            Color::White => self.white_player,
            Color::Black => self.black_player,
        }
    }

    /// The player whose turn it is.
    pub open spec fn player_to_move(self) -> Address {
        self.player_of(self.player_turn)
    }

    pub open spec fn is_participant(self, who: Address) -> bool {
        who == self.white_player || who == self.black_player
    }

    /// A match as pairing makes it and the operations keep it: two distinct
    /// players, a board of sixty-four codes, and no draw offer but from one
    /// of the two.
    pub open spec fn wf(self) -> bool {
        &&& self.white_player != self.black_player
        &&& valid_cells(self.board)
        &&& self.draw_offer matches Some(p) ==> self.is_participant(p)
    }

    /// The match that pairing creates.
    pub open spec fn fresh(game_id: nat, white: Address, black: Address, epoch: u64) -> GameView {
        GameView {
            game_id,
            white_player: white,
            black_player: black,
            player_turn: Color::White,
            last_move_epoch: epoch,
            state: GameState::Ongoing,
            draw_offer: None,
            board: standard_cells(),
        }
    }
}

impl View for Game {
    type V = GameView;

    open spec fn view(&self) -> GameView {
        GameView {
            game_id: self.game_id as nat,
            white_player: self.white_player,
            black_player: self.black_player,
            player_turn: self.player_turn,
            last_move_epoch: self.last_move_epoch,
            state: self.state,
            draw_offer: self.draw_offer,
            board: self.board@,
        }
    }
}

impl Game {
    /// A match between `white_player` and `black_player`, paired at
    /// `last_move_epoch`: the standard position, White to move, ongoing, no
    /// draw offered.
    pub fn new(
        game_id: GameId,
        white_player: Address,
        black_player: Address,
        last_move_epoch: u64,
    ) -> (game: Game)
        ensures
            game@ == GameView::fresh(game_id as nat, white_player, black_player, last_move_epoch),
            white_player != black_player ==> game@.wf(),
    {
        Game {
            game_id,
            white_player,
            black_player,
            player_turn: Color::White,
            last_move_epoch,
            state: GameState::Ongoing,
            draw_offer: None,
            board: Board::standard(),
        }
    }
}

/// The state of the contract.
pub struct ChessContract {
    /// While set, every operation of the players is refused.
    pub paused: bool,
    /// Identifier of the token that is staked; empty until it is set.
    pub wager_token_id: Vec<u8>,
    /// The stake, as the big-endian bytes of the amount without leading
    /// zeros; empty until it is set.
    pub wager_amount: Vec<u8>,
    /// The player who waits for an opponent.
    pub waiting: Option<Address>,
    /// The matches; the match with number `n` is at index `n - 1`.
    pub games: Vec<Game>,
}

/// The state of the contract as the contracts speak of it.
pub struct ContractView {
    pub paused: bool,
    pub wager_token_id: Seq<u8>,
    pub wager_amount: Seq<u8>,
    pub waiting: Option<Address>,
    pub games: Seq<GameView>,
}

impl ContractView {
    /// Whether a match has the number `game_id`.
    pub open spec fn has_game(self, game_id: GameId) -> bool {
        1 <= game_id <= self.games.len()
    }

    /// The match with the number `game_id`.
    pub open spec fn game(self, game_id: GameId) -> GameView {
        self.games[game_id - 1]
    }

    /// The state with the match `game_id` replaced.
    pub open spec fn with_game(self, game_id: GameId, game: GameView) -> ContractView {
        ContractView { games: self.games.update(game_id - 1, game), ..self }
    }

    /// Every match carries its own number and is well formed.
    pub open spec fn wf(self) -> bool {
        forall|i: int|
            0 <= i < self.games.len() ==> (#[trigger] self.games[i]).game_id == i + 1
                && self.games[i].wf()
    }
}

impl View for ChessContract {
    type V = ContractView;

    open spec fn view(&self) -> ContractView {
        ContractView {
            paused: self.paused,
            wager_token_id: self.wager_token_id@,
            wager_amount: self.wager_amount@,
            waiting: self.waiting,
            games: self.games@.map_values(|g: Game| g@),
        }
    }
}

impl ChessContract {
    /// The state before deployment: not paused, no stake terms, nobody
    /// waiting, no match.
    pub fn new() -> (contract: ChessContract)
        ensures
            contract@ == (ContractView {
                paused: false,
                wager_token_id: Seq::empty(),
                wager_amount: Seq::empty(),
                waiting: None,
                games: Seq::empty(),
            }),
            contract@.wf(),
    {
        let contract = ChessContract {
            paused: false,
            wager_token_id: Vec::new(),
            wager_amount: Vec::new(),
            waiting: None,
            games: Vec::new(),
        };
        assert(contract@.games =~= Seq::empty());
        contract
    }

    /// The match with the number `game_id`, if there is one.
    pub fn game(&self, game_id: GameId) -> (game: Option<Game>)
        ensures
            game is Some <==> self@.has_game(game_id),
            game matches Some(g) ==> g@ == self@.game(game_id),
    {
        if game_id >= 1 && game_id <= self.games.len() {
            Some(self.games[game_id - 1])
        } else {
            None
        }
    }

    /// The match with the number `game_id`, which exists.
    pub(crate) fn existing_game(&self, game_id: GameId) -> (game: Game)
        requires
            self@.has_game(game_id),
        ensures
            game@ == self@.game(game_id),
    {
        self.games[game_id - 1]
    }

    /// Appends the match that pairs `white` with `black` at `epoch`, and
    /// returns its number. The place is taken first and the number is the
    /// count of matches after that, so that no count is ever too large to
    /// be followed by a number.
    pub(crate) fn add_game(&mut self, white: Address, black: Address, epoch: u64) -> (game_id:
        GameId)
        ensures
            game_id == old(self)@.games.len() + 1,
            final(self)@ == (ContractView {
                games: old(self)@.games.push(
                    GameView::fresh(old(self)@.games.len() + 1, white, black, epoch),
                ),
                ..old(self)@
            }),
    {
        self.games.push(Game::new(0, white, black, epoch));
        let game_id: GameId = self.games.len();
        let mut game = self.games[game_id - 1];
        game.game_id = game_id;
        self.games[game_id - 1] = game;
        assert(self@.games =~= old(self)@.games.push(
            GameView::fresh(old(self)@.games.len() + 1, white, black, epoch),
        ));
        game_id
    }

    /// Puts `game` in the place of the match with the number `game_id`.
    pub(crate) fn replace_game(&mut self, game_id: GameId, game: Game)
        requires
            old(self)@.has_game(game_id),
        ensures
            final(self)@ == old(self)@.with_game(game_id, game@),
    {
        self.games[game_id - 1] = game;
        assert(self@.games =~= old(self)@.games.update(game_id - 1, game@));
    }
}

/// Read access to what the contract keeps.
pub trait OnChainChessScStorage: View<V = ContractView> {
    fn is_paused(&self) -> (paused: bool)
        ensures
            paused == self@.paused,
    ;

    fn wager_token_id(&self) -> (token: &Vec<u8>)
        ensures
            token@ == self@.wager_token_id,
    ;

    fn wager_amount(&self) -> (amount: &Vec<u8>)
        ensures
            amount@ == self@.wager_amount,
    ;

    fn is_player_waiting_opt(&self) -> (waiting: Option<Address>)
        ensures
            waiting == self@.waiting,
    ;

    fn games(&self) -> (games: &Vec<Game>)
        ensures
            games@.map_values(|g: Game| g@) == self@.games,
    ;

    /// The board of the match `game_id`, if there is such a match.
    fn board(&self, game_id: GameId) -> (board: Option<Board>)
        ensures
            board is Some <==> self@.has_game(game_id),
            board matches Some(b) ==> b@ == self@.game(game_id).board,
    ;

    /// The pending draw offer of the match `game_id`; `None` also where
    /// there is no such match.
    fn draw_offer(&self, game_id: GameId) -> (offer: Option<Address>)
        ensures
            offer == (if self@.has_game(game_id) {
                self@.game(game_id).draw_offer
            } else {
                None
            }),
    ;
}

impl OnChainChessScStorage for ChessContract {
    fn is_paused(&self) -> (paused: bool) {
        self.paused
    }

    fn wager_token_id(&self) -> (token: &Vec<u8>) {
        &self.wager_token_id
    }

    fn wager_amount(&self) -> (amount: &Vec<u8>) {
        &self.wager_amount
    }

    fn is_player_waiting_opt(&self) -> (waiting: Option<Address>) {
        self.waiting
    }

    fn games(&self) -> (games: &Vec<Game>) {
        &self.games
    }

    fn board(&self, game_id: GameId) -> (board: Option<Board>) {
        if game_id >= 1 && game_id <= self.games.len() {
            Some(self.games[game_id - 1].board)
        } else {
            None
        }
    }

    fn draw_offer(&self, game_id: GameId) -> (offer: Option<Address>) {
        if game_id >= 1 && game_id <= self.games.len() {
            self.games[game_id - 1].draw_offer
        } else {
            None
        }
    }
}

} // verus!

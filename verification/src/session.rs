//! The session core: the state one peer shares between its interactive side
//! and its reader side, and the decisions both make.
//!
//! A session owns a board, the turn flag, the game-running flag, the
//! app-running flag and the two restart-negotiation flags. The interactive
//! side calls [`SessionState::send_message`], the negotiation operations and
//! [`SessionState::stop`]; the reader side hands every inbound line to
//! [`SessionState::process_received_data_meaning`]. Each operation reports
//! what happened so the surrounding program can print, write to the socket,
//! or shut down; no input and output happens here.
use vstd::prelude::*;

use crate::cli_args_processing::StartOrder;
use crate::playboard::{
    mark_of, place_grid, place_state, GameState, InvalidPlayboardSize, Playboard,
    PlayboardGridOptions,
};
use crate::protocol::{
    agree_command, is_place_command, is_private_message, place_decodable, place_decoded,
    play_again_command, trimmed,
};
use crate::protocol;

verus! {

/// What a placement line did, carrying the one-based coordinates it named
/// where it named any.
#[derive(Copy, Clone, Debug, PartialEq, Eq, Structural)]
pub enum PlaceOutcome {
    /// The line does not fit the placement pattern; nothing was touched.
    Malformed,
    /// The coordinates point outside the board or at an occupied cell;
    /// nothing was touched.
    Invalid { row: usize, col: usize },
    /// The mark was written and the game goes on.
    Placed { row: usize, col: usize },
    /// The mark was written and won the game.
    GameOver { row: usize, col: usize },
    /// The mark was written and filled the board without a win.
    Draw { row: usize, col: usize },
}

/// A placement line that reached the board and was accepted.
pub open spec fn place_outcome_success(oc: PlaceOutcome) -> bool {
    match oc {
        PlaceOutcome::Malformed => false,
        PlaceOutcome::Invalid { .. } => false,
        PlaceOutcome::Placed { .. } => true,
        PlaceOutcome::GameOver { .. } => true,
        PlaceOutcome::Draw { .. } => true,
    }
}

/// What [`place_on_board`] reports for line `s` against grid `g` of side `n`
/// with the mark of `order`: the line must decode, name coordinates within
/// the one-based board, and hit a free cell; the outcome of an accepted
/// write is the board engine's.
pub open spec fn place_msg_outcome(
    s: Seq<u8>,
    g: Seq<PlayboardGridOptions>,
    n: int,
    order: StartOrder,
) -> PlaceOutcome {
    if !place_decodable(s) {
        PlaceOutcome::Malformed
    } else {
        let rc = place_decoded(s)->Some_0;
        if rc.0 == 0 || rc.1 == 0 {
            PlaceOutcome::Invalid { row: rc.0 as usize, col: rc.1 as usize }
        } else {
            match place_state(g, n, rc.0 - 1, rc.1 - 1, mark_of(order)) {
                GameState::InvalidPlace => PlaceOutcome::Invalid {
                    row: rc.0 as usize,
                    col: rc.1 as usize,
                },
                GameState::Placed => PlaceOutcome::Placed {
                    row: rc.0 as usize,
                    col: rc.1 as usize,
                },
                GameState::GameOver => PlaceOutcome::GameOver {
                    row: rc.0 as usize,
                    col: rc.1 as usize,
                },
                GameState::Draw => PlaceOutcome::Draw { row: rc.0 as usize, col: rc.1 as usize },
            }
        }
    }
}

/// The grid after [`place_on_board`] on line `s`: written only by an
/// accepted placement.
pub open spec fn place_msg_grid(
    s: Seq<u8>,
    g: Seq<PlayboardGridOptions>,
    n: int,
    order: StartOrder,
) -> Seq<PlayboardGridOptions> {
    if !place_decodable(s) {
        g
    } else {
        let rc = place_decoded(s)->Some_0;
        if rc.0 == 0 || rc.1 == 0 {
            g
        } else {
            place_grid(g, n, rc.0 - 1, rc.1 - 1, mark_of(order))
        }
    }
}

/// The game-running flag after [`place_on_board`] on line `s`: cleared the
/// instant a placement ends the game, kept otherwise.
pub open spec fn place_msg_run_game(
    s: Seq<u8>,
    g: Seq<PlayboardGridOptions>,
    n: int,
    order: StartOrder,
    run_game: bool,
) -> bool {
    match place_msg_outcome(s, g, n, order) {
        PlaceOutcome::GameOver { .. } => false,
        PlaceOutcome::Draw { .. } => false,
        _ => run_game,
    }
}

/// The mark the peer plays: the order opposite to this session's own.
pub open spec fn opposite_order(start_order: StartOrder) -> StartOrder {
    match start_order {
        StartOrder::First => StartOrder::Second,
        StartOrder::Second => StartOrder::First,
    }
}

/// The start order of the peer on the other end of the connection.
pub fn get_oponent_start_order(start_order: StartOrder) -> (r: StartOrder)
    ensures
        r == opposite_order(start_order),
{
    match start_order {
        StartOrder::First => StartOrder::Second,
        _ => StartOrder::First,
    }
}

/// True when the outcome is an accepted placement.
pub fn check_place_outcome_success(oc: &PlaceOutcome) -> (r: bool)
    ensures
        r == place_outcome_success(*oc),
{
    match oc {
        PlaceOutcome::Placed { .. } => true,
        PlaceOutcome::GameOver { .. } => true,
        PlaceOutcome::Draw { .. } => true,
        _ => false,
    }
}

/// Decodes a placement line and drives it through the board engine: a line
/// that does not decode, or names a coordinate outside the one-based board,
/// or hits an occupied cell, changes nothing; an accepted write that ends
/// the game clears the game-running flag.
pub fn place_on_board(
    data: &[u8],
    playboard: &mut Playboard,
    run_game: &mut bool,
    start_order: StartOrder,
) -> (r: PlaceOutcome)
    requires
        old(playboard).well_formed(),
    ensures
        final(playboard).well_formed(),
        final(playboard).n() == old(playboard).n(),
        final(playboard).grid_view() == place_msg_grid(
            data@,
            old(playboard).grid_view(),
            old(playboard).n(),
            start_order,
        ),
        *final(run_game) == place_msg_run_game(
            data@,
            old(playboard).grid_view(),
            old(playboard).n(),
            start_order,
            *old(run_game),
        ),
        r == place_msg_outcome(data@, old(playboard).grid_view(), old(playboard).n(), start_order),
{
    proof {
        protocol::lemma_place_decoded_nonneg(data@);
    }
    match protocol::decode_place(data) {
        None => PlaceOutcome::Malformed,
        Some((row, col)) => {
            if row == 0 || col == 0 {
                PlaceOutcome::Invalid { row, col }
            } else {
                let game_state = playboard.place_on_grid(row - 1, col - 1, start_order);
                match game_state {
                    GameState::InvalidPlace => PlaceOutcome::Invalid { row, col },
                    GameState::Placed => PlaceOutcome::Placed { row, col },
                    GameState::GameOver => {
                        *run_game = false;
                        PlaceOutcome::GameOver { row, col }
                    },
                    GameState::Draw => {
                        *run_game = false;
                        PlaceOutcome::Draw { row, col }
                    },
                }
            }
        },
    }
}

/// Executes a restart that both peers have settled on: every cell freed, the
/// game running again, both negotiation flags cleared together.
pub fn restart_game(
    playboard: &mut Playboard,
    run_game: &mut bool,
    new_game_req: &mut bool,
    new_game_desirable: &mut bool,
)
    requires
        old(playboard).well_formed(),
    ensures
        final(playboard).well_formed(),
        final(playboard).n() == old(playboard).n(),
        final(playboard).grid_view() =~= Seq::new(
            old(playboard).grid_view().len(),
            |i: int| PlayboardGridOptions::Free,
        ),
        *final(run_game),
        !*final(new_game_req),
        !*final(new_game_desirable),
{
    playboard.clear_board();
    *run_game = true;
    *new_game_req = false;
    *new_game_desirable = false;
}

/// What the interactive side's send decided.
#[derive(Copy, Clone, Debug, PartialEq, Eq, Structural)]
pub enum SendOutcome {
    /// A placement line while no game is running: nothing written, nothing
    /// changed.
    RejectedGameFinished,
    /// A placement line out of turn: nothing written, nothing changed.
    RejectedNotYourTurn,
    /// A placement line that went to the board; the line goes to the peer
    /// whatever the board said.
    SentPlace(PlaceOutcome),
    /// Any other line; it goes to the peer unchanged.
    Sent,
}

/// A send outcome after which the line is written to the socket.
pub open spec fn send_outcome_forwards(r: SendOutcome) -> bool {
    match r {
        SendOutcome::RejectedGameFinished => false,
        SendOutcome::RejectedNotYourTurn => false,
        SendOutcome::SentPlace(_) => true,
        SendOutcome::Sent => true,
    }
}

/// What the agreement operation decided.
#[derive(Copy, Clone, Debug, PartialEq, Eq, Structural)]
pub enum AgreeOutcome {
    /// No restart request is pending from the peer: the agreement is a
    /// silent no-op and nothing is written.
    Ignored,
    /// The pending request was executed; the agreement line goes to the
    /// peer.
    Restarted,
}

/// What the reader side found in one inbound line.
#[derive(Debug, PartialEq, Eq)]
pub enum ReceivedOutcome {
    /// A private message; the payload follows the prefix and is shown.
    PrivateMessage(Vec<u8>),
    /// A placement by the peer, driven through the board engine.
    RemotePlace(PlaceOutcome),
    /// The peer asks to restart; the request is now pending.
    RestartRequested,
    /// The peer accepted this session's restart offer; the restart ran.
    RestartAgreed,
    /// Anything else is ignored.
    Ignored,
}

/// The state one session shares between its two sides.
pub struct SessionState {
    playboard: Playboard,
    start_order: StartOrder,
    run_app: bool,
    run_game: bool,
    my_turn: bool,
    new_game_requested_by_peer: bool,
    new_game_offered_by_me: bool,
}

impl SessionState {
    /// The grid, row-major.
    pub closed spec fn board(&self) -> Seq<PlayboardGridOptions> {
        self.playboard.grid_view()
    }

    /// The board's side length.
    pub closed spec fn board_n(&self) -> int {
        self.playboard.n()
    }

    /// The board invariant holds.
    pub closed spec fn board_ok(&self) -> bool {
        self.playboard.well_formed()
    }

    /// This session's fixed start order.
    pub closed spec fn order(&self) -> StartOrder {
        self.start_order
    }

    /// The reader side keeps polling while this holds.
    pub closed spec fn running_app(&self) -> bool {
        self.run_app
    }

    /// Placements are accepted while this holds.
    pub closed spec fn running_game(&self) -> bool {
        self.run_game
    }

    /// True exactly when it is this session's turn to place.
    pub closed spec fn my_turn_now(&self) -> bool {
        self.my_turn
    }

    /// The peer has asked to restart and the request is pending.
    pub closed spec fn requested_by_peer(&self) -> bool {
        self.new_game_requested_by_peer
    }

    /// This session has asked the peer to restart.
    pub closed spec fn offered_by_me(&self) -> bool {
        self.new_game_offered_by_me
    }

    /// A fresh session over a fresh board: game running, reader running,
    /// negotiation clear, and the turn with the first player.
    pub fn new(row_col_size: usize, start_order: StartOrder) -> (r: Result<
        SessionState,
        InvalidPlayboardSize,
    >)
        ensures
            r is Ok <==> (3 <= row_col_size && row_col_size % 2 == 1 && row_col_size
                * row_col_size <= usize::MAX),
            r matches Ok(s) ==> {
                &&& s.board_ok()
                &&& s.board_n() == row_col_size
                &&& s.board() =~= Seq::new(
                    (row_col_size * row_col_size) as nat,
                    |i: int| PlayboardGridOptions::Free,
                )
                &&& s.order() == start_order
                &&& s.running_app()
                &&& s.running_game()
                &&& s.my_turn_now() == (start_order == StartOrder::First)
                &&& !s.requested_by_peer()
                &&& !s.offered_by_me()
            },
    {
        let playboard = match Playboard::new(row_col_size) {
            Ok(b) => b,
            Err(e) => {
                return Err(e);
            },
        };
        let my_turn = match start_order {
            StartOrder::First => true,
            StartOrder::Second => false,
        };
        Ok(
            SessionState {
                playboard,
                start_order,
                run_app: true,
                run_game: true,
                my_turn,
                new_game_requested_by_peer: false,
                new_game_offered_by_me: false,
            },
        )
    }

    /// The interactive side sends a line. A placement line is refused
    /// without a write while no game runs or while it is not this session's
    /// turn; otherwise it goes through the board engine, an accepted
    /// placement hands the turn to the peer, and the line goes out whatever
    /// the board said. Every other line goes out untouched.
    pub fn send_message(&mut self, msg: &[u8]) -> (r: SendOutcome)
        requires
            old(self).board_ok(),
        ensures
            final(self).board_ok(),
            final(self).board_n() == old(self).board_n(),
            final(self).order() == old(self).order(),
            final(self).running_app() == old(self).running_app(),
            final(self).requested_by_peer() == old(self).requested_by_peer(),
            final(self).offered_by_me() == old(self).offered_by_me(),
            !is_place_command(msg@) ==> r == SendOutcome::Sent && final(self).board() == old(self).board() && final(self).running_game() == old(self).running_game() && final(self).my_turn_now() == old(self).my_turn_now(),
            is_place_command(msg@) && !old(self).running_game() ==> r
                == SendOutcome::RejectedGameFinished && final(self).board() == old(self).board()
                && final(self).running_game() == old(self).running_game() && final(self).my_turn_now() == old(self).my_turn_now(),
            is_place_command(msg@) && old(self).running_game() && !old(self).my_turn_now() ==> r
                == SendOutcome::RejectedNotYourTurn && final(self).board() == old(self).board()
                && final(self).running_game() == old(self).running_game() && final(self).my_turn_now() == old(self).my_turn_now(),
            is_place_command(msg@) && old(self).running_game() && old(self).my_turn_now() ==> ({
                let oc = place_msg_outcome(
                    msg@,
                    old(self).board(),
                    old(self).board_n(),
                    old(self).order(),
                );
                &&& r == SendOutcome::SentPlace(oc)
                &&& final(self).board() == place_msg_grid(
                    msg@,
                    old(self).board(),
                    old(self).board_n(),
                    old(self).order(),
                )
                &&& final(self).running_game() == place_msg_run_game(
                    msg@,
                    old(self).board(),
                    old(self).board_n(),
                    old(self).order(),
                    old(self).running_game(),
                )
                &&& final(self).my_turn_now() == !place_outcome_success(oc)
            }),
    {
        if protocol::check_place_command(msg) {
            if !self.run_game {
                return SendOutcome::RejectedGameFinished;
            }
            if !self.my_turn {
                return SendOutcome::RejectedNotYourTurn;
            }
            let oc = place_on_board(
                msg,
                &mut self.playboard,
                &mut self.run_game,
                self.start_order,
            );
            if check_place_outcome_success(&oc) {
                self.my_turn = false;
            }
            SendOutcome::SentPlace(oc)
        } else {
            SendOutcome::Sent
        }
    }

    /// The interactive side offers the peer a new game: the offer flag goes
    /// up and the line goes out; nothing else moves.
    pub fn new_game_request(&mut self, msg: &[u8]) -> (r: SendOutcome)
        requires
            old(self).board_ok(),
            !is_place_command(msg@),
        ensures
            final(self).board_ok(),
            final(self).board_n() == old(self).board_n(),
            final(self).order() == old(self).order(),
            final(self).board() == old(self).board(),
            final(self).running_app() == old(self).running_app(),
            final(self).running_game() == old(self).running_game(),
            final(self).my_turn_now() == old(self).my_turn_now(),
            final(self).requested_by_peer() == old(self).requested_by_peer(),
            final(self).offered_by_me(),
            r == SendOutcome::Sent,
    {
        self.new_game_offered_by_me = true;
        self.send_message(msg)
    }

    /// The interactive side agrees to a restart. Without a pending request
    /// from the peer this is a silent no-op: nothing changes and nothing is
    /// written. With one pending, the board is cleared, the game runs again,
    /// both negotiation flags fall together, and the agreement line goes
    /// out.
    pub fn new_game_agreement(&mut self, msg: &[u8]) -> (r: AgreeOutcome)
        requires
            old(self).board_ok(),
            !is_place_command(msg@),
        ensures
            final(self).board_ok(),
            final(self).board_n() == old(self).board_n(),
            final(self).order() == old(self).order(),
            final(self).running_app() == old(self).running_app(),
            final(self).my_turn_now() == old(self).my_turn_now(),
            !old(self).requested_by_peer() ==> r == AgreeOutcome::Ignored && final(self).board()
                == old(self).board() && final(self).running_game() == old(self).running_game()
                && final(self).requested_by_peer() == old(self).requested_by_peer() && final(self).offered_by_me() == old(self).offered_by_me(),
            old(self).requested_by_peer() ==> {
                &&& r == AgreeOutcome::Restarted
                &&& final(self).board() =~= Seq::new(
                    old(self).board().len(),
                    |i: int| PlayboardGridOptions::Free,
                )
                &&& final(self).running_game()
                &&& !final(self).requested_by_peer()
                &&& !final(self).offered_by_me()
            },
    {
        if self.new_game_requested_by_peer {
            restart_game(
                &mut self.playboard,
                &mut self.run_game,
                &mut self.new_game_requested_by_peer,
                &mut self.new_game_offered_by_me,
            );
            AgreeOutcome::Restarted
        } else {
            AgreeOutcome::Ignored
        }
    }

    /// The reader side dispatches one inbound line, trimmed first. A private
    /// message only reports its payload; a placement line goes through the
    /// board engine with the peer's mark and an accepted placement hands the
    /// turn to this session; the restart-request literal raises the pending
    /// flag; the agreement literal executes the restart, but only while this
    /// session's own offer stands; anything else is ignored.
    pub fn process_received_data_meaning(&mut self, data: &[u8]) -> (r: ReceivedOutcome)
        requires
            old(self).board_ok(),
        ensures
            final(self).board_ok(),
            final(self).board_n() == old(self).board_n(),
            final(self).order() == old(self).order(),
            final(self).running_app() == old(self).running_app(),
            is_private_message(trimmed(data@)) ==> final(self).board() == old(self).board()
                && final(self).running_game() == old(self).running_game() && final(self).my_turn_now() == old(self).my_turn_now() && final(self).requested_by_peer() == old(self).requested_by_peer() && final(self).offered_by_me() == old(self).offered_by_me() && (
            r matches ReceivedOutcome::PrivateMessage(p) && p@ == trimmed(data@).subrange(
                1,
                trimmed(data@).len() as int,
            )),
            !is_private_message(trimmed(data@)) && is_place_command(trimmed(data@)) ==> ({
                let oc = place_msg_outcome(
                    trimmed(data@),
                    old(self).board(),
                    old(self).board_n(),
                    opposite_order(old(self).order()),
                );
                &&& r == ReceivedOutcome::RemotePlace(oc)
                &&& final(self).board() == place_msg_grid(
                    trimmed(data@),
                    old(self).board(),
                    old(self).board_n(),
                    opposite_order(old(self).order()),
                )
                &&& final(self).running_game() == place_msg_run_game(
                    trimmed(data@),
                    old(self).board(),
                    old(self).board_n(),
                    opposite_order(old(self).order()),
                    old(self).running_game(),
                )
                &&& final(self).my_turn_now() == (place_outcome_success(oc) || old(self).my_turn_now())
                &&& final(self).requested_by_peer() == old(self).requested_by_peer()
                &&& final(self).offered_by_me() == old(self).offered_by_me()
            }),
            !is_private_message(trimmed(data@)) && !is_place_command(trimmed(data@)) && trimmed(
                data@,
            ) == play_again_command() ==> final(self).board() == old(self).board() && final(self).running_game() == old(self).running_game() && final(self).my_turn_now() == old(self).my_turn_now() && final(self).requested_by_peer() && final(self).offered_by_me()
                == old(self).offered_by_me() && r == ReceivedOutcome::RestartRequested,
            !is_private_message(trimmed(data@)) && !is_place_command(trimmed(data@)) && trimmed(
                data@,
            ) != play_again_command() && trimmed(data@) == agree_command() && old(self).offered_by_me() ==> {
                &&& final(self).board() =~= Seq::new(
                    old(self).board().len(),
                    |i: int| PlayboardGridOptions::Free,
                )
                &&& final(self).running_game()
                &&& final(self).my_turn_now() == old(self).my_turn_now()
                &&& !final(self).requested_by_peer()
                &&& !final(self).offered_by_me()
                &&& r == ReceivedOutcome::RestartAgreed
            },
            !is_private_message(trimmed(data@)) && !is_place_command(trimmed(data@)) && trimmed(
                data@,
            ) != play_again_command() && !(trimmed(data@) == agree_command() && old(self).offered_by_me()) ==> final(self).board() == old(self).board() && final(self).running_game() == old(self).running_game() && final(self).my_turn_now() == old(self).my_turn_now() && final(self).requested_by_peer() == old(self).requested_by_peer()
                && final(self).offered_by_me() == old(self).offered_by_me() && r
                == ReceivedOutcome::Ignored,
    {
        let line = protocol::trim_line(data);
        if protocol::check_private_message(line.as_slice()) {
            let mut payload: Vec<u8> = Vec::new();
            let len: usize = line.len();
            let mut i: usize = 1;
            while i < len
                invariant
                    1 <= i <= len,
                    len == line@.len(),
                    payload@.len() == i - 1,
                    forall|j: int| 0 <= j < i - 1 ==> payload@[j] == line@[1 + j],
                decreases len - i,
            {
                payload.push(line[i]);
                i += 1;
            }
            proof {
                assert(payload@ =~= line@.subrange(1, line@.len() as int));
            }
            ReceivedOutcome::PrivateMessage(payload)
        } else if protocol::check_place_command(line.as_slice()) {
            let opponent = get_oponent_start_order(self.start_order);
            let oc = place_on_board(
                line.as_slice(),
                &mut self.playboard,
                &mut self.run_game,
                opponent,
            );
            if check_place_outcome_success(&oc) {
                self.my_turn = true;
            }
            ReceivedOutcome::RemotePlace(oc)
        } else if protocol::check_play_again(line.as_slice()) {
            self.new_game_requested_by_peer = true;
            ReceivedOutcome::RestartRequested
        } else if protocol::check_agree(line.as_slice()) {
            if self.new_game_offered_by_me {
                restart_game(
                    &mut self.playboard,
                    &mut self.run_game,
                    &mut self.new_game_requested_by_peer,
                    &mut self.new_game_offered_by_me,
                );
                ReceivedOutcome::RestartAgreed
            } else {
                ReceivedOutcome::Ignored
            }
        } else {
            ReceivedOutcome::Ignored
        }
    }

    /// The interactive side shuts the session down: the reader side's flag
    /// falls; everything else stands.
    pub fn stop(&mut self)
        ensures
            !final(self).running_app(),
            final(self).board_ok() == old(self).board_ok(),
            final(self).board() == old(self).board(),
            final(self).board_n() == old(self).board_n(),
            final(self).order() == old(self).order(),
            final(self).running_game() == old(self).running_game(),
            final(self).my_turn_now() == old(self).my_turn_now(),
            final(self).requested_by_peer() == old(self).requested_by_peer(),
            final(self).offered_by_me() == old(self).offered_by_me(),
    {
        self.run_app = false;
    }

    /// The reader side keeps polling while this holds.
    pub fn is_app_running(&self) -> (r: bool)
        ensures
            r == self.running_app(),
    {
        self.run_app
    }

    /// Placements are accepted while this holds.
    pub fn is_game_running(&self) -> (r: bool)
        ensures
            r == self.running_game(),
    {
        self.run_game
    }

    /// True exactly when it is this session's turn to place.
    pub fn is_my_turn(&self) -> (r: bool)
        ensures
            r == self.my_turn_now(),
    {
        self.my_turn
    }

    /// The peer's restart request is pending.
    pub fn is_new_game_requested_by_peer(&self) -> (r: bool)
        ensures
            r == self.requested_by_peer(),
    {
        self.new_game_requested_by_peer
    }

    /// This session's restart offer stands.
    pub fn is_new_game_offered_by_me(&self) -> (r: bool)
        ensures
            r == self.offered_by_me(),
    {
        self.new_game_offered_by_me
    }

    /// This session's fixed start order.
    pub fn get_start_order(&self) -> (r: StartOrder)
        ensures
            r == self.order(),
    {
        self.start_order
    }

    /// The board's side length.
    pub fn board_side(&self) -> (r: usize)
        ensures
            r == self.board_n(),
    {
        self.playboard.get_row_col_size()
    }

    /// A copy of the grid, row-major: the read-only snapshot handed to
    /// rendering.
    pub fn board_snapshot(&self) -> (r: Vec<PlayboardGridOptions>)
        ensures
            r@ == self.board(),
    {
        self.playboard.grid_snapshot()
    }
}

} // verus!

//! An exact model of the persisted rows and of every way the service
//! changes them.
//!
//! [`GameStore`] holds the game, participant and resend-audit rows the
//! way the database does, keeps the data-model invariant [`store_wf`],
//! and exposes the service's operations as verified state transitions.
//! The production deployment keeps the same rows in a relational
//! database; this model is the specification those SQL statements are
//! written against, and the draw coordinator's laws are proved over it.

use vstd::prelude::*;
use vstd::seq_lib::group_seq_properties;
use crate::error::ApiError;
use crate::matching::{
    generate_matches, pair_views, participant_ids, receivers, valid_matching,
};
use crate::models::{Game, Participant, ResendRecord, RevealResponse};
use crate::verification::EmailVerification;
use crate::strutil::{lex_lt, str_eq, str_lt};

verus! {

/// The most participants a game may hold, to prevent abuse.
pub const MAX_PARTICIPANTS_PER_GAME: usize = 100;

/// How many days after its event date a game is kept before the
/// cleanup may delete it.
pub const GAME_RETENTION_DAYS: u64 = 90;

/// The identifiers of a list of games, in order.
pub open spec fn game_ids(gs: Seq<Game>) -> Seq<Seq<char>> {
    gs.map_values(|g: Game| g.id@)
}

/// The view tokens of a list of participants, in order.
pub open spec fn view_tokens(ps: Seq<Participant>) -> Seq<Seq<char>> {
    ps.map_values(|p: Participant| p.view_token@)
}

/// Some game in `gs` carries the identifier `id`.
pub open spec fn has_game(gs: Seq<Game>, id: Seq<char>) -> bool {
    exists|k: int| 0 <= k < gs.len() && (#[trigger] gs[k]).id@ == id
}

/// Some game in `gs` carries the identifier `id` and is drawn.  Under
/// unique identifiers this says: the game `id` exists and is drawn.
pub open spec fn game_drawn(gs: Seq<Game>, id: Seq<char>) -> bool {
    exists|k: int| 0 <= k < gs.len() && (#[trigger] gs[k]).id@ == id && gs[k].drawn
}

/// Some participant in `ps` carries the identifier `pid` and belongs to
/// the game `gid`.
pub open spec fn participant_in_game(ps: Seq<Participant>, pid: Seq<char>, gid: Seq<char>) -> bool {
    exists|k: int|
        0 <= k < ps.len() && (#[trigger] ps[k]).id@ == pid && ps[k].game_id@ == gid
}

/// Inserting `p` would violate a uniqueness constraint: some row of
/// `ps` already carries its identifier or its view token.
pub open spec fn participant_conflicts(ps: Seq<Participant>, p: Participant) -> bool {
    exists|j: int|
        0 <= j < ps.len() && ((#[trigger] ps[j]).id@ == p.id@ || ps[j].view_token@
            == p.view_token@)
}

/// The predicate "belongs to the game `gid`", as a function value, so
/// that proofs about filtering can name the exact predicate the
/// specification uses.
pub open spec fn in_game(gid: Seq<char>) -> spec_fn(Participant) -> bool {
    |p: Participant| p.game_id@ == gid
}

/// The participants of the game `gid`, in creation order.
pub open spec fn spec_participants_of(ps: Seq<Participant>, gid: Seq<char>) -> Seq<Participant> {
    ps.filter(in_game(gid))
}

/// `ng` is `og` with the drawn flag set and every other field unchanged.
pub open spec fn drawn_version(ng: Game, og: Game) -> bool {
    &&& ng.id == og.id
    &&& ng.name == og.name
    &&& ng.event_date == og.event_date
    &&& ng.organizer_email == og.organizer_email
    &&& ng.admin_token == og.admin_token
    &&& ng.created_at == og.created_at
    &&& ng.drawn
}

/// `np` is `op` with the recipient that the assignment `mv` pairs with
/// `op`'s identifier written into `matched_with_id`, and every other
/// field unchanged.
pub open spec fn updated_with(
    np: Participant,
    op: Participant,
    mv: Seq<(Seq<char>, Seq<char>)>,
) -> bool {
    &&& np.id == op.id
    &&& np.game_id == op.game_id
    &&& np.name == op.name
    &&& np.email == op.email
    &&& np.view_token == op.view_token
    &&& np.has_viewed == op.has_viewed
    &&& np.created_at == op.created_at
    &&& np.matched_with_id matches Some(x) && exists|i: int|
        0 <= i < mv.len() && (#[trigger] mv[i]).0 == op.id@ && x@ == mv[i].1
}

/// The transition a successful draw of `gid` makes: the game's drawn
/// flag is set, its participants receive their assigned recipients from
/// `mv`, and every other row is untouched.
pub open spec fn draw_applied(
    pre: GameStore,
    post: GameStore,
    gid: Seq<char>,
    mv: Seq<(Seq<char>, Seq<char>)>,
) -> bool {
    let ogs = pre.games_seq();
    let ngs = post.games_seq();
    let ops = pre.participants_seq();
    let nps = post.participants_seq();
    &&& ngs.len() == ogs.len()
    &&& forall|k: int|
        0 <= k < ogs.len() && (#[trigger] ogs[k]).id@ != gid ==> ngs[k] == ogs[k]
    &&& forall|k: int|
        0 <= k < ogs.len() && (#[trigger] ogs[k]).id@ == gid ==> drawn_version(ngs[k], ogs[k])
    &&& nps.len() == ops.len()
    &&& forall|k: int|
        0 <= k < ops.len() && (#[trigger] ops[k]).game_id@ != gid ==> nps[k] == ops[k]
    &&& forall|k: int|
        0 <= k < ops.len() && (#[trigger] ops[k]).game_id@ == gid ==> updated_with(
            nps[k],
            ops[k],
            mv,
        )
    &&& post.resends_seq() == pre.resends_seq()
    &&& post.verifications_seq() == pre.verifications_seq()
}

/// The data-model invariant over the rows:
/// identifiers and view tokens are unique, every participant belongs to
/// an existing game, a participant holds an assigned recipient exactly
/// when its game is drawn, and an assigned recipient is a different
/// participant of the same game.
pub open spec fn store_wf(gs: Seq<Game>, ps: Seq<Participant>) -> bool {
    &&& game_ids(gs).no_duplicates()
    &&& participant_ids(ps).no_duplicates()
    &&& view_tokens(ps).no_duplicates()
    &&& forall|k: int| 0 <= k < ps.len() ==> has_game(gs, (#[trigger] ps[k]).game_id@)
    &&& forall|k: int|
        0 <= k < ps.len() ==> ((#[trigger] ps[k]).matched_with_id is Some <==> game_drawn(
            gs,
            ps[k].game_id@,
        ))
    &&& forall|k: int|
        0 <= k < ps.len() ==> ((#[trigger] ps[k]).matched_with_id matches Some(m) ==> m@
            != ps[k].id@ && participant_in_game(ps, m@, ps[k].game_id@))
}

/// The rows of the service, as the database holds them.
#[derive(Debug)]
pub struct GameStore {
    games: Vec<Game>,
    participants: Vec<Participant>,
    resends: Vec<ResendRecord>,
    verifications: Vec<EmailVerification>,
}

impl GameStore {
    /// The game rows, in creation order.
    pub closed spec fn games_seq(&self) -> Seq<Game> {
        self.games@
    }

    /// The participant rows, in creation order.
    pub closed spec fn participants_seq(&self) -> Seq<Participant> {
        self.participants@
    }

    /// The resend-audit rows, in creation order.
    pub closed spec fn resends_seq(&self) -> Seq<ResendRecord> {
        self.resends@
    }

    /// The email verification rows, in creation order.
    pub closed spec fn verifications_seq(&self) -> Seq<EmailVerification> {
        self.verifications@
    }

    /// The data-model invariant, over this store's rows.
    pub open spec fn wf(&self) -> bool {
        store_wf(self.games_seq(), self.participants_seq())
    }

    /// An empty store.
    pub fn new() -> (s: GameStore)
        ensures
            s.wf(),
            s.games_seq() == Seq::<Game>::empty(),
            s.participants_seq() == Seq::<Participant>::empty(),
            s.resends_seq() == Seq::<ResendRecord>::empty(),
            s.verifications_seq() == Seq::<EmailVerification>::empty(),
    {
        let s = GameStore {
            games: Vec::new(),
            participants: Vec::new(),
            resends: Vec::new(),
            verifications: Vec::new(),
        };
        proof {
            assert(game_ids(s.games@) =~= Seq::<Seq<char>>::empty());
            assert(participant_ids(s.participants@) =~= Seq::<Seq<char>>::empty());
            assert(view_tokens(s.participants@) =~= Seq::<Seq<char>>::empty());
        }
        s
    }

    /// Insert a new game row.  Refused only when the identifier is
    /// already taken, which the database surfaces as a constraint
    /// violation.
    pub fn create_game(&mut self, game: &Game) -> (r: Result<(), ApiError>)
        requires
            old(self).wf(),
        ensures
            final(self).wf(),
            r matches Ok(()) <==> !has_game(old(self).games_seq(), game.id@),
            r matches Ok(()) ==> final(self).games_seq() == old(self).games_seq().push(*game),
            r matches Err(e) ==> e == ApiError::PersistenceFailure && *final(self) == *old(self),
            final(self).participants_seq() == old(self).participants_seq(),
            final(self).resends_seq() == old(self).resends_seq(),
            final(self).verifications_seq() == old(self).verifications_seq(),
    {
        if find_game_index(&self.games, game.id.as_str()).is_some() {
            return Err(ApiError::PersistenceFailure);
        }
        proof {
            broadcast use group_seq_properties;

            let ogs = self.games@;
            assert(game_ids(ogs.push(*game)) =~= game_ids(ogs).push(game.id@));
            assert(!game_ids(ogs).contains(game.id@)) by {
                assert forall|k: int| 0 <= k < ogs.len() implies game_ids(ogs)[k] != game.id@ by {
                    assert(ogs[k].id@ != game.id@);
                }
            }
            assert forall|k: int|
                0 <= k < self.participants@.len() implies ((#[trigger] self.participants@[k]).matched_with_id
                is Some <==> game_drawn(ogs.push(*game), self.participants@[k].game_id@)) by {
                let p = self.participants@[k];
                assert(has_game(ogs, p.game_id@));
                let w = choose|j: int| 0 <= j < ogs.len() && (#[trigger] ogs[j]).id@ == p.game_id@;
                assert(ogs[w].id@ == p.game_id@);
                assert(p.game_id@ != game.id@);
                if game_drawn(ogs.push(*game), p.game_id@) {
                    let j = choose|j: int|
                        0 <= j < ogs.push(*game).len() && (#[trigger] ogs.push(*game)[j]).id@
                            == p.game_id@ && ogs.push(*game)[j].drawn;
                    assert(j < ogs.len());
                    assert(game_drawn(ogs, p.game_id@));
                }
                if game_drawn(ogs, p.game_id@) {
                    let j = choose|j: int|
                        0 <= j < ogs.len() && (#[trigger] ogs[j]).id@ == p.game_id@ && ogs[j].drawn;
                    assert(ogs.push(*game)[j] == ogs[j]);
                    assert(game_drawn(ogs.push(*game), p.game_id@));
                }
            }
            assert forall|k: int|
                0 <= k < self.participants@.len() implies has_game(
                ogs.push(*game),
                (#[trigger] self.participants@[k]).game_id@,
            ) by {
                let p = self.participants@[k];
                let j = choose|j: int| 0 <= j < ogs.len() && (#[trigger] ogs[j]).id@ == p.game_id@;
                assert(ogs.push(*game)[j] == ogs[j]);
            }
        }
        self.games.push(game.duplicate());
        Ok(())
    }

    /// Look a game up by its identifier.
    pub fn get_game_by_id(&self, game_id: &str) -> (r: Option<Game>)
        requires
            self.wf(),
        ensures
            match r {
                Some(g) => exists|k: int|
                    0 <= k < self.games_seq().len() && #[trigger] self.games_seq()[k] == g
                        && g.id@ == game_id@,
                None => !has_game(self.games_seq(), game_id@),
            },
    {
        match find_game_index(&self.games, game_id) {
            Some(k) => Some(self.games[k].duplicate()),
            None => None,
        }
    }

    /// Look a game up by its admin token.  Under unique tokens this is
    /// how the organizer authenticates.
    pub fn get_game_by_admin_token(&self, admin_token: &str) -> (r: Option<Game>)
        requires
            self.wf(),
        ensures
            match r {
                Some(g) => exists|k: int|
                    0 <= k < self.games_seq().len() && #[trigger] self.games_seq()[k] == g
                        && g.admin_token@ == admin_token@,
                None => forall|k: int|
                    0 <= k < self.games_seq().len() ==> (#[trigger] self.games_seq()[k]).admin_token@
                        != admin_token@,
            },
    {
        let n = self.games.len();
        for k in 0..n
            invariant
                n == self.games@.len(),
                forall|j: int| 0 <= j < k ==> (#[trigger] self.games@[j]).admin_token@ != admin_token@,
        {
            if str_eq(self.games[k].admin_token.as_str(), admin_token) {
                let g = self.games[k].duplicate();
                proof {
                    assert(self.games_seq()[k as int] == g);
                }
                return Some(g);
            }
        }
        None
    }

    /// Look a participant up by its identifier.
    pub fn get_participant_by_id(&self, participant_id: &str) -> (r: Option<Participant>)
        requires
            self.wf(),
        ensures
            match r {
                Some(p) => exists|k: int|
                    0 <= k < self.participants_seq().len() && #[trigger] self.participants_seq()[k]
                        == p && p.id@ == participant_id@,
                None => forall|k: int|
                    0 <= k < self.participants_seq().len() ==> (#[trigger] self.participants_seq()[k]).id@
                        != participant_id@,
            },
    {
        let n = self.participants.len();
        for k in 0..n
            invariant
                n == self.participants@.len(),
                forall|j: int| 0 <= j < k ==> (#[trigger] self.participants@[j]).id@ != participant_id@,
        {
            if str_eq(self.participants[k].id.as_str(), participant_id) {
                let p = self.participants[k].duplicate();
                proof {
                    assert(self.participants_seq()[k as int] == p);
                }
                return Some(p);
            }
        }
        None
    }

    /// Look a participant up by its private view token.  Under unique
    /// tokens this is how a participant reaches the reveal page.
    pub fn get_participant_by_view_token(&self, view_token: &str) -> (r: Option<Participant>)
        requires
            self.wf(),
        ensures
            match r {
                Some(p) => exists|k: int|
                    0 <= k < self.participants_seq().len() && #[trigger] self.participants_seq()[k]
                        == p && p.view_token@ == view_token@,
                None => forall|k: int|
                    0 <= k < self.participants_seq().len() ==> (
                    #[trigger] self.participants_seq()[k]).view_token@ != view_token@,
            },
    {
        let n = self.participants.len();
        for k in 0..n
            invariant
                n == self.participants@.len(),
                forall|j: int|
                    0 <= j < k ==> (#[trigger] self.participants@[j]).view_token@ != view_token@,
        {
            if str_eq(self.participants[k].view_token.as_str(), view_token) {
                let p = self.participants[k].duplicate();
                proof {
                    assert(self.participants_seq()[k as int] == p);
                }
                return Some(p);
            }
        }
        None
    }

    /// The participants of a game, in creation order.
    pub fn get_participants_by_game(&self, game_id: &str) -> (r: Vec<Participant>)
        requires
            self.wf(),
        ensures
            r@ == spec_participants_of(self.participants_seq(), game_id@),
    {
        participants_of(&self.participants, game_id)
    }

    /// How many participants a game holds.
    pub fn count_participants_in_game(&self, game_id: &str) -> (c: usize)
        requires
            self.wf(),
        ensures
            c == spec_participants_of(self.participants_seq(), game_id@).len(),
    {
        count_in_game(&self.participants, game_id)
    }

    /// Insert a new, not yet matched participant row.  Participants can
    /// be added only to an existing game whose draw has not happened and
    /// whose participant limit is not yet reached; a colliding identifier
    /// or view token is a constraint violation.
    pub fn add_participant(&mut self, participant: &Participant) -> (r: Result<(), ApiError>)
        requires
            old(self).wf(),
            participant.matched_with_id is None,
        ensures
            final(self).wf(),
            final(self).games_seq() == old(self).games_seq(),
            final(self).resends_seq() == old(self).resends_seq(),
            final(self).verifications_seq() == old(self).verifications_seq(),
            (r matches Err(e) && e == ApiError::GameNotFound) <==> !has_game(
                old(self).games_seq(),
                participant.game_id@,
            ),
            (r matches Err(e) && e == ApiError::AlreadyDrawn) <==> game_drawn(
                old(self).games_seq(),
                participant.game_id@,
            ),
            (r matches Err(e) && e == ApiError::ParticipantLimitReached) <==> (has_game(
                old(self).games_seq(),
                participant.game_id@,
            ) && !game_drawn(old(self).games_seq(), participant.game_id@) && spec_participants_of(
                old(self).participants_seq(),
                participant.game_id@,
            ).len() >= MAX_PARTICIPANTS_PER_GAME),
            (r matches Err(e) && e == ApiError::PersistenceFailure) <==> (has_game(
                old(self).games_seq(),
                participant.game_id@,
            ) && !game_drawn(old(self).games_seq(), participant.game_id@) && spec_participants_of(
                old(self).participants_seq(),
                participant.game_id@,
            ).len() < MAX_PARTICIPANTS_PER_GAME && participant_conflicts(
                old(self).participants_seq(),
                *participant,
            )),
            r matches Ok(()) <==> (has_game(old(self).games_seq(), participant.game_id@)
                && !game_drawn(old(self).games_seq(), participant.game_id@)
                && spec_participants_of(
                old(self).participants_seq(),
                participant.game_id@,
            ).len() < MAX_PARTICIPANTS_PER_GAME && !participant_conflicts(
                old(self).participants_seq(),
                *participant,
            )),
            r matches Ok(()) ==> final(self).participants_seq() == old(
                self,
            ).participants_seq().push(*participant),
            r matches Err(_) ==> *final(self) == *old(self),
            r matches Err(e) ==> e == ApiError::GameNotFound || e == ApiError::AlreadyDrawn
                || e == ApiError::ParticipantLimitReached || e == ApiError::PersistenceFailure,
    {
        let gid = participant.game_id.as_str();
        let gi = match find_game_index(&self.games, gid) {
            Some(k) => k,
            None => {
                return Err(ApiError::GameNotFound);
            },
        };
        if self.games[gi].drawn {
            return Err(ApiError::AlreadyDrawn);
        }
        proof {
            assert(!game_drawn(self.games@, participant.game_id@)) by {
                lemma_unique_game_index(self.games@, participant.game_id@);
            }
        }
        if count_in_game(&self.participants, gid) >= MAX_PARTICIPANTS_PER_GAME {
            return Err(ApiError::ParticipantLimitReached);
        }
        if conflicts_with(&self.participants, participant) {
            return Err(ApiError::PersistenceFailure);
        }
        proof {
            broadcast use group_seq_properties;

            let ops = self.participants@;
            let nps = ops.push(*participant);
            let gs = self.games@;
            assert(participant_ids(nps) =~= participant_ids(ops).push(participant.id@));
            assert(view_tokens(nps) =~= view_tokens(ops).push(participant.view_token@));
            assert(!participant_ids(ops).contains(participant.id@)) by {
                assert forall|j: int|
                    0 <= j < ops.len() implies participant_ids(ops)[j] != participant.id@ by {
                    assert(ops[j].id@ != participant.id@);
                }
            }
            assert(!view_tokens(ops).contains(participant.view_token@)) by {
                assert forall|j: int|
                    0 <= j < ops.len() implies view_tokens(ops)[j] != participant.view_token@ by {
                    assert(ops[j].view_token@ != participant.view_token@);
                }
            }
            assert forall|k: int| 0 <= k < nps.len() implies has_game(
                gs,
                (#[trigger] nps[k]).game_id@,
            ) by {
                if k < ops.len() {
                    assert(nps[k] == ops[k]);
                } else {
                    assert(nps[k] == *participant);
                }
            }
            assert forall|k: int|
                0 <= k < nps.len() implies ((#[trigger] nps[k]).matched_with_id is Some
                <==> game_drawn(gs, nps[k].game_id@)) by {
                if k < ops.len() {
                    assert(nps[k] == ops[k]);
                } else {
                    assert(nps[k] == *participant);
                }
            }
            assert forall|k: int|
                0 <= k < nps.len() implies ((#[trigger] nps[k]).matched_with_id matches Some(m)
                ==> m@ != nps[k].id@ && participant_in_game(nps, m@, nps[k].game_id@)) by {
                if k < ops.len() {
                    assert(nps[k] == ops[k]);
                    if ops[k].matched_with_id is Some {
                        let m = ops[k].matched_with_id->0;
                        let j = choose|j: int|
                            0 <= j < ops.len() && (#[trigger] ops[j]).id@ == m@ && ops[j].game_id@
                                == ops[k].game_id@;
                        assert(nps[j] == ops[j]);
                    }
                } else {
                    assert(nps[k] == *participant);
                }
            }
        }
        self.participants.push(participant.duplicate());
        Ok(())
    }

    /// The draw coordinator: atomically assign every participant of the
    /// game a recipient and set the game's drawn flag.
    ///
    /// Exactly as the transaction does, the preconditions are checked in
    /// order — the game must exist, must not be drawn yet, and must have
    /// at least two participants — and any failure leaves the rows
    /// untouched.  On success the returned pairs are the assignment that
    /// was written: a permutation of the game's participant identifiers
    /// with no participant assigned to themselves.
    pub fn draw(&mut self, game_id: &str) -> (r: Result<Vec<(String, String)>, ApiError>)
        requires
            old(self).wf(),
        ensures
            final(self).wf(),
            (r matches Err(e) && e == ApiError::GameNotFound) <==> !has_game(
                old(self).games_seq(),
                game_id@,
            ),
            (r matches Err(e) && e == ApiError::AlreadyDrawn) <==> game_drawn(
                old(self).games_seq(),
                game_id@,
            ),
            (r matches Err(e) && e == ApiError::InsufficientParticipants) <==> (has_game(
                old(self).games_seq(),
                game_id@,
            ) && !game_drawn(old(self).games_seq(), game_id@) && spec_participants_of(
                old(self).participants_seq(),
                game_id@,
            ).len() < 2),
            r matches Err(e) ==> *final(self) == *old(self) && (e == ApiError::GameNotFound || e
                == ApiError::AlreadyDrawn || e == ApiError::InsufficientParticipants || e
                == ApiError::DerangementUnattainable),
            r matches Ok(m) ==> draw_applied(*old(self), *final(self), game_id@, pair_views(m@)),
            r matches Ok(m) ==> valid_matching(
                pair_views(m@),
                participant_ids(spec_participants_of(old(self).participants_seq(), game_id@)),
            ),
            r matches Ok(_) ==> has_game(old(self).games_seq(), game_id@) && !game_drawn(
                old(self).games_seq(),
                game_id@,
            ) && spec_participants_of(old(self).participants_seq(), game_id@).len() >= 2,
    {
        let gi = match find_game_index(&self.games, game_id) {
            Some(k) => k,
            None => {
                return Err(ApiError::GameNotFound);
            },
        };
        if self.games[gi].drawn {
            return Err(ApiError::AlreadyDrawn);
        }
        proof {
            assert(!game_drawn(self.games@, game_id@)) by {
                lemma_unique_game_index(self.games@, game_id@);
            }
        }
        let parts = participants_of(&self.participants, game_id);
        if parts.len() < 2 {
            return Err(ApiError::InsufficientParticipants);
        }
        let m = match generate_matches(&parts) {
            Ok(m) => m,
            Err(_) => {
                return Err(ApiError::DerangementUnattainable);
            },
        };
        proof {
            draw_application_admissible(self.participants@, game_id@, parts@, pair_views(m@), m@);
        }
        let nps = apply_matches(&self.participants, game_id, &m);
        let ngs = mark_drawn(&self.games, game_id);
        self.participants = nps;
        self.games = ngs;
        proof {
            lemma_draw_preserves_wf(
                old(self).games_seq(),
                old(self).participants_seq(),
                self.games@,
                self.participants@,
                game_id@,
                pair_views(m@),
            );
        }
        Ok(m)
    }

    /// Record that a participant has opened the reveal page.  A missing
    /// identifier changes nothing, as the row update would.
    pub fn mark_participant_viewed(&mut self, participant_id: &str)
        requires
            old(self).wf(),
        ensures
            final(self).wf(),
            final(self).games_seq() == old(self).games_seq(),
            final(self).resends_seq() == old(self).resends_seq(),
            final(self).verifications_seq() == old(self).verifications_seq(),
            final(self).participants_seq().len() == old(self).participants_seq().len(),
            forall|k: int|
                0 <= k < old(self).participants_seq().len() && (#[trigger] old(
                    self,
                ).participants_seq()[k]).id@ != participant_id@ ==> final(self).participants_seq()[k]
                    == old(self).participants_seq()[k],
            forall|k: int|
                0 <= k < old(self).participants_seq().len() && (#[trigger] old(
                    self,
                ).participants_seq()[k]).id@ == participant_id@ ==> viewed_version(
                    final(self).participants_seq()[k],
                    old(self).participants_seq()[k],
                ),
    {
        let mut r: Vec<Participant> = Vec::new();
        let n = self.participants.len();
        for k in 0..n
            invariant
                n == self.participants@.len(),
                r@.len() == k,
                forall|j: int|
                    0 <= j < k && (#[trigger] self.participants@[j]).id@ != participant_id@
                        ==> r@[j] == self.participants@[j],
                forall|j: int|
                    0 <= j < k && (#[trigger] self.participants@[j]).id@ == participant_id@
                        ==> viewed_version(r@[j], self.participants@[j]),
        {
            let p = &self.participants[k];
            if str_eq(p.id.as_str(), participant_id) {
                r.push(
                    Participant {
                        id: p.id.clone(),
                        game_id: p.game_id.clone(),
                        name: p.name.clone(),
                        email: p.email.clone(),
                        matched_with_id: match &p.matched_with_id {
                            Some(m) => Some(m.clone()),
                            None => None,
                        },
                        view_token: p.view_token.duplicate(),
                        has_viewed: true,
                        created_at: p.created_at,
                    },
                );
            } else {
                r.push(p.duplicate());
            }
        }
        proof {
            lemma_cosmetic_update_preserves_wf(self.games@, self.participants@, r@);
        }
        self.participants = r;
    }

    /// Change a participant's display name and email where given,
    /// leaving every other field and row unchanged.  A missing
    /// identifier changes nothing, as the row update would.
    pub fn update_participant(
        &mut self,
        participant_id: &str,
        name: Option<String>,
        email: Option<String>,
    )
        requires
            old(self).wf(),
        ensures
            final(self).wf(),
            final(self).games_seq() == old(self).games_seq(),
            final(self).resends_seq() == old(self).resends_seq(),
            final(self).verifications_seq() == old(self).verifications_seq(),
            final(self).participants_seq().len() == old(self).participants_seq().len(),
            forall|k: int|
                0 <= k < old(self).participants_seq().len() && (#[trigger] old(
                    self,
                ).participants_seq()[k]).id@ != participant_id@ ==> final(self).participants_seq()[k]
                    == old(self).participants_seq()[k],
            forall|k: int|
                0 <= k < old(self).participants_seq().len() && (#[trigger] old(
                    self,
                ).participants_seq()[k]).id@ == participant_id@ ==> renamed_version(
                    final(self).participants_seq()[k],
                    old(self).participants_seq()[k],
                    name,
                    email,
                ),
    {
        let mut r: Vec<Participant> = Vec::new();
        let n = self.participants.len();
        for k in 0..n
            invariant
                n == self.participants@.len(),
                r@.len() == k,
                forall|j: int|
                    0 <= j < k && (#[trigger] self.participants@[j]).id@ != participant_id@
                        ==> r@[j] == self.participants@[j],
                forall|j: int|
                    0 <= j < k && (#[trigger] self.participants@[j]).id@ == participant_id@
                        ==> renamed_version(r@[j], self.participants@[j], name, email),
        {
            let p = &self.participants[k];
            if str_eq(p.id.as_str(), participant_id) {
                let new_name = match &name {
                    Some(s) => s.clone(),
                    None => p.name.clone(),
                };
                let new_email = match &email {
                    Some(s) => s.clone(),
                    None => p.email.clone(),
                };
                r.push(
                    Participant {
                        id: p.id.clone(),
                        game_id: p.game_id.clone(),
                        name: new_name,
                        email: new_email,
                        matched_with_id: match &p.matched_with_id {
                            Some(m) => Some(m.clone()),
                            None => None,
                        },
                        view_token: p.view_token.duplicate(),
                        has_viewed: p.has_viewed,
                        created_at: p.created_at,
                    },
                );
            } else {
                r.push(p.duplicate());
            }
        }
        proof {
            lemma_cosmetic_update_preserves_wf(self.games@, self.participants@, r@);
        }
        self.participants = r;
    }

    /// Append one resend-audit row with a fresh identifier.
    pub fn record_email_resend(
        &mut self,
        game_id: &str,
        participant_id: Option<&str>,
        resend_type: &str,
        now: i64,
    )
        requires
            old(self).wf(),
        ensures
            final(self).wf(),
            final(self).games_seq() == old(self).games_seq(),
            final(self).participants_seq() == old(self).participants_seq(),
            final(self).verifications_seq() == old(self).verifications_seq(),
            final(self).resends_seq().len() == old(self).resends_seq().len() + 1,
            forall|k: int|
                0 <= k < old(self).resends_seq().len() ==> final(self).resends_seq()[k] == old(
                    self,
                ).resends_seq()[k],
            ({
                let rec = final(self).resends_seq().last();
                &&& rec.game_id@ == game_id@
                &&& (rec.participant_id is Some <==> participant_id is Some)
                &&& (rec.participant_id matches Some(p) ==> participant_id matches Some(q) && p@
                    == q@)
                &&& rec.resend_type@ == resend_type@
                &&& rec.resent_at == now
            }),
    {
        let rec = ResendRecord {
            id: crate::models::new_ulid_string(),
            game_id: String::from_str(game_id),
            participant_id: match participant_id {
                Some(p) => Some(String::from_str(p)),
                None => None,
            },
            resend_type: String::from_str(resend_type),
            resent_at: now,
        };
        self.resends.push(rec);
    }

    /// How many times this participant's reveal email was individually
    /// resent after `since`.
    pub fn count_recent_participant_resends(&self, participant_id: &str, since: i64) -> (c: usize)
        ensures
            c == self.resends_seq().filter(individual_resend_since(participant_id@, since)).len(),
    {
        count_resends(&self.resends, participant_id, true, "individual", Some(since))
    }

    /// How many times this participant's reveal email was individually
    /// resent in the game's lifetime.
    pub fn count_total_participant_resends(&self, participant_id: &str) -> (c: usize)
        ensures
            c == self.resends_seq().filter(individual_resend(participant_id@)).len(),
    {
        count_resends(&self.resends, participant_id, true, "individual", None)
    }

    /// How many bulk resends the game saw after `since`.
    pub fn count_recent_bulk_resends(&self, game_id: &str, since: i64) -> (c: usize)
        ensures
            c == self.resends_seq().filter(bulk_resend_since(game_id@, since)).len(),
    {
        count_resends(&self.resends, game_id, false, "bulk", Some(since))
    }

    /// How many bulk resends the game saw in its lifetime.
    pub fn count_total_bulk_resends(&self, game_id: &str) -> (c: usize)
        ensures
            c == self.resends_seq().filter(bulk_resend(game_id@)).len(),
    {
        count_resends(&self.resends, game_id, false, "bulk", None)
    }

    /// Delete a game together with its participants and resend-audit
    /// rows, as the foreign-key cascade does.  A missing identifier
    /// changes nothing.
    pub fn delete_game(&mut self, game_id: &str)
        requires
            old(self).wf(),
        ensures
            final(self).wf(),
            final(self).games_seq() == old(self).games_seq().filter(other_game(game_id@)),
            final(self).participants_seq() == old(self).participants_seq().filter(
                not_in_game(game_id@),
            ),
            final(self).resends_seq() == old(self).resends_seq().filter(resend_not_for(game_id@)),
            final(self).verifications_seq() == old(self).verifications_seq(),
    {
        let ngs = filter_other_games(&self.games, game_id);
        let nps = filter_participants_not_in(&self.participants, game_id);
        let nrs = filter_resends_not_for(&self.resends, game_id);
        proof {
            lemma_delete_preserves_wf(self.games@, self.participants@, game_id@);
        }
        self.games = ngs;
        self.participants = nps;
        self.resends = nrs;
    }

    /// Delete every game whose event date lies before `cutoff`, together
    /// with its participants and resend-audit rows, and report how many
    /// games were deleted.  The cutoff is an ISO-8601 date compared the
    /// way the database compares date-typed text: lexicographically.
    pub fn cleanup_old_games(&mut self, cutoff: &str) -> (deleted: usize)
        requires
            old(self).wf(),
        ensures
            final(self).wf(),
            final(self).games_seq() == old(self).games_seq().filter(game_current(cutoff@)),
            final(self).participants_seq() == old(self).participants_seq().filter(
                participant_of_current(old(self).games_seq(), cutoff@),
            ),
            final(self).resends_seq() == old(self).resends_seq().filter(
                resend_of_current(old(self).games_seq(), cutoff@),
            ),
            final(self).verifications_seq() == old(self).verifications_seq(),
            deleted == old(self).games_seq().len() - final(self).games_seq().len(),
    {
        let ngs = filter_current_games(&self.games, cutoff);
        let nps = filter_participants_of_current(&self.participants, &self.games, cutoff);
        let nrs = filter_resends_of_current(&self.resends, &self.games, cutoff);
        proof {
            lemma_cleanup_preserves_wf(self.games@, self.participants@, cutoff@);
            broadcast use Seq::<Game>::lemma_filter_len;
        }
        let deleted = self.games.len() - ngs.len();
        self.games = ngs;
        self.participants = nps;
        self.resends = nrs;
        deleted
    }

    /// A participant opens the reveal page: look the row up by its
    /// private token, refuse if the game is not drawn yet, answer the
    /// assigned recipient's name and remember that the page was viewed.
    #[verifier::rlimit(60)]
    pub fn reveal_match(&mut self, view_token: &str) -> (r: Result<RevealResponse, ApiError>)
        requires
            old(self).wf(),
        ensures
            final(self).wf(),
            final(self).games_seq() == old(self).games_seq(),
            final(self).resends_seq() == old(self).resends_seq(),
            final(self).verifications_seq() == old(self).verifications_seq(),
            (r matches Err(e) && e == ApiError::ParticipantNotFound) <==> (forall|k: int|
                0 <= k < old(self).participants_seq().len() ==> (#[trigger] old(
                    self,
                ).participants_seq()[k]).view_token@ != view_token@),
            (r matches Err(e) && e == ApiError::NotYetDrawn) <==> (exists|k: int|
                0 <= k < old(self).participants_seq().len() && (#[trigger] old(
                    self,
                ).participants_seq()[k]).view_token@ == view_token@ && !game_drawn(
                    old(self).games_seq(),
                    old(self).participants_seq()[k].game_id@,
                )),
            r matches Err(e) ==> *final(self) == *old(self) && (e == ApiError::ParticipantNotFound
                || e == ApiError::NotYetDrawn),
            r matches Ok(resp) ==> reveal_ok(*old(self), *final(self), view_token@, resp),
    {
        let p = match self.get_participant_by_view_token(view_token) {
            Some(p) => p,
            None => {
                return Err(ApiError::ParticipantNotFound);
            },
        };
        let ghost k = choose|k: int|
            0 <= k < self.participants@.len() && #[trigger] self.participants@[k] == p
                && p.view_token@ == view_token@;
        let g = match self.get_game_by_id(p.game_id.as_str()) {
            Some(g) => g,
            None => {
                proof {
                    assert(has_game(self.games@, self.participants@[k].game_id@));
                    assert(false);
                }
                vstd::pervasive::unreached()
            },
        };
        proof {
            lemma_unique_game_index(self.games@, p.game_id@);
            lemma_unique_token_index(self.participants@);
            lemma_unique_participant_index(self.participants@);
        }
        if !g.drawn {
            proof {
                assert(!game_drawn(self.games@, p.game_id@));
            }
            return Err(ApiError::NotYetDrawn);
        }
        proof {
            assert(game_drawn(self.games@, p.game_id@));
        }
        let matched_id = match &p.matched_with_id {
            Some(m) => m.clone(),
            None => {
                proof {
                    assert(self.participants@[k].matched_with_id is Some);
                    assert(false);
                }
                vstd::pervasive::unreached()
            },
        };
        let q = match self.get_participant_by_id(matched_id.as_str()) {
            Some(q) => q,
            None => {
                proof {
                    assert(participant_in_game(
                        self.participants@,
                        matched_id@,
                        self.participants@[k].game_id@,
                    ));
                    assert(false);
                }
                vstd::pervasive::unreached()
            },
        };
        let resp = RevealResponse {
            game_name: g.name.clone(),
            event_date: g.event_date.clone(),
            your_name: p.name.clone(),
            matched_name: q.name.clone(),
        };
        if !p.has_viewed {
            self.mark_participant_viewed(p.id.as_str());
        }
        proof {
            let ops = old(self).participants_seq();
            let nps = self.participants@;
            assert forall|j: int|
                0 <= j < ops.len() && (#[trigger] ops[j]).view_token@ != view_token@ implies nps[j]
                == ops[j] by {
                assert(ops[j].id@ != ops[k].id@);
            }
            assert forall|j: int|
                0 <= j < ops.len() && (#[trigger] ops[j]).view_token@
                == view_token@ implies viewed_version(nps[j], ops[j]) by {
                assert(j == k);
            }
        }
        Ok(resp)
    }

    /// Insert a new pending verification row.  Refused only when the
    /// identifier is already taken, which the database surfaces as a
    /// constraint violation.
    pub fn create_email_verification(&mut self, verification: &EmailVerification) -> (r: Result<
        (),
        ApiError,
    >)
        requires
            old(self).wf(),
        ensures
            final(self).wf(),
            final(self).games_seq() == old(self).games_seq(),
            final(self).participants_seq() == old(self).participants_seq(),
            final(self).resends_seq() == old(self).resends_seq(),
            r matches Ok(()) <==> (forall|k: int|
                0 <= k < old(self).verifications_seq().len() ==> (#[trigger] old(
                    self,
                ).verifications_seq()[k]).id@ != verification.id@),
            r matches Ok(()) ==> final(self).verifications_seq() == old(
                self,
            ).verifications_seq().push(*verification),
            r matches Err(e) ==> e == ApiError::PersistenceFailure && *final(self) == *old(self),
    {
        if verification_id_taken(&self.verifications, verification.id.as_str()) {
            proof {
                let j = choose|j: int|
                    0 <= j < self.verifications@.len() && (#[trigger] self.verifications@[j]).id@
                        == verification.id@;
                assert(old(self).verifications_seq()[j].id@ == verification.id@);
            }
            return Err(ApiError::PersistenceFailure);
        }
        self.verifications.push(verification.duplicate());
        Ok(())
    }

    /// Look a verification up by its identifier.
    pub fn get_email_verification_by_id(&self, id: &str) -> (r: Option<EmailVerification>)
        ensures
            match r {
                Some(v) => exists|k: int|
                    0 <= k < self.verifications_seq().len() && #[trigger] self.verifications_seq()[k]
                        == v && v.id@ == id@,
                None => forall|k: int|
                    0 <= k < self.verifications_seq().len() ==> (
                    #[trigger] self.verifications_seq()[k]).id@ != id@,
            },
    {
        let n = self.verifications.len();
        for k in 0..n
            invariant
                n == self.verifications@.len(),
                forall|j: int| 0 <= j < k ==> (#[trigger] self.verifications@[j]).id@ != id@,
        {
            if str_eq(self.verifications[k].id.as_str(), id) {
                let v = self.verifications[k].duplicate();
                proof {
                    assert(self.verifications_seq()[k as int] == v);
                }
                return Some(v);
            }
        }
        None
    }

    /// Count one more wrong guess against a verification.  A missing
    /// identifier changes nothing, as the row update would.
    pub fn increment_verification_attempts(&mut self, id: &str)
        requires
            old(self).wf(),
        ensures
            final(self).wf(),
            final(self).games_seq() == old(self).games_seq(),
            final(self).participants_seq() == old(self).participants_seq(),
            final(self).resends_seq() == old(self).resends_seq(),
            final(self).verifications_seq().len() == old(self).verifications_seq().len(),
            forall|k: int|
                0 <= k < old(self).verifications_seq().len() && (#[trigger] old(
                    self,
                ).verifications_seq()[k]).id@ != id@ ==> final(self).verifications_seq()[k] == old(
                    self,
                ).verifications_seq()[k],
            forall|k: int|
                0 <= k < old(self).verifications_seq().len() && (#[trigger] old(
                    self,
                ).verifications_seq()[k]).id@ == id@ ==> attempts_bumped(
                    final(self).verifications_seq()[k],
                    old(self).verifications_seq()[k],
                ),
    {
        let mut r: Vec<EmailVerification> = Vec::new();
        let n = self.verifications.len();
        for k in 0..n
            invariant
                n == self.verifications@.len(),
                r@.len() == k,
                forall|j: int|
                    0 <= j < k && (#[trigger] self.verifications@[j]).id@ != id@ ==> r@[j]
                        == self.verifications@[j],
                forall|j: int|
                    0 <= j < k && (#[trigger] self.verifications@[j]).id@ == id@
                        ==> attempts_bumped(r@[j], self.verifications@[j]),
        {
            let v = &self.verifications[k];
            if str_eq(v.id.as_str(), id) {
                let bumped = if v.attempts < i32::MAX {
                    v.attempts + 1
                } else {
                    v.attempts
                };
                let mut nv = v.duplicate();
                nv.attempts = bumped;
                r.push(nv);
            } else {
                r.push(v.duplicate());
            }
        }
        self.verifications = r;
    }

    /// Mark a verification as spent, once its code was accepted.  A
    /// missing identifier changes nothing, as the row update would.
    pub fn mark_verification_as_verified(&mut self, id: &str)
        requires
            old(self).wf(),
        ensures
            final(self).wf(),
            final(self).games_seq() == old(self).games_seq(),
            final(self).participants_seq() == old(self).participants_seq(),
            final(self).resends_seq() == old(self).resends_seq(),
            final(self).verifications_seq().len() == old(self).verifications_seq().len(),
            forall|k: int|
                0 <= k < old(self).verifications_seq().len() && (#[trigger] old(
                    self,
                ).verifications_seq()[k]).id@ != id@ ==> final(self).verifications_seq()[k] == old(
                    self,
                ).verifications_seq()[k],
            forall|k: int|
                0 <= k < old(self).verifications_seq().len() && (#[trigger] old(
                    self,
                ).verifications_seq()[k]).id@ == id@ ==> marked_verified(
                    final(self).verifications_seq()[k],
                    old(self).verifications_seq()[k],
                ),
    {
        let mut r: Vec<EmailVerification> = Vec::new();
        let n = self.verifications.len();
        for k in 0..n
            invariant
                n == self.verifications@.len(),
                r@.len() == k,
                forall|j: int|
                    0 <= j < k && (#[trigger] self.verifications@[j]).id@ != id@ ==> r@[j]
                        == self.verifications@[j],
                forall|j: int|
                    0 <= j < k && (#[trigger] self.verifications@[j]).id@ == id@
                        ==> marked_verified(r@[j], self.verifications@[j]),
        {
            let v = &self.verifications[k];
            if str_eq(v.id.as_str(), id) {
                let mut nv = v.duplicate();
                nv.verified = true;
                r.push(nv);
            } else {
                r.push(v.duplicate());
            }
        }
        self.verifications = r;
    }

    /// Replace a verification's code, restart its lifetime and reset
    /// the attempt counter.  A missing identifier changes nothing, as
    /// the row update would.
    pub fn update_verification_code(&mut self, id: &str, new_code: &str, new_expires_at: i64)
        requires
            old(self).wf(),
        ensures
            final(self).wf(),
            final(self).games_seq() == old(self).games_seq(),
            final(self).participants_seq() == old(self).participants_seq(),
            final(self).resends_seq() == old(self).resends_seq(),
            final(self).verifications_seq().len() == old(self).verifications_seq().len(),
            forall|k: int|
                0 <= k < old(self).verifications_seq().len() && (#[trigger] old(
                    self,
                ).verifications_seq()[k]).id@ != id@ ==> final(self).verifications_seq()[k] == old(
                    self,
                ).verifications_seq()[k],
            forall|k: int|
                0 <= k < old(self).verifications_seq().len() && (#[trigger] old(
                    self,
                ).verifications_seq()[k]).id@ == id@ ==> recoded(
                    final(self).verifications_seq()[k],
                    old(self).verifications_seq()[k],
                    new_code@,
                    new_expires_at,
                ),
    {
        let mut r: Vec<EmailVerification> = Vec::new();
        let n = self.verifications.len();
        for k in 0..n
            invariant
                n == self.verifications@.len(),
                r@.len() == k,
                forall|j: int|
                    0 <= j < k && (#[trigger] self.verifications@[j]).id@ != id@ ==> r@[j]
                        == self.verifications@[j],
                forall|j: int|
                    0 <= j < k && (#[trigger] self.verifications@[j]).id@ == id@ ==> recoded(
                        r@[j],
                        self.verifications@[j],
                        new_code@,
                        new_expires_at,
                    ),
        {
            let v = &self.verifications[k];
            if str_eq(v.id.as_str(), id) {
                let mut nv = v.duplicate();
                nv.code = String::from_str(new_code);
                nv.expires_at = new_expires_at;
                nv.attempts = 0;
                r.push(nv);
            } else {
                r.push(v.duplicate());
            }
        }
        self.verifications = r;
    }

    /// How many verification codes this email address received after
    /// `since`.
    pub fn count_recent_verifications_by_email(&self, email: &str, since: i64) -> (c: usize)
        ensures
            c == self.verifications_seq().filter(verification_for_email_since(email@, since)).len(),
    {
        let mut c: usize = 0;
        let n = self.verifications.len();
        proof {
            reveal_with_fuel(Seq::filter, 2);
            assert(self.verifications@.take(0).filter(verification_for_email_since(email@, since))
                =~= Seq::<EmailVerification>::empty());
        }
        for k in 0..n
            invariant
                n == self.verifications@.len(),
                c <= k,
                c == self.verifications@.take(k as int).filter(
                    verification_for_email_since(email@, since),
                ).len(),
        {
            let v = &self.verifications[k];
            if str_eq(v.email.as_str(), email) && v.created_at > since {
                c = c + 1;
            }
            proof {
                let e = self.verifications@[k as int];
                self.verifications@.take(k as int).lemma_filter_push(
                    e,
                    verification_for_email_since(email@, since),
                );
                Seq::lemma_filter_len_push(
                    self.verifications@.take(k as int),
                    verification_for_email_since(email@, since),
                    e,
                );
                assert(self.verifications@.take(k + 1) =~= self.verifications@.take(
                    k as int,
                ).push(e));
            }
        }
        assert(self.verifications@.take(n as int) =~= self.verifications@);
        c
    }

    /// Delete the verifications whose lifetime has passed without their
    /// code being accepted, and report how many were deleted.
    pub fn cleanup_expired_verifications(&mut self, now: i64) -> (deleted: usize)
        requires
            old(self).wf(),
        ensures
            final(self).wf(),
            final(self).games_seq() == old(self).games_seq(),
            final(self).participants_seq() == old(self).participants_seq(),
            final(self).resends_seq() == old(self).resends_seq(),
            final(self).verifications_seq() == old(self).verifications_seq().filter(
                verification_kept_at(now),
            ),
            deleted == old(self).verifications_seq().len()
                - final(self).verifications_seq().len(),
    {
        let mut r: Vec<EmailVerification> = Vec::new();
        let n = self.verifications.len();
        proof {
            reveal_with_fuel(Seq::filter, 2);
            assert(r@ =~= self.verifications@.take(0).filter(verification_kept_at(now)));
        }
        for k in 0..n
            invariant
                n == self.verifications@.len(),
                r@ == self.verifications@.take(k as int).filter(verification_kept_at(now)),
        {
            let v = &self.verifications[k];
            if !(v.expires_at < now && !v.verified) {
                r.push(v.duplicate());
            }
            proof {
                self.verifications@.take(k as int).lemma_filter_push(
                    self.verifications@[k as int],
                    verification_kept_at(now),
                );
                assert(self.verifications@.take(k + 1) =~= self.verifications@.take(
                    k as int,
                ).push(self.verifications@[k as int]));
            }
        }
        assert(self.verifications@.take(n as int) =~= self.verifications@);
        proof {
            broadcast use Seq::<EmailVerification>::lemma_filter_len;
        }
        let deleted = self.verifications.len() - r.len();
        self.verifications = r;
        deleted
    }
}

/// Whether the game `gid` exists in `gs` with an event date before
/// `cutoff`.
fn game_is_expired(gs: &Vec<Game>, gid: &str, cutoff: &str) -> (r: bool)
    ensures
        r == expired_in(gs@, gid@, cutoff@),
{
    let n = gs.len();
    for k in 0..n
        invariant
            n == gs@.len(),
            forall|j: int|
                0 <= j < k ==> !((#[trigger] gs@[j]).id@ == gid@ && lex_lt(
                    gs@[j].event_date@,
                    cutoff@,
                )),
    {
        if str_eq(gs[k].id.as_str(), gid) && str_lt(gs[k].event_date.as_str(), cutoff) {
            return true;
        }
    }
    false
}

/// The games the cleanup keeps, copied out in order.
fn filter_current_games(gs: &Vec<Game>, cutoff: &str) -> (r: Vec<Game>)
    ensures
        r@ == gs@.filter(game_current(cutoff@)),
{
    let mut r: Vec<Game> = Vec::new();
    let n = gs.len();
    proof {
        reveal_with_fuel(Seq::filter, 2);
        assert(r@ =~= gs@.take(0).filter(game_current(cutoff@)));
    }
    for k in 0..n
        invariant
            n == gs@.len(),
            r@ == gs@.take(k as int).filter(game_current(cutoff@)),
    {
        if !str_lt(gs[k].event_date.as_str(), cutoff) {
            r.push(gs[k].duplicate());
        }
        proof {
            gs@.take(k as int).lemma_filter_push(gs@[k as int], game_current(cutoff@));
            assert(gs@.take(k + 1) =~= gs@.take(k as int).push(gs@[k as int]));
        }
    }
    assert(gs@.take(n as int) =~= gs@);
    r
}

/// The participants the cleanup keeps, copied out in order.
fn filter_participants_of_current(ps: &Vec<Participant>, gs: &Vec<Game>, cutoff: &str) -> (r: Vec<
    Participant,
>)
    ensures
        r@ == ps@.filter(participant_of_current(gs@, cutoff@)),
{
    let mut r: Vec<Participant> = Vec::new();
    let n = ps.len();
    proof {
        reveal_with_fuel(Seq::filter, 2);
        assert(r@ =~= ps@.take(0).filter(participant_of_current(gs@, cutoff@)));
    }
    for k in 0..n
        invariant
            n == ps@.len(),
            r@ == ps@.take(k as int).filter(participant_of_current(gs@, cutoff@)),
    {
        if !game_is_expired(gs, ps[k].game_id.as_str(), cutoff) {
            r.push(ps[k].duplicate());
        }
        proof {
            ps@.take(k as int).lemma_filter_push(
                ps@[k as int],
                participant_of_current(gs@, cutoff@),
            );
            assert(ps@.take(k + 1) =~= ps@.take(k as int).push(ps@[k as int]));
        }
    }
    assert(ps@.take(n as int) =~= ps@);
    r
}

/// The resend-audit rows the cleanup keeps, copied out in order.
fn filter_resends_of_current(rs: &Vec<ResendRecord>, gs: &Vec<Game>, cutoff: &str) -> (r: Vec<
    ResendRecord,
>)
    ensures
        r@ == rs@.filter(resend_of_current(gs@, cutoff@)),
{
    let mut r: Vec<ResendRecord> = Vec::new();
    let n = rs.len();
    proof {
        reveal_with_fuel(Seq::filter, 2);
        assert(r@ =~= rs@.take(0).filter(resend_of_current(gs@, cutoff@)));
    }
    for k in 0..n
        invariant
            n == rs@.len(),
            r@ == rs@.take(k as int).filter(resend_of_current(gs@, cutoff@)),
    {
        if !game_is_expired(gs, rs[k].game_id.as_str(), cutoff) {
            r.push(rs[k].duplicate());
        }
        proof {
            rs@.take(k as int).lemma_filter_push(rs@[k as int], resend_of_current(gs@, cutoff@));
            assert(rs@.take(k + 1) =~= rs@.take(k as int).push(rs@[k as int]));
        }
    }
    assert(rs@.take(n as int) =~= rs@);
    r
}

/// Deleting the games whose event date lies before the cutoff, with
/// their participants, keeps the data-model invariant.
proof fn lemma_cleanup_preserves_wf(gs: Seq<Game>, ps: Seq<Participant>, cutoff: Seq<char>)
    requires
        store_wf(gs, ps),
    ensures
        store_wf(
            gs.filter(game_current(cutoff)),
            ps.filter(participant_of_current(gs, cutoff)),
        ),
{
    let ngs = gs.filter(game_current(cutoff));
    let nps = ps.filter(participant_of_current(gs, cutoff));
    lemma_filter_is_subset(gs, game_current(cutoff));
    lemma_filter_is_subset(ps, participant_of_current(gs, cutoff));
    assert(game_ids(ngs).no_duplicates()) by {
        lemma_filter_map_no_duplicates(gs, game_current(cutoff), |g: Game| g.id@);
        assert(gs.map_values(|g: Game| g.id@) == game_ids(gs));
        assert(ngs.map_values(|g: Game| g.id@) == game_ids(ngs));
    }
    assert(participant_ids(nps).no_duplicates()) by {
        lemma_filter_map_no_duplicates(ps, participant_of_current(gs, cutoff), |p: Participant| p.id@);
        assert(ps.map_values(|p: Participant| p.id@) == participant_ids(ps));
        assert(nps.map_values(|p: Participant| p.id@) == participant_ids(nps));
    }
    assert(view_tokens(nps).no_duplicates()) by {
        lemma_filter_map_no_duplicates(
            ps,
            participant_of_current(gs, cutoff),
            |p: Participant| p.view_token@,
        );
        assert(ps.map_values(|p: Participant| p.view_token@) == view_tokens(ps));
        assert(nps.map_values(|p: Participant| p.view_token@) == view_tokens(nps));
    }
    assert forall|k: int| 0 <= k < nps.len() implies has_game(
        ngs,
        (#[trigger] nps[k]).game_id@,
    ) by {
        let y = nps[k];
        ps.lemma_filter_pred(participant_of_current(gs, cutoff), k);
        assert(ps.contains(y));
        let l = choose|l: int| 0 <= l < ps.len() && ps[l] == y;
        assert(has_game(gs, ps[l].game_id@));
        let w = choose|w: int| 0 <= w < gs.len() && (#[trigger] gs[w]).id@ == y.game_id@;
        assert(!expired_in(gs, y.game_id@, cutoff));
        assert(game_current(cutoff)(gs[w]));
        gs.lemma_filter_contains(game_current(cutoff), w);
        let v = choose|v: int| 0 <= v < ngs.len() && ngs[v] == gs[w];
        assert(ngs[v].id@ == y.game_id@);
    }
    assert forall|id: Seq<char>| !expired_in(gs, id, cutoff) implies (game_drawn(ngs, id)
        <==> game_drawn(gs, id)) by {
        if game_drawn(gs, id) {
            let w = choose|w: int|
                0 <= w < gs.len() && (#[trigger] gs[w]).id@ == id && gs[w].drawn;
            assert(game_current(cutoff)(gs[w]));
            gs.lemma_filter_contains(game_current(cutoff), w);
            let v = choose|v: int| 0 <= v < ngs.len() && ngs[v] == gs[w];
            assert(ngs[v].id@ == id && ngs[v].drawn);
        }
        if game_drawn(ngs, id) {
            let v = choose|v: int|
                0 <= v < ngs.len() && (#[trigger] ngs[v]).id@ == id && ngs[v].drawn;
            assert(gs.contains(ngs[v]));
            let w = choose|w: int| 0 <= w < gs.len() && gs[w] == ngs[v];
            assert(gs[w].id@ == id && gs[w].drawn);
        }
    }
    assert forall|k: int|
        0 <= k < nps.len() implies ((#[trigger] nps[k]).matched_with_id is Some <==> game_drawn(
        ngs,
        nps[k].game_id@,
    )) by {
        let y = nps[k];
        ps.lemma_filter_pred(participant_of_current(gs, cutoff), k);
        assert(ps.contains(y));
        let l = choose|l: int| 0 <= l < ps.len() && ps[l] == y;
        assert(ps[l].matched_with_id is Some <==> game_drawn(gs, ps[l].game_id@));
        assert(!expired_in(gs, y.game_id@, cutoff));
    }
    assert forall|k: int|
        0 <= k < nps.len() implies ((#[trigger] nps[k]).matched_with_id matches Some(x) ==> x@
        != nps[k].id@ && participant_in_game(nps, x@, nps[k].game_id@)) by {
        let y = nps[k];
        ps.lemma_filter_pred(participant_of_current(gs, cutoff), k);
        assert(ps.contains(y));
        if y.matched_with_id is Some {
            let x = y.matched_with_id->0;
            let l = choose|l: int| 0 <= l < ps.len() && ps[l] == y;
            assert(x@ != ps[l].id@ && participant_in_game(ps, x@, ps[l].game_id@));
            let q = choose|q: int|
                0 <= q < ps.len() && (#[trigger] ps[q]).id@ == x@ && ps[q].game_id@ == y.game_id@;
            assert(participant_of_current(gs, cutoff)(ps[q]));
            ps.lemma_filter_contains(participant_of_current(gs, cutoff), q);
            let v = choose|v: int| 0 <= v < nps.len() && nps[v] == ps[q];
            assert(nps[v].id@ == x@ && nps[v].game_id@ == y.game_id@);
        }
    }
}

/// The games other than `gid`, copied out in order.
fn filter_other_games(gs: &Vec<Game>, gid: &str) -> (r: Vec<Game>)
    ensures
        r@ == gs@.filter(other_game(gid@)),
{
    let mut r: Vec<Game> = Vec::new();
    let n = gs.len();
    proof {
        reveal_with_fuel(Seq::filter, 2);
        assert(r@ =~= gs@.take(0).filter(other_game(gid@)));
    }
    for k in 0..n
        invariant
            n == gs@.len(),
            r@ == gs@.take(k as int).filter(other_game(gid@)),
    {
        if !str_eq(gs[k].id.as_str(), gid) {
            r.push(gs[k].duplicate());
        }
        proof {
            gs@.take(k as int).lemma_filter_push(gs@[k as int], other_game(gid@));
            assert(gs@.take(k + 1) =~= gs@.take(k as int).push(gs@[k as int]));
        }
    }
    assert(gs@.take(n as int) =~= gs@);
    r
}

/// The participants of games other than `gid`, copied out in order.
fn filter_participants_not_in(ps: &Vec<Participant>, gid: &str) -> (r: Vec<Participant>)
    ensures
        r@ == ps@.filter(not_in_game(gid@)),
{
    let mut r: Vec<Participant> = Vec::new();
    let n = ps.len();
    proof {
        reveal_with_fuel(Seq::filter, 2);
        assert(r@ =~= ps@.take(0).filter(not_in_game(gid@)));
    }
    for k in 0..n
        invariant
            n == ps@.len(),
            r@ == ps@.take(k as int).filter(not_in_game(gid@)),
    {
        if !str_eq(ps[k].game_id.as_str(), gid) {
            r.push(ps[k].duplicate());
        }
        proof {
            ps@.take(k as int).lemma_filter_push(ps@[k as int], not_in_game(gid@));
            assert(ps@.take(k + 1) =~= ps@.take(k as int).push(ps@[k as int]));
        }
    }
    assert(ps@.take(n as int) =~= ps@);
    r
}

/// The resend-audit rows of games other than `gid`, copied out in order.
fn filter_resends_not_for(rs: &Vec<ResendRecord>, gid: &str) -> (r: Vec<ResendRecord>)
    ensures
        r@ == rs@.filter(resend_not_for(gid@)),
{
    let mut r: Vec<ResendRecord> = Vec::new();
    let n = rs.len();
    proof {
        reveal_with_fuel(Seq::filter, 2);
        assert(r@ =~= rs@.take(0).filter(resend_not_for(gid@)));
    }
    for k in 0..n
        invariant
            n == rs@.len(),
            r@ == rs@.take(k as int).filter(resend_not_for(gid@)),
    {
        if !str_eq(rs[k].game_id.as_str(), gid) {
            r.push(rs[k].duplicate());
        }
        proof {
            rs@.take(k as int).lemma_filter_push(rs@[k as int], resend_not_for(gid@));
            assert(rs@.take(k + 1) =~= rs@.take(k as int).push(rs@[k as int]));
        }
    }
    assert(rs@.take(n as int) =~= rs@);
    r
}

/// What a successful reveal answers and changes: some row holds the
/// token, its game is drawn, the response carries the game's name and
/// date, the participant's own name and the assigned recipient's name,
/// and the only change to the rows is that the token's row is marked
/// viewed.
pub open spec fn reveal_ok(
    pre: GameStore,
    post: GameStore,
    token: Seq<char>,
    resp: RevealResponse,
) -> bool {
    let gs = pre.games_seq();
    let ps = pre.participants_seq();
    &&& exists|k: int|
        0 <= k < ps.len() && (#[trigger] ps[k]).view_token@ == token && game_drawn(
            gs,
            ps[k].game_id@,
        ) && resp.your_name@ == ps[k].name@ && (exists|w: int|
            0 <= w < gs.len() && (#[trigger] gs[w]).id@ == ps[k].game_id@ && resp.game_name@
                == gs[w].name@ && resp.event_date@ == gs[w].event_date@) && (ps[k].matched_with_id
            matches Some(m) && exists|l: int|
            0 <= l < ps.len() && (#[trigger] ps[l]).id@ == m@ && resp.matched_name@ == ps[l].name@)
    &&& post.participants_seq().len() == ps.len()
    &&& forall|j: int|
        0 <= j < ps.len() && (#[trigger] ps[j]).view_token@ != token
            ==> post.participants_seq()[j] == ps[j]
    &&& forall|j: int|
        0 <= j < ps.len() && (#[trigger] ps[j]).view_token@ == token ==> viewed_version(
            post.participants_seq()[j],
            ps[j],
        )
}

/// The games other than `gid`: what a deletion of `gid` keeps.
pub open spec fn other_game(gid: Seq<char>) -> spec_fn(Game) -> bool {
    |g: Game| g.id@ != gid
}

/// The participants of games other than `gid`.
pub open spec fn not_in_game(gid: Seq<char>) -> spec_fn(Participant) -> bool {
    |p: Participant| p.game_id@ != gid
}

/// The resend-audit rows of games other than `gid`.
pub open spec fn resend_not_for(gid: Seq<char>) -> spec_fn(ResendRecord) -> bool {
    |r: ResendRecord| r.game_id@ != gid
}

/// Some game in `gs` carries the identifier `gid` and an event date
/// before `cutoff`: the game is eligible for cleanup.
pub open spec fn expired_in(gs: Seq<Game>, gid: Seq<char>, cutoff: Seq<char>) -> bool {
    exists|j: int|
        0 <= j < gs.len() && (#[trigger] gs[j]).id@ == gid && lex_lt(gs[j].event_date@, cutoff)
}

/// A game whose event date is not yet before the cutoff: what a cleanup
/// keeps.
pub open spec fn game_current(cutoff: Seq<char>) -> spec_fn(Game) -> bool {
    |g: Game| !lex_lt(g.event_date@, cutoff)
}

/// A participant whose game the cleanup keeps.
pub open spec fn participant_of_current(gs: Seq<Game>, cutoff: Seq<char>) -> spec_fn(
    Participant,
) -> bool {
    |p: Participant| !expired_in(gs, p.game_id@, cutoff)
}

/// A resend-audit row whose game the cleanup keeps.
pub open spec fn resend_of_current(gs: Seq<Game>, cutoff: Seq<char>) -> spec_fn(
    ResendRecord,
) -> bool {
    |r: ResendRecord| !expired_in(gs, r.game_id@, cutoff)
}

/// `np` is `op` with the viewed flag set and every other field
/// unchanged.
pub open spec fn viewed_version(np: Participant, op: Participant) -> bool {
    &&& np.id == op.id
    &&& np.game_id == op.game_id
    &&& np.name == op.name
    &&& np.email == op.email
    &&& np.matched_with_id == op.matched_with_id
    &&& np.view_token == op.view_token
    &&& np.has_viewed
    &&& np.created_at == op.created_at
}

/// `np` is `op` with the name and email replaced where one was given,
/// and every other field unchanged.
pub open spec fn renamed_version(
    np: Participant,
    op: Participant,
    name: Option<String>,
    email: Option<String>,
) -> bool {
    &&& np.id == op.id
    &&& np.game_id == op.game_id
    &&& np.name@ == (match name {
        Some(s) => s@,
        None => op.name@,
    })
    &&& np.email@ == (match email {
        Some(s) => s@,
        None => op.email@,
    })
    &&& np.matched_with_id == op.matched_with_id
    &&& np.view_token == op.view_token
    &&& np.has_viewed == op.has_viewed
    &&& np.created_at == op.created_at
}

/// An individual resend-audit row for the participant `pid`.
pub open spec fn individual_resend(pid: Seq<char>) -> spec_fn(ResendRecord) -> bool {
    |r: ResendRecord|
        r.participant_id matches Some(p) && p@ == pid && r.resend_type@ == "individual"@
}

/// An individual resend-audit row for `pid` made after `since`.
pub open spec fn individual_resend_since(pid: Seq<char>, since: i64) -> spec_fn(
    ResendRecord,
) -> bool {
    |r: ResendRecord|
        r.participant_id matches Some(p) && p@ == pid && r.resend_type@ == "individual"@
            && r.resent_at > since
}

/// A bulk resend-audit row for the game `gid`.
pub open spec fn bulk_resend(gid: Seq<char>) -> spec_fn(ResendRecord) -> bool {
    |r: ResendRecord| r.game_id@ == gid && r.participant_id is None && r.resend_type@ == "bulk"@
}

/// A bulk resend-audit row for `gid` made after `since`.
pub open spec fn bulk_resend_since(gid: Seq<char>, since: i64) -> spec_fn(ResendRecord) -> bool {
    |r: ResendRecord|
        r.game_id@ == gid && r.participant_id is None && r.resend_type@ == "bulk"@ && r.resent_at
            > since
}

/// Changing only names, emails and viewed flags keeps the data-model
/// invariant: identifiers, game memberships and assignments are
/// untouched.
proof fn lemma_cosmetic_update_preserves_wf(
    gs: Seq<Game>,
    ops: Seq<Participant>,
    nps: Seq<Participant>,
)
    requires
        store_wf(gs, ops),
        nps.len() == ops.len(),
        forall|k: int| 0 <= k < ops.len() ==> same_core(nps[k], #[trigger] ops[k]),
    ensures
        store_wf(gs, nps),
{
    assert(participant_ids(nps) =~= participant_ids(ops));
    assert(view_tokens(nps) =~= view_tokens(ops));
    assert forall|k: int| 0 <= k < nps.len() implies has_game(
        gs,
        (#[trigger] nps[k]).game_id@,
    ) by {
        assert(same_core(nps[k], ops[k]));
    }
    assert forall|k: int|
        0 <= k < nps.len() implies ((#[trigger] nps[k]).matched_with_id is Some <==> game_drawn(
        gs,
        nps[k].game_id@,
    )) by {
        assert(same_core(nps[k], ops[k]));
    }
    assert forall|k: int|
        0 <= k < nps.len() implies ((#[trigger] nps[k]).matched_with_id matches Some(x) ==> x@
        != nps[k].id@ && participant_in_game(nps, x@, nps[k].game_id@)) by {
        assert(same_core(nps[k], ops[k]));
        if nps[k].matched_with_id is Some {
            let x = nps[k].matched_with_id->0;
            let l = choose|l: int|
                0 <= l < ops.len() && (#[trigger] ops[l]).id@ == x@ && ops[l].game_id@
                    == ops[k].game_id@;
            assert(same_core(nps[l], ops[l]));
        }
    }
}

/// The fields the data-model invariant watches are equal.
pub open spec fn same_core(np: Participant, op: Participant) -> bool {
    &&& np.id == op.id
    &&& np.game_id == op.game_id
    &&& np.matched_with_id == op.matched_with_id
    &&& np.view_token == op.view_token
}

/// Count the resend-audit rows matching the given shape: for
/// `by_participant`, individual rows whose participant is `id`;
/// otherwise bulk rows whose game is `id`; in both cases only rows after
/// `since`, when one is given.
fn count_resends(
    rs: &Vec<ResendRecord>,
    id: &str,
    by_participant: bool,
    kind_name: &str,
    since: Option<i64>,
) -> (c: usize)
    requires
        by_participant ==> kind_name@ == "individual"@,
        !by_participant ==> kind_name@ == "bulk"@,
    ensures
        by_participant && since is None ==> c == rs@.filter(individual_resend(id@)).len(),
        since matches Some(s) ==> (by_participant ==> c == rs@.filter(
            individual_resend_since(id@, s),
        ).len()),
        !by_participant && since is None ==> c == rs@.filter(bulk_resend(id@)).len(),
        since matches Some(s) ==> (!by_participant ==> c == rs@.filter(
            bulk_resend_since(id@, s),
        ).len()),
{
    let mut c: usize = 0;
    let n = rs.len();
    proof {
        reveal_with_fuel(Seq::filter, 2);
    }
    for k in 0..n
        invariant
            n == rs@.len(),
            c <= k,
            by_participant ==> kind_name@ == "individual"@,
            !by_participant ==> kind_name@ == "bulk"@,
            by_participant && since is None ==> c == rs@.take(k as int).filter(
                individual_resend(id@),
            ).len(),
            since matches Some(s) ==> (by_participant ==> c == rs@.take(k as int).filter(
                individual_resend_since(id@, s),
            ).len()),
            !by_participant && since is None ==> c == rs@.take(k as int).filter(
                bulk_resend(id@),
            ).len(),
            since matches Some(s) ==> (!by_participant ==> c == rs@.take(k as int).filter(
                bulk_resend_since(id@, s),
            ).len()),
    {
        let rec = &rs[k];
        let id_matches = if by_participant {
            match &rec.participant_id {
                Some(p) => str_eq(p.as_str(), id),
                None => false,
            }
        } else {
            str_eq(rec.game_id.as_str(), id) && rec.participant_id.is_none()
        };
        let time_ok = match since {
            Some(s) => rec.resent_at > s,
            None => true,
        };
        if id_matches && time_ok && str_eq(rec.resend_type.as_str(), kind_name) {
            c = c + 1;
        }
        proof {
            let e = rs@[k as int];
            if by_participant {
                match since {
                    Some(s) => {
                        rs@.take(k as int).lemma_filter_push(e, individual_resend_since(id@, s));
                        Seq::lemma_filter_len_push(
                            rs@.take(k as int),
                            individual_resend_since(id@, s),
                            e,
                        );
                    },
                    None => {
                        rs@.take(k as int).lemma_filter_push(e, individual_resend(id@));
                        Seq::lemma_filter_len_push(rs@.take(k as int), individual_resend(id@), e);
                    },
                }
            } else {
                match since {
                    Some(s) => {
                        rs@.take(k as int).lemma_filter_push(e, bulk_resend_since(id@, s));
                        Seq::lemma_filter_len_push(rs@.take(k as int), bulk_resend_since(id@, s), e);
                    },
                    None => {
                        rs@.take(k as int).lemma_filter_push(e, bulk_resend(id@));
                        Seq::lemma_filter_len_push(rs@.take(k as int), bulk_resend(id@), e);
                    },
                }
            }
            assert(rs@.take(k + 1) =~= rs@.take(k as int).push(e));
        }
    }
    assert(rs@.take(n as int) =~= rs@);
    c
}

/// Law: a successful draw is terminal.  Once `draw_applied(pre, post,
/// gid, mv)` holds of an existing game, the game is drawn in `post`; by
/// [`GameStore::draw`]'s contract a later `draw` of the same game then
/// answers `AlreadyDrawn` and leaves every row unchanged.  In
/// particular, of two serialized draws of one game at most one succeeds,
/// and the assignment that remains is the successful call's.
pub proof fn lemma_draw_is_terminal(
    pre: GameStore,
    post: GameStore,
    gid: Seq<char>,
    mv: Seq<(Seq<char>, Seq<char>)>,
)
    requires
        has_game(pre.games_seq(), gid),
        draw_applied(pre, post, gid, mv),
    ensures
        game_drawn(post.games_seq(), gid),
{
    let w = choose|w: int|
        0 <= w < pre.games_seq().len() && (#[trigger] pre.games_seq()[w]).id@ == gid;
    assert(drawn_version(post.games_seq()[w], pre.games_seq()[w]));
}

/// Law: a draw writes only the drawn game.  Games other than `gid`, and
/// participants of other games, are exactly as they were; so a
/// concurrent draw of a different game can never disturb this one.
pub proof fn lemma_draw_touches_only_its_game(
    pre: GameStore,
    post: GameStore,
    gid: Seq<char>,
    mv: Seq<(Seq<char>, Seq<char>)>,
)
    requires
        draw_applied(pre, post, gid, mv),
    ensures
        forall|k: int|
            0 <= k < pre.games_seq().len() && (#[trigger] pre.games_seq()[k]).id@ != gid
                ==> post.games_seq()[k] == pre.games_seq()[k],
        forall|k: int|
            0 <= k < pre.participants_seq().len() && (#[trigger] pre.participants_seq()[k]).game_id@
                != gid ==> post.participants_seq()[k] == pre.participants_seq()[k],
{
}

/// A successful draw of `gid` can be applied: every participant of the
/// game has a giver entry in the assignment, and every receiver of the
/// assignment is a participant of the game.
proof fn draw_application_admissible(
    ops: Seq<Participant>,
    gid: Seq<char>,
    parts: Seq<Participant>,
    mv: Seq<(Seq<char>, Seq<char>)>,
    m: Seq<(String, String)>,
)
    requires
        parts == spec_participants_of(ops, gid),
        forall|j: int| 0 <= j < parts.len() ==> ops.contains(#[trigger] parts[j]),
        valid_matching(mv, participant_ids(parts)),
        mv == pair_views(m),
    ensures
        forall|k: int|
            0 <= k < ops.len() && (#[trigger] ops[k]).game_id@ == gid ==> exists|i: int|
                0 <= i < m.len() && (#[trigger] m[i]).0@ == ops[k].id@,
        forall|x: Seq<char>|
            #[trigger] receivers(mv).contains(x) ==> exists|l: int|
                0 <= l < ops.len() && (#[trigger] ops[l]).id@ == x && ops[l].game_id@ == gid,
{
    broadcast use group_seq_properties;
    broadcast use vstd::seq_lib::group_to_multiset_ensures;

    let ids = participant_ids(parts);
    assert forall|k: int|
        0 <= k < ops.len() && (#[trigger] ops[k]).game_id@ == gid implies exists|i: int|
        0 <= i < m.len() && (#[trigger] m[i]).0@ == ops[k].id@ by {
        assert(in_game(gid)(ops[k]));
        ops.lemma_filter_contains(in_game(gid), k);
        let j = choose|j: int| 0 <= j < parts.len() && #[trigger] parts[j] == ops[k];
        assert(mv[j].0 == ids[j]);
        assert(mv[j].0 == m[j].0@);
        assert(ids[j] == parts[j].id@);
    }
    assert forall|x: Seq<char>| #[trigger] receivers(mv).contains(x) implies exists|l: int|
        0 <= l < ops.len() && (#[trigger] ops[l]).id@ == x && ops[l].game_id@ == gid by {
        assert(receivers(mv).to_multiset().count(x) > 0);
        assert(ids.to_multiset().count(x) > 0);
        assert(ids.contains(x));
        let j = choose|j: int| 0 <= j < ids.len() && #[trigger] ids[j] == x;
        assert(parts[j].id@ == x);
        ops.lemma_filter_pred(in_game(gid), j);
        assert(parts[j].game_id@ == gid);
        let l = choose|l: int| 0 <= l < ops.len() && #[trigger] ops[l] == parts[j];
        assert(ops[l].id@ == x && ops[l].game_id@ == gid);
    }
}

/// The draw transition keeps the data-model invariant.
proof fn lemma_draw_preserves_wf(
    ogs: Seq<Game>,
    ops: Seq<Participant>,
    ngs: Seq<Game>,
    nps: Seq<Participant>,
    gid: Seq<char>,
    mv: Seq<(Seq<char>, Seq<char>)>,
)
    requires
        store_wf(ogs, ops),
        has_game(ogs, gid),
        ngs.len() == ogs.len(),
        nps.len() == ops.len(),
        forall|k: int| 0 <= k < ogs.len() && (#[trigger] ogs[k]).id@ != gid ==> ngs[k] == ogs[k],
        forall|k: int|
            0 <= k < ogs.len() && (#[trigger] ogs[k]).id@ == gid ==> drawn_version(ngs[k], ogs[k]),
        forall|k: int|
            0 <= k < ops.len() && (#[trigger] ops[k]).game_id@ != gid ==> nps[k] == ops[k],
        forall|k: int|
            0 <= k < ops.len() && (#[trigger] ops[k]).game_id@ == gid ==> updated_with(
                nps[k],
                ops[k],
                mv,
            ),
        forall|i: int| 0 <= i < mv.len() ==> (#[trigger] mv[i]).1 != mv[i].0,
        forall|x: Seq<char>|
            #[trigger] receivers(mv).contains(x) ==> exists|l: int|
                0 <= l < ops.len() && (#[trigger] ops[l]).id@ == x && ops[l].game_id@ == gid,
    ensures
        store_wf(ngs, nps),
{
    assert forall|k: int| 0 <= k < ogs.len() implies (#[trigger] ngs[k]).id@ == ogs[k].id@
        && (ogs[k].id@ != gid ==> ngs[k].drawn == ogs[k].drawn) by {}
    assert forall|k: int| 0 <= k < ops.len() implies (#[trigger] nps[k]).id@ == ops[k].id@
        && nps[k].game_id@ == ops[k].game_id@ && nps[k].view_token@ == ops[k].view_token@ by {}
    assert(game_ids(ngs) =~= game_ids(ogs));
    assert(participant_ids(nps) =~= participant_ids(ops));
    assert(view_tokens(nps) =~= view_tokens(ops));

    // Every participant's game still exists, under the same identifier.
    assert forall|k: int| 0 <= k < nps.len() implies has_game(
        ngs,
        (#[trigger] nps[k]).game_id@,
    ) by {
        let w = choose|w: int| 0 <= w < ogs.len() && (#[trigger] ogs[w]).id@ == ops[k].game_id@;
        assert(ngs[w].id@ == ops[k].game_id@);
    }

    // The drawn flag of a game other than `gid` is unchanged, in both
    // directions of the invariant's equivalence.
    assert forall|id: Seq<char>| id != gid implies (game_drawn(ngs, id) <==> game_drawn(
        ogs,
        id,
    )) by {
        if game_drawn(ogs, id) {
            let w = choose|w: int|
                0 <= w < ogs.len() && (#[trigger] ogs[w]).id@ == id && ogs[w].drawn;
            assert(ngs[w].id@ == id && ngs[w].drawn);
        }
        if game_drawn(ngs, id) {
            let w = choose|w: int|
                0 <= w < ngs.len() && (#[trigger] ngs[w]).id@ == id && ngs[w].drawn;
            assert(ogs[w].id@ == id);
            assert(ogs[w].drawn);
        }
    }
    assert(game_drawn(ngs, gid)) by {
        let w = choose|w: int| 0 <= w < ogs.len() && (#[trigger] ogs[w]).id@ == gid;
        assert(drawn_version(ngs[w], ogs[w]));
    }

    assert forall|k: int|
        0 <= k < nps.len() implies ((#[trigger] nps[k]).matched_with_id is Some <==> game_drawn(
        ngs,
        nps[k].game_id@,
    )) by {
        if ops[k].game_id@ == gid {
            assert(updated_with(nps[k], ops[k], mv));
        } else {
            assert(nps[k] == ops[k]);
        }
    }

    assert forall|k: int|
        0 <= k < nps.len() implies ((#[trigger] nps[k]).matched_with_id matches Some(x) ==> x@
        != nps[k].id@ && participant_in_game(nps, x@, nps[k].game_id@)) by {
        if nps[k].matched_with_id is Some {
            let x = nps[k].matched_with_id->0;
            if ops[k].game_id@ == gid {
                assert(updated_with(nps[k], ops[k], mv));
                let i = choose|i: int|
                    0 <= i < mv.len() && (#[trigger] mv[i]).0 == ops[k].id@ && x@ == mv[i].1;
                assert(x@ != ops[k].id@);
                assert(receivers(mv)[i] == mv[i].1);
                assert(receivers(mv).contains(x@));
                let l = choose|l: int|
                    0 <= l < ops.len() && (#[trigger] ops[l]).id@ == x@ && ops[l].game_id@ == gid;
                assert(nps[l].id@ == x@ && nps[l].game_id@ == gid);
            } else {
                assert(nps[k] == ops[k]);
                let l = choose|l: int|
                    0 <= l < ops.len() && (#[trigger] ops[l]).id@ == x@ && ops[l].game_id@
                        == ops[k].game_id@;
                assert(nps[l].id@ == x@ && nps[l].game_id@ == ops[k].game_id@);
            }
        }
    }
}

/// Whether some verification row already carries the identifier `id`.
fn verification_id_taken(vs: &Vec<EmailVerification>, id: &str) -> (r: bool)
    ensures
        !r ==> forall|j: int| 0 <= j < vs@.len() ==> (#[trigger] vs@[j]).id@ != id@,
        r ==> exists|j: int| 0 <= j < vs@.len() && (#[trigger] vs@[j]).id@ == id@,
{
    let n = vs.len();
    for k in 0..n
        invariant
            n == vs@.len(),
            forall|j: int| 0 <= j < k ==> (#[trigger] vs@[j]).id@ != id@,
    {
        if str_eq(vs[k].id.as_str(), id) {
            return true;
        }
    }
    false
}

/// `nv` is `ov` with one more attempt counted (saturating at the
/// integer's limit) and every other field unchanged.
pub open spec fn attempts_bumped(nv: EmailVerification, ov: EmailVerification) -> bool {
    &&& nv.id == ov.id
    &&& nv.email == ov.email
    &&& nv.code == ov.code
    &&& nv.game_name == ov.game_name
    &&& nv.event_date == ov.event_date
    &&& nv.created_at == ov.created_at
    &&& nv.expires_at == ov.expires_at
    &&& nv.verified == ov.verified
    &&& nv.attempts == if ov.attempts < i32::MAX {
        ov.attempts + 1
    } else {
        ov.attempts as int
    }
}

/// `nv` is `ov` marked verified, every other field unchanged.
pub open spec fn marked_verified(nv: EmailVerification, ov: EmailVerification) -> bool {
    &&& nv.id == ov.id
    &&& nv.email == ov.email
    &&& nv.code == ov.code
    &&& nv.game_name == ov.game_name
    &&& nv.event_date == ov.event_date
    &&& nv.created_at == ov.created_at
    &&& nv.expires_at == ov.expires_at
    &&& nv.verified
    &&& nv.attempts == ov.attempts
}

/// `nv` is `ov` with a fresh code and lifetime and the attempt counter
/// reset, every other field unchanged.
pub open spec fn recoded(
    nv: EmailVerification,
    ov: EmailVerification,
    code: Seq<char>,
    expires_at: i64,
) -> bool {
    &&& nv.id == ov.id
    &&& nv.email == ov.email
    &&& nv.code@ == code
    &&& nv.game_name == ov.game_name
    &&& nv.event_date == ov.event_date
    &&& nv.created_at == ov.created_at
    &&& nv.expires_at == expires_at
    &&& nv.verified == ov.verified
    &&& nv.attempts == 0
}

/// A verification row for the given email address created after
/// `since`.
pub open spec fn verification_for_email_since(email: Seq<char>, since: i64) -> spec_fn(
    EmailVerification,
) -> bool {
    |v: EmailVerification| v.email@ == email && v.created_at > since
}

/// A verification row the expiry cleanup keeps at time `now`: not yet
/// expired, or already spent.
pub open spec fn verification_kept_at(now: i64) -> spec_fn(EmailVerification) -> bool {
    |v: EmailVerification| !(v.expires_at < now && !v.verified)
}

/// Every element of a filtered sequence is an element of the original.
proof fn lemma_filter_is_subset<A>(s: Seq<A>, pred: spec_fn(A) -> bool)
    ensures
        forall|j: int| 0 <= j < s.filter(pred).len() ==> s.contains(#[trigger] s.filter(pred)[j]),
    decreases s.len(),
{
    reveal_with_fuel(Seq::filter, 2);
    if s.len() == 0 {
    } else {
        let dl = s.drop_last();
        lemma_filter_is_subset(dl, pred);
        assert forall|j: int| 0 <= j < s.filter(pred).len() implies s.contains(
            #[trigger] s.filter(pred)[j],
        ) by {
            if pred(s.last()) {
                assert(s.filter(pred) == dl.filter(pred).push(s.last()));
                if j < dl.filter(pred).len() {
                    let x = dl.filter(pred)[j];
                    assert(dl.contains(x));
                    let i = choose|i: int| 0 <= i < dl.len() && dl[i] == x;
                    assert(s[i] == x);
                } else {
                    assert(s[s.len() - 1] == s.filter(pred)[j]);
                }
            } else {
                assert(s.filter(pred) == dl.filter(pred));
                let x = dl.filter(pred)[j];
                assert(dl.contains(x));
                let i = choose|i: int| 0 <= i < dl.len() && dl[i] == x;
                assert(s[i] == x);
            }
        }
    }
}

/// Filtering keeps a projection free of duplicates: if `f` maps the
/// elements of `s` to pairwise distinct values, the same holds of any
/// filtered subsequence.
proof fn lemma_filter_map_no_duplicates<A, B>(s: Seq<A>, pred: spec_fn(A) -> bool, f: spec_fn(
    A,
) -> B)
    requires
        s.map_values(f).no_duplicates(),
    ensures
        s.filter(pred).map_values(f).no_duplicates(),
    decreases s.len(),
{
    reveal_with_fuel(Seq::filter, 2);
    if s.len() == 0 {
    } else {
        let dl = s.drop_last();
        assert(dl.map_values(f) =~= s.map_values(f).drop_last());
        assert(dl.map_values(f).no_duplicates());
        lemma_filter_map_no_duplicates(dl, pred, f);
        if pred(s.last()) {
            assert(s.filter(pred) == dl.filter(pred).push(s.last()));
            let base = dl.filter(pred).map_values(f);
            assert(s.filter(pred).map_values(f) =~= base.push(f(s.last())));
            assert forall|i: int| 0 <= i < base.len() implies base[i] != f(s.last()) by {
                let y = dl.filter(pred)[i];
                lemma_filter_is_subset(dl, pred);
                assert(dl.contains(y));
                let w = choose|w: int| 0 <= w < dl.len() && dl[w] == y;
                assert(s.map_values(f)[w] == f(y));
                assert(s.map_values(f)[s.len() - 1] == f(s.last()));
            }
        } else {
            assert(s.filter(pred) == dl.filter(pred));
        }
    }
}

/// Deleting the game `gid` with its participants keeps the data-model
/// invariant.
proof fn lemma_delete_preserves_wf(gs: Seq<Game>, ps: Seq<Participant>, gid: Seq<char>)
    requires
        store_wf(gs, ps),
    ensures
        store_wf(gs.filter(other_game(gid)), ps.filter(not_in_game(gid))),
{
    let ngs = gs.filter(other_game(gid));
    let nps = ps.filter(not_in_game(gid));
    lemma_filter_is_subset(gs, other_game(gid));
    lemma_filter_is_subset(ps, not_in_game(gid));
    assert(game_ids(ngs).no_duplicates()) by {
        lemma_filter_map_no_duplicates(gs, other_game(gid), |g: Game| g.id@);
        assert(gs.map_values(|g: Game| g.id@) == game_ids(gs));
        assert(ngs.map_values(|g: Game| g.id@) == game_ids(ngs));
    }
    assert(participant_ids(nps).no_duplicates()) by {
        lemma_filter_map_no_duplicates(ps, not_in_game(gid), |p: Participant| p.id@);
        assert(ps.map_values(|p: Participant| p.id@) == participant_ids(ps));
        assert(nps.map_values(|p: Participant| p.id@) == participant_ids(nps));
    }
    assert(view_tokens(nps).no_duplicates()) by {
        lemma_filter_map_no_duplicates(ps, not_in_game(gid), |p: Participant| p.view_token@);
        assert(ps.map_values(|p: Participant| p.view_token@) == view_tokens(ps));
        assert(nps.map_values(|p: Participant| p.view_token@) == view_tokens(nps));
    }
    assert forall|k: int| 0 <= k < nps.len() implies has_game(
        ngs,
        (#[trigger] nps[k]).game_id@,
    ) by {
        let y = nps[k];
        ps.lemma_filter_pred(not_in_game(gid), k);
        assert(ps.contains(y));
        let l = choose|l: int| 0 <= l < ps.len() && ps[l] == y;
        assert(has_game(gs, ps[l].game_id@));
        let w = choose|w: int| 0 <= w < gs.len() && (#[trigger] gs[w]).id@ == y.game_id@;
        assert(other_game(gid)(gs[w]));
        gs.lemma_filter_contains(other_game(gid), w);
        assert(ngs.contains(gs[w]));
        let v = choose|v: int| 0 <= v < ngs.len() && ngs[v] == gs[w];
        assert(ngs[v].id@ == y.game_id@);
    }
    assert forall|id: Seq<char>| id != gid implies (game_drawn(ngs, id) <==> game_drawn(
        gs,
        id,
    )) by {
        if game_drawn(gs, id) {
            let w = choose|w: int|
                0 <= w < gs.len() && (#[trigger] gs[w]).id@ == id && gs[w].drawn;
            assert(other_game(gid)(gs[w]));
            gs.lemma_filter_contains(other_game(gid), w);
            let v = choose|v: int| 0 <= v < ngs.len() && ngs[v] == gs[w];
            assert(ngs[v].id@ == id && ngs[v].drawn);
        }
        if game_drawn(ngs, id) {
            let v = choose|v: int|
                0 <= v < ngs.len() && (#[trigger] ngs[v]).id@ == id && ngs[v].drawn;
            assert(gs.contains(ngs[v]));
            let w = choose|w: int| 0 <= w < gs.len() && gs[w] == ngs[v];
            assert(gs[w].id@ == id && gs[w].drawn);
        }
    }
    assert forall|k: int|
        0 <= k < nps.len() implies ((#[trigger] nps[k]).matched_with_id is Some <==> game_drawn(
        ngs,
        nps[k].game_id@,
    )) by {
        let y = nps[k];
        ps.lemma_filter_pred(not_in_game(gid), k);
        assert(ps.contains(y));
        let l = choose|l: int| 0 <= l < ps.len() && ps[l] == y;
        assert(ps[l].matched_with_id is Some <==> game_drawn(gs, ps[l].game_id@));
        assert(y.game_id@ != gid);
    }
    assert forall|k: int|
        0 <= k < nps.len() implies ((#[trigger] nps[k]).matched_with_id matches Some(x) ==> x@
        != nps[k].id@ && participant_in_game(nps, x@, nps[k].game_id@)) by {
        let y = nps[k];
        ps.lemma_filter_pred(not_in_game(gid), k);
        assert(ps.contains(y));
        if y.matched_with_id is Some {
            let x = y.matched_with_id->0;
            let l = choose|l: int| 0 <= l < ps.len() && ps[l] == y;
            assert(x@ != ps[l].id@ && participant_in_game(ps, x@, ps[l].game_id@));
            let q = choose|q: int|
                0 <= q < ps.len() && (#[trigger] ps[q]).id@ == x@ && ps[q].game_id@ == y.game_id@;
            assert(not_in_game(gid)(ps[q]));
            ps.lemma_filter_contains(not_in_game(gid), q);
            let v = choose|v: int| 0 <= v < nps.len() && nps[v] == ps[q];
            assert(nps[v].id@ == x@ && nps[v].game_id@ == y.game_id@);
        }
    }
}

/// Under unique participant identifiers, two positions holding the same
/// identifier are the same position.
proof fn lemma_unique_participant_index(ps: Seq<Participant>)
    requires
        participant_ids(ps).no_duplicates(),
    ensures
        forall|i: int, j: int|
            0 <= i < ps.len() && 0 <= j < ps.len() && (#[trigger] ps[i]).id@ == (
            #[trigger] ps[j]).id@ ==> i == j,
{
    assert forall|i: int, j: int|
        0 <= i < ps.len() && 0 <= j < ps.len() && (#[trigger] ps[i]).id@ == (
        #[trigger] ps[j]).id@ implies i == j by {
        assert(participant_ids(ps)[i] == ps[i].id@);
        assert(participant_ids(ps)[j] == ps[j].id@);
    }
}

/// Under unique view tokens, two positions holding the same token are
/// the same position.
proof fn lemma_unique_token_index(ps: Seq<Participant>)
    requires
        view_tokens(ps).no_duplicates(),
    ensures
        forall|i: int, j: int|
            0 <= i < ps.len() && 0 <= j < ps.len() && (#[trigger] ps[i]).view_token@ == (
            #[trigger] ps[j]).view_token@ ==> i == j,
{
    assert forall|i: int, j: int|
        0 <= i < ps.len() && 0 <= j < ps.len() && (#[trigger] ps[i]).view_token@ == (
        #[trigger] ps[j]).view_token@ implies i == j by {
        assert(view_tokens(ps)[i] == ps[i].view_token@);
        assert(view_tokens(ps)[j] == ps[j].view_token@);
    }
}

/// Under unique game identifiers, two positions holding the same
/// identifier are the same position.
proof fn lemma_unique_game_index(gs: Seq<Game>, id: Seq<char>)
    requires
        game_ids(gs).no_duplicates(),
    ensures
        forall|i: int, j: int|
            0 <= i < gs.len() && 0 <= j < gs.len() && (#[trigger] gs[i]).id@ == id
                && (#[trigger] gs[j]).id@ == id ==> i == j,
{
    assert forall|i: int, j: int|
        0 <= i < gs.len() && 0 <= j < gs.len() && (#[trigger] gs[i]).id@ == id
            && (#[trigger] gs[j]).id@ == id implies i == j by {
        assert(game_ids(gs)[i] == gs[i].id@);
        assert(game_ids(gs)[j] == gs[j].id@);
    }
}

/// Whether inserting `participant` would collide with an existing row's
/// identifier or view token.
fn conflicts_with(ps: &Vec<Participant>, participant: &Participant) -> (r: bool)
    ensures
        r == participant_conflicts(ps@, *participant),
{
    let n = ps.len();
    for k in 0..n
        invariant
            n == ps@.len(),
            forall|j: int|
                0 <= j < k ==> (#[trigger] ps@[j]).id@ != participant.id@ && ps@[j].view_token@
                    != participant.view_token@,
    {
        if str_eq(ps[k].id.as_str(), participant.id.as_str()) {
            proof {
                assert(ps@[k as int].id@ == participant.id@);
            }
            return true;
        }
        if str_eq(ps[k].view_token.as_str(), participant.view_token.as_str()) {
            proof {
                assert(ps@[k as int].view_token@ == participant.view_token@);
            }
            return true;
        }
    }
    false
}

/// The participants of `gid`, copied out in creation order.
fn participants_of(ps: &Vec<Participant>, gid: &str) -> (r: Vec<Participant>)
    ensures
        r@ == spec_participants_of(ps@, gid@),
        forall|j: int| 0 <= j < r@.len() ==> ps@.contains(#[trigger] r@[j]),
{
    let mut r: Vec<Participant> = Vec::new();
    let n = ps.len();
    proof {
        reveal_with_fuel(Seq::filter, 2);
        assert(r@ =~= spec_participants_of(ps@.take(0), gid@));
    }
    for k in 0..n
        invariant
            n == ps@.len(),
            r@ == spec_participants_of(ps@.take(k as int), gid@),
            forall|j: int| 0 <= j < r@.len() ==> ps@.contains(#[trigger] r@[j]),
    {
        if str_eq(ps[k].game_id.as_str(), gid) {
            r.push(ps[k].duplicate());
            proof {
                assert(ps@[k as int] == r@[r@.len() - 1]);
                ps@.lemma_index_contains(k as int);
            }
        }
        proof {
            ps@.take(k as int).lemma_filter_push(ps@[k as int], in_game(gid@));
            assert(ps@.take(k + 1) =~= ps@.take(k as int).push(ps@[k as int]));
        }
    }
    assert(ps@.take(n as int) =~= ps@);
    r
}

/// How many participants of `ps` belong to `gid`.
fn count_in_game(ps: &Vec<Participant>, gid: &str) -> (c: usize)
    ensures
        c == spec_participants_of(ps@, gid@).len(),
{
    let mut c: usize = 0;
    let n = ps.len();
    proof {
        reveal_with_fuel(Seq::filter, 2);
        assert(spec_participants_of(ps@.take(0), gid@) =~= Seq::<Participant>::empty());
    }
    for k in 0..n
        invariant
            n == ps@.len(),
            c <= k,
            c == spec_participants_of(ps@.take(k as int), gid@).len(),
    {
        if str_eq(ps[k].game_id.as_str(), gid) {
            c = c + 1;
        }
        proof {
            ps@.take(k as int).lemma_filter_push(ps@[k as int], in_game(gid@));
            Seq::lemma_filter_len_push(ps@.take(k as int), in_game(gid@), ps@[k as int]);
            assert(ps@.take(k + 1) =~= ps@.take(k as int).push(ps@[k as int]));
        }
    }
    assert(ps@.take(n as int) =~= ps@);
    c
}

/// The recipient the assignment pairs with the giver `id`, if any.
fn find_receiver(m: &Vec<(String, String)>, id: &str) -> (r: Option<String>)
    ensures
        match r {
            Some(x) => exists|i: int|
                0 <= i < m@.len() && (#[trigger] m@[i]).0@ == id@ && x@ == m@[i].1@,
            None => forall|i: int| 0 <= i < m@.len() ==> (#[trigger] m@[i]).0@ != id@,
        },
{
    let n = m.len();
    for k in 0..n
        invariant
            n == m@.len(),
            forall|j: int| 0 <= j < k ==> (#[trigger] m@[j]).0@ != id@,
    {
        if str_eq(m[k].0.as_str(), id) {
            return Some(m[k].1.clone());
        }
    }
    None
}

/// Write the assignment `m` into the participants of `gid`, leaving all
/// other rows untouched.
fn apply_matches(ps: &Vec<Participant>, gid: &str, m: &Vec<(String, String)>) -> (r: Vec<
    Participant,
>)
    requires
        forall|k: int|
            0 <= k < ps@.len() && (#[trigger] ps@[k]).game_id@ == gid@ ==> exists|i: int|
                0 <= i < m@.len() && (#[trigger] m@[i]).0@ == ps@[k].id@,
    ensures
        r@.len() == ps@.len(),
        forall|k: int|
            0 <= k < ps@.len() && (#[trigger] ps@[k]).game_id@ != gid@ ==> r@[k] == ps@[k],
        forall|k: int|
            0 <= k < ps@.len() && (#[trigger] ps@[k]).game_id@ == gid@ ==> updated_with(
                r@[k],
                ps@[k],
                pair_views(m@),
            ),
{
    let mut r: Vec<Participant> = Vec::new();
    let n = ps.len();
    for k in 0..n
        invariant
            n == ps@.len(),
            r@.len() == k,
            forall|l: int|
                0 <= l < ps@.len() && (#[trigger] ps@[l]).game_id@ == gid@ ==> exists|i: int|
                    0 <= i < m@.len() && (#[trigger] m@[i]).0@ == ps@[l].id@,
            forall|j: int|
                0 <= j < k && (#[trigger] ps@[j]).game_id@ != gid@ ==> r@[j] == ps@[j],
            forall|j: int|
                0 <= j < k && (#[trigger] ps@[j]).game_id@ == gid@ ==> updated_with(
                    r@[j],
                    ps@[j],
                    pair_views(m@),
                ),
    {
        let p = &ps[k];
        if str_eq(p.game_id.as_str(), gid) {
            let recv = match find_receiver(m, p.id.as_str()) {
                Some(x) => x,
                None => {
                    proof {
                        assert(false);
                    }
                    vstd::pervasive::unreached()
                },
            };
            let np = Participant {
                id: p.id.clone(),
                game_id: p.game_id.clone(),
                name: p.name.clone(),
                email: p.email.clone(),
                matched_with_id: Some(recv),
                view_token: p.view_token.duplicate(),
                has_viewed: p.has_viewed,
                created_at: p.created_at,
            };
            proof {
                let mv = pair_views(m@);
                let i = choose|i: int|
                    0 <= i < m@.len() && (#[trigger] m@[i]).0@ == ps@[k as int].id@ && np.matched_with_id->0@
                        == m@[i].1@;
                assert(mv[i].0 == m@[i].0@);
                assert(mv[i].1 == m@[i].1@);
                assert(updated_with(np, ps@[k as int], mv));
            }
            r.push(np);
        } else {
            r.push(p.duplicate());
        }
    }
    r
}

/// Set the drawn flag of `gid`, leaving every other row untouched.
fn mark_drawn(gs: &Vec<Game>, gid: &str) -> (r: Vec<Game>)
    ensures
        r@.len() == gs@.len(),
        forall|k: int| 0 <= k < gs@.len() && (#[trigger] gs@[k]).id@ != gid@ ==> r@[k] == gs@[k],
        forall|k: int|
            0 <= k < gs@.len() && (#[trigger] gs@[k]).id@ == gid@ ==> drawn_version(r@[k], gs@[k]),
{
    let mut r: Vec<Game> = Vec::new();
    let n = gs.len();
    for k in 0..n
        invariant
            n == gs@.len(),
            r@.len() == k,
            forall|j: int| 0 <= j < k && (#[trigger] gs@[j]).id@ != gid@ ==> r@[j] == gs@[j],
            forall|j: int|
                0 <= j < k && (#[trigger] gs@[j]).id@ == gid@ ==> drawn_version(r@[j], gs@[j]),
    {
        let g = &gs[k];
        if str_eq(g.id.as_str(), gid) {
            r.push(
                Game {
                    id: g.id.clone(),
                    name: g.name.clone(),
                    event_date: g.event_date.clone(),
                    organizer_email: g.organizer_email.clone(),
                    admin_token: g.admin_token.duplicate(),
                    created_at: g.created_at,
                    drawn: true,
                },
            );
        } else {
            r.push(g.duplicate());
        }
    }
    r
}

/// The position of the game carrying `game_id`, if any.
fn find_game_index(games: &Vec<Game>, game_id: &str) -> (r: Option<usize>)
    ensures
        match r {
            Some(k) => k < games@.len() && games@[k as int].id@ == game_id@,
            None => forall|j: int| 0 <= j < games@.len() ==> (#[trigger] games@[j]).id@ != game_id@,
        },
{
    let n = games.len();
    for k in 0..n
        invariant
            n == games@.len(),
            forall|j: int| 0 <= j < k ==> (#[trigger] games@[j]).id@ != game_id@,
    {
        if str_eq(games[k].id.as_str(), game_id) {
            return Some(k);
        }
    }
    None
}

} // verus!

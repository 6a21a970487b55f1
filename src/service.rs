//! The server's side of the protocol: registration, challenge issuance, and
//! verification, over a user store and a session store.
use vstd::prelude::*;
use crate::arith::pow_mod;
use crate::error::AuthError;
use crate::num::{num_random_below, Num};
use crate::params::{is_unsigned_field, GroupParameters};
use crate::parse::{decimal_value, parse_signed, parse_unsigned};
use crate::protocol::accepts;
use crate::random::random_token;
use crate::table::Table;

verus! {

/// The public commitments `y1 = g^x mod p`, `y2 = h^x mod p` of a user.
#[derive(Debug, Clone, PartialEq, Eq)]
pub struct UserKeys {
    pub y1: Num,
    pub y2: Num,
}

/// One authentication attempt: the user, the ephemeral commitments
/// `r1 = g^k mod p`, `r2 = h^k mod p`, and the challenge `c`.
pub struct Session {
    pub user: String,
    pub r1: Num,
    pub r2: Num,
    pub c: Num,
}

/// The outcome of a well-formed verification request.
pub enum Verdict {
    /// The proof holds; the value is a fresh session token.
    Accepted(String),
    /// The recomputed commitments differ from the stored ones.
    Rejected,
}

/// The server's state: the group, the registered users, and the open sessions.
pub struct AuthService {
    params: GroupParameters,
    users: Table<UserKeys>,
    sessions: Table<Session>,
}

impl AuthService {
    /// A usable group, and stores whose keys are distinct.
    pub closed spec fn wf(&self) -> bool {
        &&& self.params.wf()
        &&& self.users.wf()
        &&& self.sessions.wf()
    }

    /// The group parameters.
    pub closed spec fn params_view(&self) -> GroupParameters {
        self.params
    }

    /// The registered users and their commitments.
    pub closed spec fn users_view(&self) -> Map<Seq<char>, UserKeys> {
        self.users@
    }

    /// The open sessions, by authentication id.
    pub closed spec fn sessions_view(&self) -> Map<Seq<char>, Session> {
        self.sessions@
    }

    /// Whether response `s` proves the user's commitments against `session`.
    pub open spec fn proves(&self, keys: UserKeys, session: Session, s: nat) -> bool {
        accepts(
            self.params_view(),
            keys.y1@ as int,
            keys.y2@ as int,
            session.r1@ as int,
            session.r2@ as int,
            session.c@,
            s,
        )
    }

    /// A server over the group `(p, q, g, h)` with no users and no sessions.
    pub fn new(g: Num, h: Num, p: Num, q: Num) -> (r: AuthService)
        requires
            p@ > 1,
            q@ > 0,
        ensures
            r.wf(),
            r.params_view() == (GroupParameters { p, q, g, h }),
            r.users_view() == Map::<Seq<char>, UserKeys>::empty(),
            r.sessions_view() == Map::<Seq<char>, Session>::empty(),
    {
        AuthService {
            params: GroupParameters { p, q, g, h },
            users: Table::new(),
            sessions: Table::new(),
        }
    }

    /// The group parameters.
    pub fn params(&self) -> (r: &GroupParameters)
        ensures
            *r == self.params_view(),
    {
        &self.params
    }

    /// Records the commitments of `user`, replacing any earlier ones.
    pub fn register(&mut self, user: String, y1: Num, y2: Num)
        requires
            old(self).wf(),
        ensures
            final(self).wf(),
            final(self).params_view() == old(self).params_view(),
            final(self).users_view() == old(self).users_view().insert(user@, UserKeys { y1, y2 }),
            final(self).sessions_view() == old(self).sessions_view(),
    {
        self.users.insert(user, UserKeys { y1, y2 });
    }

    /// The commitments registered for `user`, if any.
    pub fn lookup_user(&self, user: &String) -> (r: Option<&UserKeys>)
        requires
            self.wf(),
        ensures
            r is Some <==> self.users_view().contains_key(user@),
            r is Some ==> *r->0 == self.users_view()[user@],
    {
        self.users.get(user)
    }

    /// Opens a session under `auth_id` for `user`, with ephemeral commitments
    /// `(r1, r2)` and challenge `c`. An id already in use is `DuplicateSession`.
    pub fn open_session(&mut self, auth_id: String, user: String, r1: Num, r2: Num, c: Num) -> (r:
        Result<(), AuthError>)
        requires
            old(self).wf(),
        ensures
            final(self).wf(),
            final(self).params_view() == old(self).params_view(),
            final(self).users_view() == old(self).users_view(),
            old(self).sessions_view().contains_key(auth_id@) ==> r == Err::<(), AuthError>(
                AuthError::DuplicateSession,
            ) && final(self).sessions_view() == old(self).sessions_view(),
            !old(self).sessions_view().contains_key(auth_id@) ==> r == Ok::<(), AuthError>(())
                && final(self).sessions_view() == old(self).sessions_view().insert(
                auth_id@,
                Session { user, r1, r2, c },
            ),
    {
        if self.sessions.contains(&auth_id) {
            Err(AuthError::DuplicateSession)
        } else {
            self.sessions.insert(auth_id, Session { user, r1, r2, c });
            Ok(())
        }
    }

    /// What issuing a challenge to `user` with ephemeral commitments values
    /// `r1`, `r2` does, from `pre` to `post` with result `r`: on success a new
    /// session under a fresh 32-character id holds the user, the commitments
    /// and a challenge `c < q`, which is returned with the id; the one failure
    /// is `DuplicateSession`, which leaves the sessions as they were and comes
    /// only where some 32-character id is already in use.
    pub open spec fn challenge_outcome(
        pre: AuthService,
        post: AuthService,
        user: Seq<char>,
        r1: nat,
        r2: nat,
        r: Result<(String, Num), AuthError>,
    ) -> bool {
        &&& post.wf()
        &&& post.params_view() == pre.params_view()
        &&& post.users_view() == pre.users_view()
        &&& match r {
            Ok((auth_id, c)) => {
                let session = post.sessions_view()[auth_id@];
                &&& c@ < pre.params_view().q@
                &&& auth_id@.len() == 32
                &&& !pre.sessions_view().contains_key(auth_id@)
                &&& post.sessions_view() == pre.sessions_view().insert(auth_id@, session)
                &&& session.user@ == user
                &&& session.r1@ == r1
                &&& session.r2@ == r2
                &&& session.c@ == c@
            },
            Err(e) => {
                &&& e == AuthError::DuplicateSession
                &&& post.sessions_view() == pre.sessions_view()
                &&& exists|id: Seq<char>|
                    id.len() == 32 && #[trigger] pre.sessions_view().contains_key(id)
            },
        }
    }

    /// Issues a challenge to `user`: draws `c` uniformly from `[0, q)` and a
    /// fresh random authentication id, and opens the session. Returns the id
    /// and `c`; fails with `DuplicateSession`, leaving the state as it was, only
    /// if the drawn id is already in use.
    pub fn create_authentication_challenge(&mut self, user: String, r1: Num, r2: Num) -> (r: Result<
        (String, Num),
        AuthError,
    >)
        requires
            old(self).wf(),
        ensures
            Self::challenge_outcome(*old(self), *final(self), user@, r1@, r2@, r),
    {
        let c = num_random_below(&self.params.q);
        let c_out = c.copy();
        let auth_id = random_token();
        let id = auth_id.clone();
        let ghost u = user@;
        match self.open_session(auth_id, user, r1, r2, c) {
            Ok(()) => {
                assert(self.sessions_view()[id@].user@ == u);
                Ok((id, c_out))
            },
            Err(e) => {
                assert(old(self).sessions_view().contains_key(id@));
                Err(e)
            },
        }
    }

    /// Takes the session under `auth_id` out of the store, so that it serves
    /// one verification only.
    pub fn consume(&mut self, auth_id: &String) -> (r: Option<Session>)
        requires
            old(self).wf(),
        ensures
            final(self).wf(),
            final(self).params_view() == old(self).params_view(),
            final(self).users_view() == old(self).users_view(),
            final(self).sessions_view() == old(self).sessions_view().remove(auth_id@),
            r is Some <==> old(self).sessions_view().contains_key(auth_id@),
            r is Some ==> r->0 == old(self).sessions_view()[auth_id@],
    {
        self.sessions.remove(auth_id)
    }

    /// Checks response `s` for the session under `auth_id`. An unknown id is
    /// `SessionNotFound` and leaves the state as it was. Otherwise the session
    /// is consumed; if its user is not registered the result is `UserNotFound`,
    /// else whether `(g^s * y1^c) mod p == r1` and `(h^s * y2^c) mod p == r2`.
    pub fn check_response(&mut self, auth_id: &String, s: &Num) -> (r: Result<bool, AuthError>)
        requires
            old(self).wf(),
        ensures
            final(self).wf(),
            final(self).params_view() == old(self).params_view(),
            final(self).users_view() == old(self).users_view(),
            !old(self).sessions_view().contains_key(auth_id@) ==> r == Err::<bool, AuthError>(
                AuthError::SessionNotFound,
            ) && final(self).sessions_view() == old(self).sessions_view(),
            old(self).sessions_view().contains_key(auth_id@) ==> {
                let session = old(self).sessions_view()[auth_id@];
                &&& final(self).sessions_view() == old(self).sessions_view().remove(auth_id@)
                &&& !old(self).users_view().contains_key(session.user@) ==> r == Err::<
                    bool,
                    AuthError,
                >(AuthError::UserNotFound)
                &&& old(self).users_view().contains_key(session.user@) ==> r == Ok::<
                    bool,
                    AuthError,
                >(old(self).proves(old(self).users_view()[session.user@], session, s@))
            },
    {
        let session = match self.consume(auth_id) {
            Some(session) => session,
            None => return Err(AuthError::SessionNotFound),
        };
        let keys = match self.lookup_user(&session.user) {
            Some(keys) => keys,
            None => return Err(AuthError::UserNotFound),
        };
        let p = &self.params.p;
        let r1p = pow_mod(&self.params.g, s, &keys.y1, &session.c, p);
        let r2p = pow_mod(&self.params.h, s, &keys.y2, &session.c, p);
        Ok(r1p.eq(&session.r1) && r2p.eq(&session.r2))
    }

    /// What a verification of response `s` under `auth_id` does, from state
    /// `pre` to state `post` with result `r`: an unknown id is
    /// `SessionNotFound` and leaves the sessions as they were; otherwise the
    /// session is consumed, an unregistered user is `UserNotFound`, and the
    /// verdict is `Accepted` with a fresh token exactly when the proof holds.
    pub open spec fn verify_outcome(
        pre: AuthService,
        post: AuthService,
        auth_id: Seq<char>,
        s: nat,
        r: Result<Verdict, AuthError>,
    ) -> bool {
        &&& post.wf()
        &&& post.params_view() == pre.params_view()
        &&& post.users_view() == pre.users_view()
        &&& !pre.sessions_view().contains_key(auth_id) ==> r == Err::<Verdict, AuthError>(
            AuthError::SessionNotFound,
        ) && post.sessions_view() == pre.sessions_view()
        &&& pre.sessions_view().contains_key(auth_id) ==> {
            let session = pre.sessions_view()[auth_id];
            &&& post.sessions_view() == pre.sessions_view().remove(auth_id)
            &&& !pre.users_view().contains_key(session.user@) ==> r == Err::<Verdict, AuthError>(
                AuthError::UserNotFound,
            )
            &&& pre.users_view().contains_key(session.user@) ==> {
                let ok = pre.proves(pre.users_view()[session.user@], session, s);
                &&& ok ==> (r matches Ok(Verdict::Accepted(token)) && token@.len() == 32)
                &&& !ok ==> (r matches Ok(Verdict::Rejected))
            }
        }
    }

    /// Verifies response `s` for the session under `auth_id`, as
    /// `check_response` does, and hands out a fresh session token when the proof
    /// holds.
    pub fn verify_authentication(&mut self, auth_id: &String, s: &Num) -> (r: Result<
        Verdict,
        AuthError,
    >)
        requires
            old(self).wf(),
        ensures
            Self::verify_outcome(*old(self), *final(self), auth_id@, s@, r),
    {
        match self.check_response(auth_id, s) {
            Ok(true) => Ok(Verdict::Accepted(random_token())),
            Ok(false) => Ok(Verdict::Rejected),
            Err(e) => Err(e),
        }
    }

    /// Registers `user` with commitments given as decimal strings; a field that
    /// is not a non-negative integer is `MalformedInput` and registers nothing.
    pub fn register_request(&mut self, user: String, y1: &str, y2: &str) -> (r: Result<(), AuthError>)
        requires
            old(self).wf(),
        ensures
            final(self).wf(),
            final(self).params_view() == old(self).params_view(),
            final(self).sessions_view() == old(self).sessions_view(),
            is_unsigned_field(y1@) && is_unsigned_field(y2@) ==> {
                let keys = final(self).users_view()[user@];
                &&& r == Ok::<(), AuthError>(())
                &&& final(self).users_view() == old(self).users_view().insert(user@, keys)
                &&& keys.y1@ == decimal_value(y1@)->0
                &&& keys.y2@ == decimal_value(y2@)->0
            },
            !(is_unsigned_field(y1@) && is_unsigned_field(y2@)) ==> r == Err::<(), AuthError>(
                AuthError::MalformedInput,
            ) && final(self).users_view() == old(self).users_view(),
    {
        let a = match parse_unsigned(y1) {
            Ok(v) => v,
            Err(e) => return Err(e),
        };
        let b = match parse_unsigned(y2) {
            Ok(v) => v,
            Err(e) => return Err(e),
        };
        self.register(user, a, b);
        Ok(())
    }

    /// Issues a challenge for ephemeral commitments given as decimal strings; a
    /// field that is not a non-negative integer is `MalformedInput` and opens
    /// nothing.
    pub fn challenge_request(&mut self, user: String, r1: &str, r2: &str) -> (r: Result<
        (String, Num),
        AuthError,
    >)
        requires
            old(self).wf(),
        ensures
            is_unsigned_field(r1@) && is_unsigned_field(r2@) ==> Self::challenge_outcome(
                *old(self),
                *final(self),
                user@,
                decimal_value(r1@)->0 as nat,
                decimal_value(r2@)->0 as nat,
                r,
            ),
            !(is_unsigned_field(r1@) && is_unsigned_field(r2@)) ==> r == Err::<
                (String, Num),
                AuthError,
            >(AuthError::MalformedInput) && *final(self) == *old(self),
    {
        let a = match parse_unsigned(r1) {
            Ok(v) => v,
            Err(e) => return Err(e),
        };
        let b = match parse_unsigned(r2) {
            Ok(v) => v,
            Err(e) => return Err(e),
        };
        self.create_authentication_challenge(user, a, b)
    }

    /// Verifies a response given as a decimal string. One that is not an
    /// integer is `MalformedInput` and a negative one `InvalidArgument`; both
    /// change nothing.
    pub fn answer_request(&mut self, auth_id: &String, s: &str) -> (r: Result<Verdict, AuthError>)
        requires
            old(self).wf(),
        ensures
            match decimal_value(s@) {
                Some(v) => if v < 0 {
                    r == Err::<Verdict, AuthError>(AuthError::InvalidArgument) && *final(self)
                        == *old(self)
                } else {
                    Self::verify_outcome(*old(self), *final(self), auth_id@, v as nat, r)
                },
                None => r == Err::<Verdict, AuthError>(AuthError::MalformedInput) && *final(self)
                    == *old(self),
            },
    {
        match parse_signed(s) {
            Ok((negative, n)) => if negative {
                Err(AuthError::InvalidArgument)
            } else {
                self.verify_authentication(auth_id, &n)
            },
            Err(e) => Err(e),
        }
    }
}

/// Registering a user again replaces the earlier commitments: after two
/// registrations of `user` the store is what the latest one alone makes of it,
/// so a later verification, which reads the store under the session's user,
/// sees only the latest commitments.
pub proof fn lemma_reregistration(
    users: Map<Seq<char>, UserKeys>,
    user: Seq<char>,
    first: UserKeys,
    latest: UserKeys,
)
    ensures
        users.insert(user, first).insert(user, latest) == users.insert(user, latest),
        users.insert(user, first).insert(user, latest)[user] == latest,
{
    assert(users.insert(user, first).insert(user, latest) =~= users.insert(user, latest));
}

} // verus!

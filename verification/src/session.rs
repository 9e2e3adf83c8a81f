//! The live sessions: which token owns which session, and by which handle it is reached.
use vstd::prelude::*;
use vstd::string::*;

use crate::auth::opt_int;
use crate::crypto::random_bytes;
use crate::encoding::{base64url, encode_url, is_url_safe, lemma_base64url};
use crate::string_map::StringMap;
use crate::text::{same, texts};

verus! {

/// A live session: the token that owns it, when that token expires, and its shell.
struct Session<S> {
    token_jti: String,
    expires_at: Option<i64>,
    shell: S,
}

/// What a session stands for.
pub struct SessionView<S> {
    pub token_jti: Seq<char>,
    pub expires_at: Option<int>,
    pub shell: S,
}

impl<S> View for Session<S> {
    type V = SessionView<S>;

    closed spec fn view(&self) -> SessionView<S> {
        SessionView {
            token_jti: self.token_jti@,
            expires_at: opt_int(self.expires_at),
            shell: self.shell,
        }
    }
}

/// The live sessions, by handle and by token.
pub struct SessionStore<S> {
    by_handle: StringMap<Session<S>>,
    by_token: StringMap<String>,
}

/// The state of a [`SessionStore`].
pub struct StoreView<S> {
    /// Every live session, by its handle.
    pub by_handle: Map<Seq<char>, SessionView<S>>,
    /// The handle of each token's session.
    pub by_token: Map<Seq<char>, Seq<char>>,
}

impl<S> View for SessionStore<S> {
    type V = StoreView<S>;

    closed spec fn view(&self) -> StoreView<S> {
        StoreView {
            by_handle: self.by_handle@.map_values(|session: Session<S>| session@),
            by_token: self.by_token@.map_values(|handle: String| handle@),
        }
    }
}

/// The handle of the live session of a token.
pub open spec fn live_handle<S>(store: StoreView<S>, jti: Seq<char>) -> Option<Seq<char>> {
    if store.by_token.dom().contains(jti) && store.by_handle.dom().contains(store.by_token[jti]) {
        Some(store.by_token[jti])
    } else {
        None
    }
}

/// Whether the token of the session under `handle` has expired at `now`.
pub open spec fn session_expired<S>(store: StoreView<S>, handle: Seq<char>, now: int) -> bool {
    match store.by_handle[handle].expires_at {
        Some(expiry) => now >= expiry,
        None => false,
    }
}

/// The sessions with one more.
pub open spec fn with_session<S>(
    store: StoreView<S>,
    handle: Seq<char>,
    session: SessionView<S>,
) -> StoreView<S> {
    StoreView {
        by_handle: store.by_handle.insert(handle, session),
        by_token: store.by_token.insert(session.token_jti, handle),
    }
}

/// The sessions without the one under `handle`.
pub open spec fn without_session<S>(store: StoreView<S>, handle: Seq<char>) -> StoreView<S> {
    if store.by_handle.dom().contains(handle) {
        StoreView {
            by_handle: store.by_handle.remove(handle),
            by_token: store.by_token.remove(store.by_handle[handle].token_jti),
        }
    } else {
        store
    }
}

/// Whether the session under `handle` belongs to the token `jti`.
pub open spec fn owns<S>(store: StoreView<S>, jti: Seq<char>, handle: Seq<char>) -> bool {
    store.by_handle.dom().contains(handle) && store.by_handle[handle].token_jti == jti
}

/// The sessions without those of the token `jti`.
pub open spec fn without_token<S>(store: StoreView<S>, jti: Seq<char>) -> StoreView<S> {
    StoreView {
        by_handle: Map::new(
            |handle: Seq<char>| store.by_handle.dom().contains(handle) && !owns(store, jti, handle),
            |handle: Seq<char>| store.by_handle[handle],
        ),
        by_token: if exists|handle: Seq<char>| owns(store, jti, handle) {
            store.by_token.remove(jti)
        } else {
            store.by_token
        },
    }
}

/// Whether `shells` are the shells of the sessions of the token `jti`, each of them once.
pub open spec fn are_shells_of<S>(store: StoreView<S>, jti: Seq<char>, shells: Seq<S>) -> bool {
    exists|handles: Seq<Seq<char>>| #[trigger]
        lists_owned(store, jti, handles) && shells == shells_under(store, handles)
}

/// Whether `handles` are the handles of the sessions of the token `jti`, each of them once.
pub open spec fn lists_owned<S>(
    store: StoreView<S>,
    jti: Seq<char>,
    handles: Seq<Seq<char>>,
) -> bool {
    &&& handles.no_duplicates()
    &&& forall|handle: Seq<char>| handles.contains(handle) <==> #[trigger] owns(store, jti, handle)
}

/// The shells of the sessions under `handles`.
pub open spec fn shells_under<S>(store: StoreView<S>, handles: Seq<Seq<char>>) -> Seq<S> {
    Seq::new(handles.len(), |i: int| store.by_handle[handles[i]].shell)
}

/// Whether the two maps agree: every token in the one points to a session of its own in the
/// other, and every session is the one that its token points to. So no token has two
/// sessions, and no session is without its token.
pub open spec fn consistent<S>(store: StoreView<S>) -> bool {
    &&& forall|jti: Seq<char>| #[trigger]
        store.by_token.dom().contains(jti) ==> owns(store, jti, store.by_token[jti])
    &&& forall|handle: Seq<char>| #[trigger]
        store.by_handle.dom().contains(handle) ==> store.by_token.dom().contains(
            store.by_handle[handle].token_jti,
        ) && store.by_token[store.by_handle[handle].token_jti] == handle
}

/// The handle made of some random bytes.
pub open spec fn handle_text(random: Seq<u8>) -> Seq<char> {
    base64url(random)
}

/// A fresh handle: 256 random bits in URL-safe base64, 43 characters.
pub(crate) fn strong_handle() -> (handle: String)
    ensures
        exists|random: Seq<u8>| random.len() == 32 && handle@ == #[trigger] handle_text(random),
{
    let random = random_bytes(32);
    let handle = encode_url(&random);
    assert(handle@ == handle_text(random@));
    handle
}

impl<S> SessionStore<S> {
    /// No sessions.
    pub fn new() -> (store: SessionStore<S>)
        ensures
            store@ == (StoreView::<S> { by_handle: Map::empty(), by_token: Map::empty() }),
    {
        let store = SessionStore { by_handle: StringMap::new(), by_token: StringMap::new() };
        assert(store@.by_handle =~= Map::empty());
        assert(store@.by_token =~= Map::empty());
        store
    }

    /// The handle of the live session of the token `jti`.
    pub fn handle_of(&self, jti: &str) -> (r: Option<String>)
        ensures
            match r {
                Some(handle) => live_handle(self@, jti@) == Some(handle@),
                None => live_handle(self@, jti@) is None,
            },
    {
        match self.by_token.get(jti) {
            Some(handle) => {
                if self.by_handle.contains_key(handle.as_str()) {
                    Some(handle.clone())
                } else {
                    None
                }
            },
            None => None,
        }
    }

    /// The shell of the session under `handle`.
    pub fn shell(&self, handle: &str) -> (r: Option<&S>)
        ensures
            match r {
                Some(shell) => self@.by_handle.dom().contains(handle@)
                    && self@.by_handle[handle@].shell == *shell,
                None => !self@.by_handle.dom().contains(handle@),
            },
    {
        match self.by_handle.get(handle) {
            Some(session) => Some(&session.shell),
            None => None,
        }
    }

    /// Whether there is a session under `handle` whose token has expired at `now`.
    pub fn is_expired(&self, handle: &str, now: i64) -> (r: bool)
        ensures
            r == (self@.by_handle.dom().contains(handle@) && session_expired(
                self@,
                handle@,
                now as int,
            )),
    {
        match self.by_handle.get(handle) {
            Some(session) => match session.expires_at {
                Some(expiry) => now >= expiry,
                None => false,
            },
            None => false,
        }
    }

    /// Puts a session under `handle`.
    pub fn open(&mut self, handle: String, token_jti: String, expires_at: Option<i64>, shell: S)
        ensures
            final(self)@ == with_session(
                old(self)@,
                handle@,
                SessionView { token_jti: token_jti@, expires_at: opt_int(expires_at), shell },
            ),
    {
        self.by_token.insert(token_jti.clone(), handle.clone());
        self.by_handle.insert(handle, Session { token_jti, expires_at, shell });
        proof {
            let expected = with_session(
                old(self)@,
                handle@,
                SessionView { token_jti: token_jti@, expires_at: opt_int(expires_at), shell },
            );
            assert(self@.by_handle =~= expected.by_handle);
            assert(self@.by_token =~= expected.by_token);
        }
    }

    /// Takes out the session under `handle`, and hands back its shell.
    pub fn remove(&mut self, handle: &str) -> (r: Option<S>)
        ensures
            final(self)@ == without_session(old(self)@, handle@),
            match r {
                Some(shell) => old(self)@.by_handle.dom().contains(handle@)
                    && old(self)@.by_handle[handle@].shell == shell,
                None => !old(self)@.by_handle.dom().contains(handle@),
            },
    {
        match self.by_handle.remove(handle) {
            Some(session) => {
                let _ = self.by_token.remove(session.token_jti.as_str());
                proof {
                    let expected = without_session(old(self)@, handle@);
                    assert(self@.by_handle =~= expected.by_handle);
                    assert(self@.by_token =~= expected.by_token);
                }
                Some(session.shell)
            },
            None => {
                assert(self@.by_handle =~= old(self)@.by_handle);
                None
            },
        }
    }

    /// Takes out every session of the token `jti`, and hands back their shells.
    pub fn remove_all_of(&mut self, jti: &str) -> (shells: Vec<S>)
        ensures
            final(self)@ == without_token(old(self)@, jti@),
            are_shells_of(old(self)@, jti@, shells@),
    {
        let ghost before = self@;
        let handles = self.by_handle.keys();
        let ghost names = texts(handles@);
        let ghost mut gone: Seq<Seq<char>> = Seq::empty();
        let mut shells: Vec<S> = Vec::new();
        let mut i: usize = 0;
        assert(shells@ =~= shells_under(before, gone));
        proof {
            lemma_nothing_removed(before, jti@, names);
        }
        while i < handles.len()
            invariant
                i <= handles@.len(),
                names == texts(handles@),
                names.no_duplicates(),
                forall|handle: Seq<char>|
                    names.contains(handle) <==> before.by_handle.dom().contains(handle),
                is_partly_removed(before, jti@, names, i as int, self@, gone),
                shells@ == shells_under(before, gone),
            decreases handles@.len() - i,
        {
            let handle = handles[i].as_str();
            assert(names[i as int] == handle@);
            assert(names.contains(handle@));
            let owned = match self.by_handle.get(handle) {
                Some(session) => same(session.token_jti.as_str(), jti),
                None => false,
            };
            proof {
                lemma_not_yet_removed(before, jti@, names, i as int, self@, gone);
                assert(owned == owns(before, jti@, handle@));
            }
            if owned {
                let ghost then = self@;
                match self.remove(handle) {
                    Some(shell) => {
                        shells.push(shell);
                    },
                    None => {
                        assert(false);
                    },
                }
                proof {
                    lemma_remove_one(before, jti@, names, i as int, then, gone);
                    assert(shells@ =~= shells_under(before, gone.push(handle@)));
                    gone = gone.push(handle@);
                }
            } else {
                proof {
                    lemma_skip_one(before, jti@, names, i as int, self@, gone);
                }
            }
            i += 1;
        }
        proof {
            lemma_all_removed(before, jti@, names, self@, gone);
            assert(lists_owned(before, jti@, gone));
        }
        shells
    }
}

/// What holds on the way through [`SessionStore::remove_all_of`], when the first `n` names
/// have been looked at and the sessions under `gone` have been removed.
#[verifier::opaque]
spec fn is_partly_removed<S>(
    before: StoreView<S>,
    jti: Seq<char>,
    names: Seq<Seq<char>>,
    n: int,
    now: StoreView<S>,
    gone: Seq<Seq<char>>,
) -> bool {
    &&& gone.no_duplicates()
    &&& forall|handle: Seq<char>| #[trigger]
        gone.contains(handle) <==> names.take(n).contains(handle) && owns(before, jti, handle)
    &&& forall|handle: Seq<char>| #[trigger]
        now.by_handle.dom().contains(handle) <==> before.by_handle.dom().contains(handle)
            && !gone.contains(handle)
    &&& forall|handle: Seq<char>| #[trigger]
        now.by_handle.dom().contains(handle) ==> now.by_handle[handle] == before.by_handle[handle]
    &&& now.by_token == (if gone.len() > 0 {
        before.by_token.remove(jti)
    } else {
        before.by_token
    })
}

proof fn lemma_nothing_removed<S>(before: StoreView<S>, jti: Seq<char>, names: Seq<Seq<char>>)
    ensures
        is_partly_removed(before, jti, names, 0, before, Seq::empty()),
{
    reveal(is_partly_removed);
}

proof fn lemma_not_yet_removed<S>(
    before: StoreView<S>,
    jti: Seq<char>,
    names: Seq<Seq<char>>,
    n: int,
    now: StoreView<S>,
    gone: Seq<Seq<char>>,
)
    requires
        is_partly_removed(before, jti, names, n, now, gone),
        names.no_duplicates(),
        0 <= n < names.len(),
        before.by_handle.dom().contains(names[n]),
    ensures
        !gone.contains(names[n]),
        now.by_handle.dom().contains(names[n]),
        now.by_handle[names[n]] == before.by_handle[names[n]],
{
    reveal(is_partly_removed);
    if names.take(n).contains(names[n]) {
        let j = choose|j: int| 0 <= j < n && names.take(n)[j] == names[n];
        assert(names[j] == names[n]);
    }
}

proof fn lemma_one_more_name(names: Seq<Seq<char>>, n: int, handle: Seq<char>)
    requires
        0 <= n < names.len(),
    ensures
        names.take(n + 1).contains(handle) <==> names.take(n).contains(handle) || handle
            == names[n],
{
    let longer = names.take(n + 1);
    if longer.contains(handle) {
        let j = choose|j: int| 0 <= j < n + 1 && longer[j] == handle;
        if j < n {
            assert(names.take(n)[j] == handle);
        }
    }
    if names.take(n).contains(handle) {
        let j = choose|j: int| 0 <= j < n && names.take(n)[j] == handle;
        assert(longer[j] == handle);
    }
    assert(longer[n] == names[n]);
}

proof fn lemma_remove_one<S>(
    before: StoreView<S>,
    jti: Seq<char>,
    names: Seq<Seq<char>>,
    n: int,
    now: StoreView<S>,
    gone: Seq<Seq<char>>,
)
    requires
        is_partly_removed(before, jti, names, n, now, gone),
        names.no_duplicates(),
        0 <= n < names.len(),
        owns(before, jti, names[n]),
    ensures
        is_partly_removed(
            before,
            jti,
            names,
            n + 1,
            without_session(now, names[n]),
            gone.push(names[n]),
        ),
{
    lemma_not_yet_removed(before, jti, names, n, now, gone);
    reveal(is_partly_removed);
    let after = without_session(now, names[n]);
    let more = gone.push(names[n]);
    assert forall|handle: Seq<char>| more.contains(handle) <==> gone.contains(handle) || handle
        == names[n] by {
        if gone.contains(handle) {
            let j = choose|j: int| 0 <= j < gone.len() && gone[j] == handle;
            assert(more[j] == handle);
        }
        assert(more[gone.len() as int] == names[n]);
        if more.contains(handle) {
            let j = choose|j: int| 0 <= j < more.len() && more[j] == handle;
            if j < gone.len() {
                assert(gone[j] == handle);
            }
        }
    }
    assert forall|handle: Seq<char>| #[trigger]
        more.contains(handle) <==> names.take(n + 1).contains(handle) && owns(
        before,
        jti,
        handle,
    ) by {
        lemma_one_more_name(names, n, handle);
        assert(gone.contains(handle) <==> names.take(n).contains(handle) && owns(
            before,
            jti,
            handle,
        ));
    }
    assert forall|handle: Seq<char>| #[trigger]
        after.by_handle.dom().contains(handle) <==> before.by_handle.dom().contains(handle)
            && !more.contains(handle) by {
        assert(now.by_handle.dom().contains(handle) <==> before.by_handle.dom().contains(handle)
            && !gone.contains(handle));
    }
    assert(more.no_duplicates());
    assert(now.by_handle[names[n]].token_jti == jti);
    assert(after.by_token =~= before.by_token.remove(jti));
}

proof fn lemma_skip_one<S>(
    before: StoreView<S>,
    jti: Seq<char>,
    names: Seq<Seq<char>>,
    n: int,
    now: StoreView<S>,
    gone: Seq<Seq<char>>,
)
    requires
        is_partly_removed(before, jti, names, n, now, gone),
        0 <= n < names.len(),
        !owns(before, jti, names[n]),
    ensures
        is_partly_removed(before, jti, names, n + 1, now, gone),
{
    reveal(is_partly_removed);
    assert forall|handle: Seq<char>| #[trigger]
        gone.contains(handle) <==> names.take(n + 1).contains(handle) && owns(
        before,
        jti,
        handle,
    ) by {
        lemma_one_more_name(names, n, handle);
    }
}

proof fn lemma_all_removed<S>(
    before: StoreView<S>,
    jti: Seq<char>,
    names: Seq<Seq<char>>,
    now: StoreView<S>,
    gone: Seq<Seq<char>>,
)
    requires
        is_partly_removed(before, jti, names, names.len() as int, now, gone),
        forall|handle: Seq<char>|
            names.contains(handle) <==> before.by_handle.dom().contains(handle),
    ensures
        lists_owned(before, jti, gone),
        now == without_token(before, jti),
{
    reveal(is_partly_removed);
    assert(names.take(names.len() as int) =~= names);
    assert forall|handle: Seq<char>| gone.contains(handle) <==> #[trigger] owns(
        before,
        jti,
        handle,
    ) by {
        assert(gone.contains(handle) <==> names.contains(handle) && owns(before, jti, handle));
    }
    let expected = without_token(before, jti);
    assert(now.by_handle =~= expected.by_handle);
    if gone.len() > 0 {
        assert(gone.contains(gone[0]));
        assert(owns(before, jti, gone[0]));
    } else {
        assert forall|handle: Seq<char>| !owns(before, jti, handle) by {
            assert(!gone.contains(handle));
        }
    }
    assert(now.by_token =~= expected.by_token);
}

/// A fresh handle is a strong password: 43 characters, each of them URL-safe, from 256
/// random bits; different bits give different handles.
pub proof fn law_handle_strength(random: Seq<u8>, other: Seq<u8>)
    requires
        random.len() == 32,
        other.len() == 32,
    ensures
        handle_text(random) == base64url(random),
        handle_text(random).len() == 43,
        forall|i: int|
            0 <= i < handle_text(random).len() ==> is_url_safe(#[trigger] handle_text(random)[i]),
        handle_text(random) == handle_text(other) ==> random == other,
{
    lemma_base64url(random);
    lemma_base64url(other);
}

/// In a consistent store a token has at most one session.
pub proof fn law_one_session_per_token<S>(
    store: StoreView<S>,
    jti: Seq<char>,
    first: Seq<char>,
    second: Seq<char>,
)
    requires
        consistent(store),
        owns(store, jti, first),
        owns(store, jti, second),
    ensures
        first == second,
        live_handle(store, jti) == Some(first),
{
    assert(store.by_handle.dom().contains(first));
    assert(store.by_handle.dom().contains(second));
}

/// The empty store is consistent.
pub proof fn law_no_sessions_are_consistent<S>(store: StoreView<S>)
    requires
        store == (StoreView::<S> { by_handle: Map::empty(), by_token: Map::empty() }),
    ensures
        consistent(store),
{
}

/// Opening a session under a handle that is not in use, for a token without a live session,
/// keeps the store consistent.
pub proof fn law_open_keeps_consistency<S>(
    store: StoreView<S>,
    handle: Seq<char>,
    session: SessionView<S>,
)
    requires
        consistent(store),
        !store.by_handle.dom().contains(handle),
        live_handle(store, session.token_jti) is None,
    ensures
        consistent(with_session(store, handle, session)),
        live_handle(with_session(store, handle, session), session.token_jti) == Some(handle),
{
    let after = with_session(store, handle, session);
    assert(!store.by_token.dom().contains(session.token_jti));
    assert forall|jti: Seq<char>| #[trigger] after.by_token.dom().contains(jti) implies owns(
        after,
        jti,
        after.by_token[jti],
    ) by {
        if jti != session.token_jti {
            assert(store.by_token.dom().contains(jti));
            assert(owns(store, jti, store.by_token[jti]));
        }
    }
    assert forall|h: Seq<char>| #[trigger]
        after.by_handle.dom().contains(h) implies after.by_token.dom().contains(
        after.by_handle[h].token_jti,
    ) && after.by_token[after.by_handle[h].token_jti] == h by {
        if h != handle {
            assert(store.by_handle.dom().contains(h));
        }
    }
}

/// Taking out a session keeps the store consistent, and leaves no session under its handle
/// and none for its token.
pub proof fn law_remove_keeps_consistency<S>(store: StoreView<S>, handle: Seq<char>)
    requires
        consistent(store),
    ensures
        consistent(without_session(store, handle)),
        !without_session(store, handle).by_handle.dom().contains(handle),
        store.by_handle.dom().contains(handle) ==> live_handle(
            without_session(store, handle),
            store.by_handle[handle].token_jti,
        ) is None,
{
    let after = without_session(store, handle);
    assert forall|jti: Seq<char>| #[trigger] after.by_token.dom().contains(jti) implies owns(
        after,
        jti,
        after.by_token[jti],
    ) by {
        assert(store.by_token.dom().contains(jti));
        assert(owns(store, jti, store.by_token[jti]));
    }
    assert forall|h: Seq<char>| #[trigger]
        after.by_handle.dom().contains(h) implies after.by_token.dom().contains(
        after.by_handle[h].token_jti,
    ) && after.by_token[after.by_handle[h].token_jti] == h by {
        assert(store.by_handle.dom().contains(h));
    }
}

/// Opening or taking out one session leaves every other as it was.
pub proof fn law_other_sessions_are_untouched<S>(
    store: StoreView<S>,
    handle: Seq<char>,
    session: SessionView<S>,
    other: Seq<char>,
)
    requires
        other != handle,
        store.by_handle.dom().contains(other),
    ensures
        with_session(store, handle, session).by_handle.dom().contains(other),
        with_session(store, handle, session).by_handle[other] == store.by_handle[other],
        without_session(store, handle).by_handle.dom().contains(other),
        without_session(store, handle).by_handle[other] == store.by_handle[other],
{
}

/// Taking out the sessions of a token keeps the store consistent, leaves none of them, and
/// leaves those of every other token as they were.
pub proof fn law_revocation_ends_every_session<S>(store: StoreView<S>, jti: Seq<char>)
    ensures
        consistent(store) ==> consistent(without_token(store, jti)),
        consistent(store) ==> live_handle(without_token(store, jti), jti) is None,
        forall|handle: Seq<char>| !#[trigger] owns(without_token(store, jti), jti, handle),
        forall|other: Seq<char>, handle: Seq<char>|
            other != jti && #[trigger] owns(store, other, handle) ==> without_token(
                store,
                jti,
            ).by_handle.dom().contains(handle) && without_token(store, jti).by_handle[handle]
                == store.by_handle[handle],
{
    let after = without_token(store, jti);
    if consistent(store) {
        assert forall|token: Seq<char>| #[trigger]
            after.by_token.dom().contains(token) implies owns(
            after,
            token,
            after.by_token[token],
        ) by {
            assert(store.by_token.dom().contains(token));
            assert(owns(store, token, store.by_token[token]));
            if token == jti {
                assert(owns(store, jti, store.by_token[token]));
            }
        }
        assert forall|h: Seq<char>| #[trigger]
            after.by_handle.dom().contains(h) implies after.by_token.dom().contains(
            after.by_handle[h].token_jti,
        ) && after.by_token[after.by_handle[h].token_jti] == h by {
            assert(store.by_handle.dom().contains(h));
        }
        if after.by_token.dom().contains(jti) {
            assert(owns(after, jti, after.by_token[jti]));
        }
    }
}

/// A token has the handle that it was last given, as long as there is a session under it.
pub proof fn law_live_handle_is_found<S>(store: StoreView<S>, jti: Seq<char>, handle: Seq<char>)
    ensures
        live_handle(store, jti) == Some(handle) <==> store.by_token.dom().contains(jti)
            && store.by_token[jti] == handle && store.by_handle.dom().contains(handle),
{
}

/// A session has expired from the very second on in which its token ends, and never where its
/// token has no end.
pub proof fn law_sessions_expire_on_the_second<S>(
    store: StoreView<S>,
    handle: Seq<char>,
    now: int,
)
    ensures
        session_expired(store, handle, now) <==> store.by_handle[handle].expires_at is Some && now
            >= store.by_handle[handle].expires_at->0,
{
}

/// Opening a session adds it under its handle, gives that handle to its token, and touches no
/// other session and no other token.
pub proof fn law_opening_adds_one_session<S>(
    store: StoreView<S>,
    handle: Seq<char>,
    session: SessionView<S>,
    other: Seq<char>,
)
    ensures
        ({
            let after = with_session(store, handle, session);
            &&& after.by_handle.dom().contains(handle) && after.by_handle[handle] == session
            &&& after.by_token.dom().contains(session.token_jti)
                && after.by_token[session.token_jti] == handle
            &&& other != handle ==> (after.by_handle.dom().contains(other)
                <==> store.by_handle.dom().contains(other)) && after.by_handle[other]
                == store.by_handle[other]
            &&& other != session.token_jti ==> (after.by_token.dom().contains(other)
                <==> store.by_token.dom().contains(other)) && after.by_token[other]
                == store.by_token[other]
        }),
{
}

/// Ending a session takes it out, and its token with it, and touches no other session and no
/// other token; without such a session nothing changes.
pub proof fn law_ending_removes_one_session<S>(
    store: StoreView<S>,
    handle: Seq<char>,
    other: Seq<char>,
)
    ensures
        ({
            let after = without_session(store, handle);
            let owner = store.by_handle[handle].token_jti;
            &&& !after.by_handle.dom().contains(handle)
            &&& store.by_handle.dom().contains(handle) ==> !after.by_token.dom().contains(owner)
            &&& !store.by_handle.dom().contains(handle) ==> after == store
            &&& other != handle ==> (after.by_handle.dom().contains(other)
                <==> store.by_handle.dom().contains(other)) && (store.by_handle.dom().contains(
                other,
            ) ==> after.by_handle[other] == store.by_handle[other])
            &&& other != owner ==> (after.by_token.dom().contains(other)
                <==> store.by_token.dom().contains(other)) && (store.by_token.dom().contains(other)
                ==> after.by_token[other] == store.by_token[other])
        }),
{
}

/// Ending the sessions of a token takes out exactly those that are its own, and the token
/// with them; every other session and every other token stays as it was.
pub proof fn law_ending_all_removes_what_is_owned<S>(
    store: StoreView<S>,
    jti: Seq<char>,
    other: Seq<char>,
)
    ensures
        ({
            let after = without_token(store, jti);
            &&& after.by_handle.dom().contains(other) <==> store.by_handle.dom().contains(other)
                && store.by_handle[other].token_jti != jti
            &&& after.by_handle.dom().contains(other) ==> after.by_handle[other]
                == store.by_handle[other]
            &&& store.by_handle.dom().contains(other) && store.by_handle[other].token_jti == jti
                ==> !after.by_token.dom().contains(jti)
            &&& other != jti ==> (after.by_token.dom().contains(other)
                <==> store.by_token.dom().contains(other)) && (store.by_token.dom().contains(other)
                ==> after.by_token[other] == store.by_token[other])
        }),
{
    if store.by_handle.dom().contains(other) && store.by_handle[other].token_jti == jti {
        assert(owns(store, jti, other));
    }
}

/// The shells that are handed back are those of the sessions of the token, each once, and no
/// others.
pub proof fn law_owned_shells_are_handed_back<S>(
    store: StoreView<S>,
    jti: Seq<char>,
    shells: Seq<S>,
)
    requires
        are_shells_of(store, jti, shells),
    ensures
        exists|handles: Seq<Seq<char>>|
            {
                &&& #[trigger] handles.no_duplicates()
                &&& handles.len() == shells.len()
                &&& forall|handle: Seq<char>| #[trigger]
                    handles.contains(handle) <==> store.by_handle.dom().contains(handle)
                        && store.by_handle[handle].token_jti == jti
                &&& forall|i: int|
                    0 <= i < shells.len() ==> #[trigger] shells[i]
                        == store.by_handle[handles[i]].shell
            },
{
    let handles = choose|handles: Seq<Seq<char>>| #[trigger]
        lists_owned(store, jti, handles) && shells == shells_under(store, handles);
    assert forall|handle: Seq<char>| #[trigger] handles.contains(handle)
        <==> store.by_handle.dom().contains(handle) && store.by_handle[handle].token_jti == jti by {
        assert(handles.contains(handle) <==> owns(store, jti, handle));
    }
    assert(handles.no_duplicates());
}

} // verus!

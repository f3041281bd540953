//! The session store model: one record per session token, plus the
//! per-epoch key-value shards the session's guest code writes through.
//!
//! Two layouts of the key-value protocol appear in deployments of this
//! worker: a plain per-session hash, and per-epoch shards read through an
//! epoch-fallback scan. This library implements the epoch-sharded,
//! relocating variant: writes land in the shard of `epoch + 1` and become
//! visible only when the epoch is advanced, which is what gives a session
//! its atomic commit boundary.

use vstd::prelude::*;

use crate::value::{NamedValue, Value};
use crate::WorkerError;

verus! {

/// One session record: the guest module and the knobs it runs under.
#[derive(Debug)]
pub struct SessionRecord {
    pub token: String,
    pub space_name: String,
    pub module: Vec<u8>,
    pub ex_timeout: u64,
    pub parallel: u64,
    pub epoch: u64,
}

/// The field data of one per-epoch shard, keys unique.
#[derive(Debug)]
pub struct Shard {
    pub fields: Vec<NamedValue>,
}

/// One shard table entry: the owning token, the epoch index, the data.
#[derive(Debug)]
pub struct ShardEntry {
    pub token: String,
    pub epoch: u64,
    pub data: Shard,
}

/// The whole store: session records and every session's shards.
#[derive(Debug)]
pub struct SessionStore {
    pub sessions: Vec<SessionRecord>,
    pub shards: Vec<ShardEntry>,
}

/// The session holding `tok`, if any (first match; unique under [`wf`]).
pub open spec fn spec_find_session(ss: Seq<SessionRecord>, tok: Seq<char>) -> Option<SessionRecord>
    decreases ss.len(),
{
    if ss.len() == 0 {
        Option::None
    } else if ss[0].token@ == tok {
        Option::Some(ss[0])
    } else {
        spec_find_session(ss.drop_first(), tok)
    }
}

/// The shard of `tok` at epoch index `ep`, if any.
pub open spec fn spec_find_shard(hs: Seq<ShardEntry>, tok: Seq<char>, ep: int) -> Option<ShardEntry>
    decreases hs.len(),
{
    if hs.len() == 0 {
        Option::None
    } else if hs[0].token@ == tok && hs[0].epoch == ep {
        Option::Some(hs[0])
    } else {
        spec_find_shard(hs.drop_first(), tok, ep)
    }
}

/// The value stored under `key` in a shard's fields, if any.
pub open spec fn spec_fields_get(fs: Seq<NamedValue>, key: Seq<char>) -> Option<Value>
    decreases fs.len(),
{
    if fs.len() == 0 {
        Option::None
    } else if fs[0].key@ == key {
        Option::Some(fs[0].val)
    } else {
        spec_fields_get(fs.drop_first(), key)
    }
}

/// At most one session record per token.
pub open spec fn sessions_unique(ss: Seq<SessionRecord>) -> bool {
    forall|i: int, j: int| 0 <= i < j < ss.len() ==> ss[i].token@ != ss[j].token@
}

/// At most one shard per (token, epoch) pair.
pub open spec fn shards_unique(hs: Seq<ShardEntry>) -> bool {
    forall|i: int, j: int|
        0 <= i < j < hs.len() ==> !(hs[i].token@ == hs[j].token@ && hs[i].epoch == hs[j].epoch)
}

/// At most one field per key within a shard.
pub open spec fn fields_unique(fs: Seq<NamedValue>) -> bool {
    forall|i: int, j: int| 0 <= i < j < fs.len() ==> fs[i].key@ != fs[j].key@
}

/// Every shard belongs to a live session and sits no further than one
/// epoch past it: writes are scoped to `epoch + 1` at most.
pub open spec fn shards_owned(ss: Seq<SessionRecord>, hs: Seq<ShardEntry>) -> bool {
    forall|i: int|
        0 <= i < hs.len() ==> (spec_find_session(ss, #[trigger] hs[i].token@) matches Option::Some(
            s,
        ) && hs[i].epoch <= s.epoch + 1)
}

/// Well-formedness of the whole store.
pub open spec fn wf(st: SessionStore) -> bool {
    &&& sessions_unique(st.sessions@)
    &&& shards_unique(st.shards@)
    &&& shards_owned(st.sessions@, st.shards@)
    &&& forall|i: int| 0 <= i < st.shards@.len() ==> fields_unique(#[trigger] st.shards@[i].data.fields@)
}

/// A first match with a clear prefix is what the session finder returns.
pub proof fn lemma_find_session_at(ss: Seq<SessionRecord>, i: int)
    requires
        0 <= i < ss.len(),
        forall|j: int| 0 <= j < i ==> ss[j].token@ != ss[i].token@,
    ensures
        spec_find_session(ss, ss[i].token@) == Option::Some(ss[i]),
    decreases ss.len(),
{
    if i > 0 {
        assert(ss.drop_first()[i - 1] == ss[i]);
        assert forall|j: int| #![trigger ss.drop_first()[j]] 0 <= j < i - 1 implies ss.drop_first()[
            j
        ].token@ != ss.drop_first()[i - 1].token@ by {
            assert(ss.drop_first()[j] == ss[j + 1]);
        }
        lemma_find_session_at(ss.drop_first(), i - 1);
    }
}

/// The session finder misses only when no record holds the token.
pub proof fn lemma_find_session_none(ss: Seq<SessionRecord>, tok: Seq<char>)
    requires
        forall|j: int| 0 <= j < ss.len() ==> ss[j].token@ != tok,
    ensures
        spec_find_session(ss, tok) is None,
    decreases ss.len(),
{
    if ss.len() > 0 {
        assert forall|j: int| #![trigger ss.drop_first()[j]] 0 <= j < ss.drop_first().len() implies ss.drop_first()[
            j
        ].token@ != tok by {
            assert(ss.drop_first()[j] == ss[j + 1]);
        }
        lemma_find_session_none(ss.drop_first(), tok);
    }
}

/// Removing one record changes no other token's lookup; with unique
/// tokens, the removed token's lookup comes up empty.
pub proof fn lemma_find_session_remove(ss: Seq<SessionRecord>, i: int, tok2: Seq<char>)
    requires
        0 <= i < ss.len(),
        tok2 != ss[i].token@,
    ensures
        spec_find_session(ss.remove(i), tok2) == spec_find_session(ss, tok2),
    decreases ss.len(),
{
    if i == 0 {
        assert(ss.remove(0) =~= ss.drop_first());
    } else {
        assert(ss.remove(i)[0] == ss[0]);
        assert(ss.remove(i).drop_first() =~= ss.drop_first().remove(i - 1));
        if ss[0].token@ != tok2 {
            lemma_find_session_remove(ss.drop_first(), i - 1, tok2);
        }
    }
}

/// With unique tokens, removing a record empties its token's lookup.
pub proof fn lemma_find_session_remove_gone(ss: Seq<SessionRecord>, i: int)
    requires
        0 <= i < ss.len(),
        sessions_unique(ss),
    ensures
        spec_find_session(ss.remove(i), ss[i].token@) is None,
{
    let rem = ss.remove(i);
    assert forall|j: int| #![trigger rem[j]] 0 <= j < rem.len() implies rem[j].token@ != ss[i].token@ by {
        if j < i {
            assert(rem[j] == ss[j]);
        } else {
            assert(rem[j] == ss[j + 1]);
        }
    }
    lemma_find_session_none(rem, ss[i].token@);
}

/// A first match with a clear prefix is what the shard finder returns.
pub proof fn lemma_find_shard_at(hs: Seq<ShardEntry>, i: int)
    requires
        0 <= i < hs.len(),
        forall|j: int|
            0 <= j < i ==> !(hs[j].token@ == hs[i].token@ && hs[j].epoch == hs[i].epoch),
    ensures
        spec_find_shard(hs, hs[i].token@, hs[i].epoch as int) == Option::Some(hs[i]),
    decreases hs.len(),
{
    if i > 0 {
        assert(hs.drop_first()[i - 1] == hs[i]);
        assert forall|j: int| #![trigger hs.drop_first()[j]] 0 <= j < i - 1 implies !(hs.drop_first()[
            j
        ].token@ == hs.drop_first()[i - 1].token@ && hs.drop_first()[j].epoch == hs.drop_first()[i
            - 1].epoch) by {
            assert(hs.drop_first()[j] == hs[j + 1]);
        }
        lemma_find_shard_at(hs.drop_first(), i - 1);
    }
}

/// The shard finder misses only when no entry holds the pair.
pub proof fn lemma_find_shard_none(hs: Seq<ShardEntry>, tok: Seq<char>, ep: int)
    requires
        forall|j: int| 0 <= j < hs.len() ==> !(hs[j].token@ == tok && hs[j].epoch == ep),
    ensures
        spec_find_shard(hs, tok, ep) is None,
    decreases hs.len(),
{
    if hs.len() > 0 {
        assert forall|j: int| #![trigger hs.drop_first()[j]] 0 <= j < hs.drop_first().len() implies !(
        hs.drop_first()[j].token@ == tok && hs.drop_first()[j].epoch == ep) by {
            assert(hs.drop_first()[j] == hs[j + 1]);
        }
        lemma_find_shard_none(hs.drop_first(), tok, ep);
    }
}

/// A found shard is one of the entries.
pub proof fn lemma_find_shard_some(hs: Seq<ShardEntry>, tok: Seq<char>, ep: int)
    requires
        spec_find_shard(hs, tok, ep) is Some,
    ensures
        spec_find_shard(hs, tok, ep) matches Option::Some(e) ==> e.token@ == tok && e.epoch == ep
            && exists|i: int| 0 <= i < hs.len() && hs[i] == e,
    decreases hs.len(),
{
    if hs.len() > 0 && !(hs[0].token@ == tok && hs[0].epoch == ep) {
        lemma_find_shard_some(hs.drop_first(), tok, ep);
        let e = spec_find_shard(hs, tok, ep)->Some_0;
        if spec_find_shard(hs.drop_first(), tok, ep) is Some {
            let i = choose|i: int| 0 <= i < hs.drop_first().len() && hs.drop_first()[i] == e;
            assert(hs[i + 1] == e);
        }
    }
}

/// Removing one shard changes no other pair's lookup.
pub proof fn lemma_find_shard_remove(hs: Seq<ShardEntry>, i: int, tok2: Seq<char>, ep2: int)
    requires
        0 <= i < hs.len(),
        !(tok2 == hs[i].token@ && ep2 == hs[i].epoch),
    ensures
        spec_find_shard(hs.remove(i), tok2, ep2) == spec_find_shard(hs, tok2, ep2),
    decreases hs.len(),
{
    if i == 0 {
        assert(hs.remove(0) =~= hs.drop_first());
    } else {
        assert(hs.remove(i)[0] == hs[0]);
        assert(hs.remove(i).drop_first() =~= hs.drop_first().remove(i - 1));
        if !(hs[0].token@ == tok2 && hs[0].epoch == ep2) {
            lemma_find_shard_remove(hs.drop_first(), i - 1, tok2, ep2);
        }
    }
}

/// With unique pairs, removing a shard empties its pair's lookup.
pub proof fn lemma_find_shard_remove_gone(hs: Seq<ShardEntry>, i: int)
    requires
        0 <= i < hs.len(),
        shards_unique(hs),
    ensures
        spec_find_shard(hs.remove(i), hs[i].token@, hs[i].epoch as int) is None,
{
    let rem = hs.remove(i);
    assert forall|j: int| #![trigger rem[j]] 0 <= j < rem.len() implies !(rem[j].token@ == hs[i].token@
        && rem[j].epoch == hs[i].epoch) by {
        if j < i {
            assert(rem[j] == hs[j]);
        } else {
            assert(rem[j] == hs[j + 1]);
        }
    }
    lemma_find_shard_none(rem, hs[i].token@, hs[i].epoch as int);
}

/// Opening a session writes one fresh record and touches nothing else;
/// it is refused only when the token is already taken.
pub open spec fn spec_insert_session(
    pre: SessionStore,
    post: SessionStore,
    rec: SessionRecord,
    r: Result<(), WorkerError>,
) -> bool {
    match r {
        Result::Ok(u) => {
            &&& spec_find_session(pre.sessions@, rec.token@) is None
            &&& spec_find_session(post.sessions@, rec.token@) == Option::Some(rec)
            &&& forall|t2: Seq<char>|
                #![trigger spec_find_session(post.sessions@, t2)]
                t2 != rec.token@ ==> spec_find_session(post.sessions@, t2) == spec_find_session(
                    pre.sessions@,
                    t2,
                )
            &&& post.shards == pre.shards
        },
        Result::Err(e) => {
            &&& e == WorkerError::BackendError
            &&& spec_find_session(pre.sessions@, rec.token@) is Some
            &&& post == pre
        },
    }
}

/// Advancing the epoch bumps the one counter and touches nothing else;
/// it is the sole commit mechanism for pending shard writes.
pub open spec fn spec_increment_epoch(
    pre: SessionStore,
    post: SessionStore,
    tok: Seq<char>,
    r: Result<u64, WorkerError>,
) -> bool {
    match r {
        Result::Ok(e) => {
            &&& spec_find_session(pre.sessions@, tok) matches Option::Some(s) && e == s.epoch + 1
                && spec_find_session(post.sessions@, tok) == Option::Some(
                (SessionRecord { epoch: e, ..s }),
            )
            &&& forall|t2: Seq<char>|
                #![trigger spec_find_session(post.sessions@, t2)]
                t2 != tok ==> spec_find_session(post.sessions@, t2) == spec_find_session(
                    pre.sessions@,
                    t2,
                )
            &&& post.shards == pre.shards
        },
        Result::Err(er) => {
            &&& er == WorkerError::BackendError
            &&& spec_find_session(pre.sessions@, tok) is None
            &&& post == pre
        },
    }
}

/// Closing a session removes its record and every one of its shards, and
/// touches nothing else.
pub open spec fn spec_close_session(
    pre: SessionStore,
    post: SessionStore,
    tok: Seq<char>,
    r: Result<(), WorkerError>,
) -> bool {
    match r {
        Result::Ok(u) => {
            &&& spec_find_session(pre.sessions@, tok) is Some
            &&& spec_find_session(post.sessions@, tok) is None
            &&& forall|ep: int| spec_find_shard(post.shards@, tok, ep) is None
            &&& forall|t2: Seq<char>|
                #![trigger spec_find_session(post.sessions@, t2)]
                t2 != tok ==> spec_find_session(post.sessions@, t2) == spec_find_session(
                    pre.sessions@,
                    t2,
                )
            &&& forall|t2: Seq<char>, ep: int|
                #![trigger spec_find_shard(post.shards@, t2, ep)]
                t2 != tok ==> spec_find_shard(post.shards@, t2, ep) == spec_find_shard(
                    pre.shards@,
                    t2,
                    ep,
                )
        },
        Result::Err(e) => {
            &&& e == WorkerError::BackendError
            &&& spec_find_session(pre.sessions@, tok) is None
            &&& post == pre
        },
    }
}

impl SessionStore {
    /// An empty store.
    pub fn new() -> (st: SessionStore)
        ensures
            wf(st),
            st.sessions@.len() == 0,
            st.shards@.len() == 0,
    {
        SessionStore { sessions: Vec::new(), shards: Vec::new() }
    }

    /// The position of the session holding `token`, tied to the finder.
    pub fn session_index(&self, token: &String) -> (r: Option<usize>)
        ensures
            match r {
                Option::Some(i) => i < self.sessions@.len() && self.sessions@[i as int].token@
                    == token@ && spec_find_session(self.sessions@, token@) == Option::Some(
                    self.sessions@[i as int],
                ),
                Option::None => spec_find_session(self.sessions@, token@) is None,
            },
    {
        let mut i: usize = 0;
        while i < self.sessions.len()
            invariant
                i <= self.sessions@.len(),
                forall|j: int| 0 <= j < i ==> self.sessions@[j].token@ != token@,
            decreases self.sessions@.len() - i,
        {
            if self.sessions[i].token == *token {
                proof {
                    lemma_find_session_at(self.sessions@, i as int);
                }
                return Some(i);
            }
            i = i + 1;
        }
        proof {
            lemma_find_session_none(self.sessions@, token@);
        }
        None
    }

    /// The position of the shard of `token` at `ep`, tied to the finder.
    pub fn shard_index(&self, token: &String, ep: u64) -> (r: Option<usize>)
        ensures
            match r {
                Option::Some(i) => i < self.shards@.len() && self.shards@[i as int].token@
                    == token@ && self.shards@[i as int].epoch == ep && spec_find_shard(
                    self.shards@,
                    token@,
                    ep as int,
                ) == Option::Some(self.shards@[i as int]),
                Option::None => spec_find_shard(self.shards@, token@, ep as int) is None,
            },
    {
        let mut i: usize = 0;
        while i < self.shards.len()
            invariant
                i <= self.shards@.len(),
                forall|j: int|
                    0 <= j < i ==> !(self.shards@[j].token@ == token@ && self.shards@[j].epoch
                        == ep),
            decreases self.shards@.len() - i,
        {
            if self.shards[i].epoch == ep && self.shards[i].token == *token {
                proof {
                    lemma_find_shard_at(self.shards@, i as int);
                }
                return Some(i);
            }
            i = i + 1;
        }
        proof {
            lemma_find_shard_none(self.shards@, token@, ep as int);
        }
        None
    }

    /// Writes a fresh session record, refusing a taken token.
    pub fn insert_session(&mut self, rec: SessionRecord) -> (r: Result<(), WorkerError>)
        requires
            wf(*old(self)),
        ensures
            wf(*final(self)),
            spec_insert_session(*old(self), *final(self), rec, r),
    {
        match self.session_index(&rec.token) {
            Option::Some(_) => Err(WorkerError::BackendError),
            Option::None => {
                self.sessions.push(rec);
                proof {
                    let ss = self.sessions@;
                    let pre = old(self).sessions@;
                    assert forall|j: int|
                        #![trigger pre[j]]
                        0 <= j < pre.len() implies pre[j].token@ != rec.token@ by {
                        if pre[j].token@ == rec.token@ {
                            lemma_find_session_at_first(pre, j, rec.token@);
                        }
                    }
                    lemma_find_session_push(pre, rec);
                    assert forall|i: int|
                        0 <= i < self.shards@.len() implies (spec_find_session(
                        ss,
                        #[trigger] self.shards@[i].token@,
                    ) matches Option::Some(s) && self.shards@[i].epoch <= s.epoch + 1) by {
                        assert(self.shards@[i].token@ != rec.token@);
                    }
                }
                Ok(())
            },
        }
    }

    /// Atomically increments and returns the session's epoch counter.
    pub fn increment_epoch(&mut self, token: &String) -> (r: Result<u64, WorkerError>)
        requires
            wf(*old(self)),
            spec_find_session(old(self).sessions@, token@) matches Option::Some(s) ==> s.epoch
                < u64::MAX,
        ensures
            wf(*final(self)),
            spec_increment_epoch(*old(self), *final(self), token@, r),
    {
        let i = match self.session_index(token) {
            Option::None => {
                return Err(WorkerError::BackendError);
            },
            Option::Some(i) => i,
        };
        let mut rec = self.sessions.remove(i);
        let e = rec.epoch + 1;
        rec.epoch = e;
        self.sessions.insert(i, rec);
        proof {
            let pre = old(self).sessions@;
            let post = self.sessions@;
            assert(post =~= pre.update(i as int, post[i as int]));
            lemma_find_session_update(pre, i as int, post[i as int]);
            assert forall|k: int|
                0 <= k < self.shards@.len() implies (spec_find_session(
                post,
                #[trigger] self.shards@[k].token@,
            ) matches Option::Some(s2) && self.shards@[k].epoch <= s2.epoch + 1) by {
                // Whether the shard belongs to this session or another,
                // its owner's epoch only grew.
            }
        }
        Ok(e)
    }

    /// Removes the shard of `token` at `ep`, if present; nothing else
    /// moves.
    fn remove_shard(&mut self, token: &String, ep: u64)
        requires
            shards_unique(old(self).shards@),
        ensures
            final(self).sessions == old(self).sessions,
            spec_find_shard(final(self).shards@, token@, ep as int) is None,
            forall|t2: Seq<char>, e2: int|
                #![trigger spec_find_shard(final(self).shards@, t2, e2)]
                !(t2 == token@ && e2 == ep) ==> spec_find_shard(final(self).shards@, t2, e2)
                    == spec_find_shard(old(self).shards@, t2, e2),
            final(self).shards@ == old(self).shards@ || exists|i: int|
                0 <= i < old(self).shards@.len() && final(self).shards@ == old(
                    self,
                ).shards@.remove(i),
            shards_unique(final(self).shards@),
    {
        match self.shard_index(token, ep) {
            Option::None => {
                proof {
                    assert(spec_find_shard(self.shards@, token@, ep as int) is None);
                }
            },
            Option::Some(i) => {
                self.shards.remove(i);
                proof {
                    let pre = old(self).shards@;
                    lemma_find_shard_remove_gone(pre, i as int);
                    assert forall|t2: Seq<char>, e2: int|
                        #![trigger spec_find_shard(self.shards@, t2, e2)]
                        !(t2 == token@ && e2 == ep) implies spec_find_shard(self.shards@, t2, e2)
                        == spec_find_shard(pre, t2, e2) by {
                        lemma_find_shard_remove(pre, i as int, t2, e2);
                    }
                    assert forall|a: int, b: int|
                        0 <= a < b < self.shards@.len() implies !(self.shards@[a].token@
                        == self.shards@[b].token@ && self.shards@[a].epoch
                        == self.shards@[b].epoch) by {
                        let pa = if a < i as int {
                            a
                        } else {
                            a + 1
                        };
                        let pb = if b < i as int {
                            b
                        } else {
                            b + 1
                        };
                        assert(self.shards@[a] == pre[pa]);
                        assert(self.shards@[b] == pre[pb]);
                    }
                }
            },
        }
    }

    /// Atomically deletes the session record and every per-epoch shard
    /// from 0 through one past the last known epoch: the range is computed
    /// from the epoch read in the same operation, so no shard leaks, the
    /// pending-write shard included.
    pub fn close_session(&mut self, token: &String) -> (r: Result<(), WorkerError>)
        requires
            wf(*old(self)),
            spec_find_session(old(self).sessions@, token@) matches Option::Some(s) ==> s.epoch
                < u64::MAX,
        ensures
            wf(*final(self)),
            spec_close_session(*old(self), *final(self), token@, r),
    {
        let i = match self.session_index(token) {
            Option::None => {
                return Err(WorkerError::BackendError);
            },
            Option::Some(i) => i,
        };
        let last_epoch = self.sessions[i].epoch;
        let mut ep: u64 = 0;
        while ep <= last_epoch
            invariant
                wf(*old(self)),
                i < self.sessions@.len(),
                self.sessions == old(self).sessions,
                spec_find_session(old(self).sessions@, token@) == Option::Some(
                    old(self).sessions@[i as int],
                ),
                old(self).sessions@[i as int].token@ == token@,
                last_epoch == old(self).sessions@[i as int].epoch,
                last_epoch < u64::MAX,
                ep <= last_epoch + 1,
                shards_unique(self.shards@),
                forall|e2: int| 0 <= e2 < ep ==> spec_find_shard(self.shards@, token@, e2) is None,
                forall|t2: Seq<char>, e2: int|
                    #![trigger spec_find_shard(self.shards@, t2, e2)]
                    t2 != token@ ==> spec_find_shard(self.shards@, t2, e2) == spec_find_shard(
                        old(self).shards@,
                        t2,
                        e2,
                    ),
                shards_owned(self.sessions@, self.shards@),
                forall|k: int|
                    0 <= k < self.shards@.len() ==> fields_unique(
                        #[trigger] self.shards@[k].data.fields@,
                    ),
            decreases last_epoch + 1 - ep,
        {
            let ghost pre_shards = self.shards@;
            self.remove_shard(token, ep);
            proof {
                lemma_shards_shrink_preserved(self.sessions@, pre_shards, self.shards@);
            }
            ep = ep + 1;
        }
        // One past the last epoch holds the pending writes; it goes too.
        let ghost pre_shards = self.shards@;
        self.remove_shard(token, ep);
        proof {
            lemma_shards_shrink_preserved(self.sessions@, pre_shards, self.shards@);
            // Ownership bounds every shard of this token by last_epoch + 1,
            // and everything in that range is gone, so nothing is left.
            assert forall|e2: int| spec_find_shard(self.shards@, token@, e2) is None by {
                if spec_find_shard(self.shards@, token@, e2) is Some {
                    lemma_find_shard_some(self.shards@, token@, e2);
                    let e = spec_find_shard(self.shards@, token@, e2)->Some_0;
                    let k = choose|k: int| 0 <= k < self.shards@.len() && self.shards@[k] == e;
                    assert(spec_find_session(self.sessions@, self.shards@[k].token@)
                        matches Option::Some(s2) && self.shards@[k].epoch <= s2.epoch + 1);
                    assert(0 <= e2 <= last_epoch + 1);
                    assert(false);
                }
            }
        }
        self.sessions.remove(i);
        proof {
            let pre = old(self).sessions@;
            lemma_find_session_remove_gone(pre, i as int);
            assert forall|t2: Seq<char>|
                #![trigger spec_find_session(self.sessions@, t2)]
                t2 != token@ implies spec_find_session(self.sessions@, t2) == spec_find_session(
                pre,
                t2,
            ) by {
                lemma_find_session_remove(pre, i as int, t2);
            }
            assert forall|a: int, b: int|
                0 <= a < b < self.sessions@.len() implies self.sessions@[a].token@
                != self.sessions@[b].token@ by {
                let pa = if a < i as int {
                    a
                } else {
                    a + 1
                };
                let pb = if b < i as int {
                    b
                } else {
                    b + 1
                };
                assert(self.sessions@[a] == pre[pa]);
                assert(self.sessions@[b] == pre[pb]);
            }
            assert forall|m: int|
                0 <= m < self.shards@.len() implies (spec_find_session(
                self.sessions@,
                #[trigger] self.shards@[m].token@,
            ) matches Option::Some(s2) && self.shards@[m].epoch <= s2.epoch + 1) by {
                if self.shards@[m].token@ == token@ {
                    lemma_shard_entry_found(self.shards@, m);
                    assert(false);
                }
            }
        }
        Ok(())
    }

    /// Reads one session record whole, as the streaming path does before
    /// its first run.
    pub fn load_session(&self, token: &String) -> (r: Result<SessionRecord, WorkerError>)
        ensures
            match r {
                Result::Ok(rec) => spec_find_session(self.sessions@, token@)
                    matches Option::Some(s) && rec.token@ == s.token@ && rec.space_name@
                    == s.space_name@ && rec.module@ == s.module@ && rec.ex_timeout == s.ex_timeout
                    && rec.parallel == s.parallel && rec.epoch == s.epoch,
                Result::Err(e) => e == WorkerError::BackendError && spec_find_session(
                    self.sessions@,
                    token@,
                ) is None,
            },
    {
        match self.session_index(token) {
            Option::None => Err(WorkerError::BackendError),
            Option::Some(i) => {
                let s = &self.sessions[i];
                Ok(
                    SessionRecord {
                        token: s.token.clone(),
                        space_name: s.space_name.clone(),
                        module: s.module.clone(),
                        ex_timeout: s.ex_timeout,
                        parallel: s.parallel,
                        epoch: s.epoch,
                    },
                )
            },
        }
    }
}

/// If some record holds the token, the finder returns one.
proof fn lemma_find_session_at_first(ss: Seq<SessionRecord>, j: int, tok: Seq<char>)
    requires
        0 <= j < ss.len(),
        ss[j].token@ == tok,
    ensures
        spec_find_session(ss, tok) is Some,
    decreases ss.len(),
{
    if ss[0].token@ != tok {
        assert(ss.drop_first()[j - 1] == ss[j]);
        lemma_find_session_at_first(ss.drop_first(), j - 1, tok);
    }
}

/// Dropping one shard entry (or none) keeps ownership and per-shard key
/// uniqueness intact.
proof fn lemma_shards_shrink_preserved(
    sessions: Seq<SessionRecord>,
    pre: Seq<ShardEntry>,
    post: Seq<ShardEntry>,
)
    requires
        post == pre || exists|k: int| 0 <= k < pre.len() && post == pre.remove(k),
        shards_owned(sessions, pre),
        forall|m: int| 0 <= m < pre.len() ==> fields_unique(#[trigger] pre[m].data.fields@),
    ensures
        shards_owned(sessions, post),
        forall|m: int| 0 <= m < post.len() ==> fields_unique(#[trigger] post[m].data.fields@),
{
    if post != pre {
        let k = choose|k: int| 0 <= k < pre.len() && post == pre.remove(k);
        assert forall|m: int|
            0 <= m < post.len() implies (spec_find_session(
            sessions,
            #[trigger] post[m].token@,
        ) matches Option::Some(s2) && post[m].epoch <= s2.epoch + 1) && fields_unique(
            post[m].data.fields@,
        ) by {
            let pm = if m < k {
                m
            } else {
                m + 1
            };
            assert(post[m] == pre[pm]);
        }
    }
}

/// A shard entry in a unique table is what its pair's lookup finds.
proof fn lemma_shard_entry_found(hs: Seq<ShardEntry>, m: int)
    requires
        0 <= m < hs.len(),
        shards_unique(hs),
    ensures
        spec_find_shard(hs, hs[m].token@, hs[m].epoch as int) is Some,
{
    assert forall|j: int| #![trigger hs[j]] 0 <= j < m implies !(hs[j].token@ == hs[m].token@
        && hs[j].epoch == hs[m].epoch) by {}
    lemma_find_shard_at(hs, m);
}

/// Appending a fresh token leaves every other lookup alone.
proof fn lemma_find_session_push(ss: Seq<SessionRecord>, rec: SessionRecord)
    requires
        spec_find_session(ss, rec.token@) is None,
    ensures
        spec_find_session(ss.push(rec), rec.token@) == Option::Some(rec),
        forall|t2: Seq<char>|
            #![trigger spec_find_session(ss.push(rec), t2)]
            t2 != rec.token@ ==> spec_find_session(ss.push(rec), t2) == spec_find_session(ss, t2),
        sessions_unique(ss) ==> sessions_unique(ss.push(rec)),
    decreases ss.len(),
{
    assert forall|j: int| #![trigger ss[j]] 0 <= j < ss.len() implies ss[j].token@ != rec.token@ by {
        if ss[j].token@ == rec.token@ {
            lemma_find_session_at_first(ss, j, rec.token@);
        }
    }
    lemma_find_session_at(ss.push(rec), ss.len() as int);
    assert forall|t2: Seq<char>|
        #![trigger spec_find_session(ss.push(rec), t2)]
        t2 != rec.token@ implies spec_find_session(ss.push(rec), t2) == spec_find_session(
        ss,
        t2,
    ) by {
        lemma_find_session_push_other(ss, rec, t2);
    }
}

/// Pushing a record does not change lookups of other tokens.
proof fn lemma_find_session_push_other(ss: Seq<SessionRecord>, rec: SessionRecord, t2: Seq<char>)
    requires
        t2 != rec.token@,
    ensures
        spec_find_session(ss.push(rec), t2) == spec_find_session(ss, t2),
    decreases ss.len(),
{
    if ss.len() == 0 {
        assert(ss.push(rec)[0] == rec);
        assert(ss.push(rec).drop_first() =~= ss);
        assert(spec_find_session(ss.push(rec), t2) == spec_find_session(
            ss.push(rec).drop_first(),
            t2,
        ));
    } else {
        assert(ss.push(rec)[0] == ss[0]);
        assert(ss.push(rec).drop_first() =~= ss.drop_first().push(rec));
        lemma_find_session_push_other(ss.drop_first(), rec, t2);
    }
}

/// Updating a record in place rewires only its own token's lookup.
proof fn lemma_find_session_update(ss: Seq<SessionRecord>, i: int, rec: SessionRecord)
    requires
        0 <= i < ss.len(),
        sessions_unique(ss),
        rec.token@ == ss[i].token@,
    ensures
        spec_find_session(ss.update(i, rec), rec.token@) == Option::Some(rec),
        forall|t2: Seq<char>|
            #![trigger spec_find_session(ss.update(i, rec), t2)]
            t2 != rec.token@ ==> spec_find_session(ss.update(i, rec), t2) == spec_find_session(
                ss,
                t2,
            ),
        sessions_unique(ss.update(i, rec)),
{
    let post = ss.update(i, rec);
    assert forall|j: int| #![trigger post[j]] 0 <= j < i implies post[j].token@ != rec.token@ by {
        assert(post[j] == ss[j]);
    }
    lemma_find_session_at(post, i);
    assert forall|t2: Seq<char>|
        #![trigger spec_find_session(post, t2)]
        t2 != rec.token@ implies spec_find_session(post, t2) == spec_find_session(ss, t2) by {
        lemma_find_session_update_other(ss, i, rec, t2);
    }
}

/// Updating a record does not change lookups of other tokens.
proof fn lemma_find_session_update_other(
    ss: Seq<SessionRecord>,
    i: int,
    rec: SessionRecord,
    t2: Seq<char>,
)
    requires
        0 <= i < ss.len(),
        rec.token@ == ss[i].token@,
        t2 != rec.token@,
    ensures
        spec_find_session(ss.update(i, rec), t2) == spec_find_session(ss, t2),
    decreases ss.len(),
{
    let post = ss.update(i, rec);
    if i == 0 {
        assert(post[0] == rec);
        assert(post.drop_first() =~= ss.drop_first());
    } else {
        assert(post[0] == ss[0]);
        assert(post.drop_first() =~= ss.drop_first().update(i - 1, rec));
        if ss[0].token@ != t2 {
            lemma_find_session_update_other(ss.drop_first(), i - 1, rec, t2);
        }
    }
}

/// A session opens at epoch 0 and `increment_epoch` is strictly
/// monotonic: the first advance returns 1, and each later advance returns
/// one more than the advance before it.
pub proof fn lemma_increment_epoch_monotonic(
    s0: SessionStore,
    s1: SessionStore,
    s2: SessionStore,
    s3: SessionStore,
    rec: SessionRecord,
    r1: u64,
    r2: u64,
)
    requires
        rec.epoch == 0,
        spec_insert_session(s0, s1, rec, Result::Ok(())),
        spec_increment_epoch(s1, s2, rec.token@, Result::Ok(r1)),
        spec_increment_epoch(s2, s3, rec.token@, Result::Ok(r2)),
    ensures
        r1 == 1,
        r2 == 2,
        r2 > r1 > rec.epoch,
{
}

} // verus!
